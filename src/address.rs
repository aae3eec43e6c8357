//! Endpoint and file-path strings.
use vstd::prelude::*;

verus! {

/// Why a path next to the executable could not be formed.
#[derive(Clone, Copy, PartialEq, Eq, Structural, Debug)]
pub enum PathError {
    /// The executable's path has no parent directory.
    NoParent,
}

/// `host:port`.
pub fn create_socket_address(host: &str, port: &str) -> (r: String)
    ensures
        r@ == host@ + seq![':'] + port@,
{
    let with_host = String::from_str(host);
    let with_colon = with_host.concat(":");
    proof {
        reveal_strlit(":");
    }
    let r = with_colon.concat(port);
    assert(r@ =~= host@ + seq![':'] + port@);
    r
}

/// Whether a path starts with the Windows verbatim prefix `\\?\`.
pub open spec fn is_verbatim(path: Seq<char>) -> bool {
    path.len() >= 4 && path.subrange(0, 4) == seq!['\\', '\\', '?', '\\']
}

/// Whether `tail` is how `s` ends.
pub open spec fn ends_with(s: Seq<char>, tail: Seq<char>) -> bool {
    tail.len() <= s.len() && s.subrange(s.len() - tail.len(), s.len() as int) == tail
}

/// Relies on `std::path::Path::parent`: the path without its final
/// component (a leading part of it), or `None` when the path ends in a root
/// or a prefix or is empty. What counts as a separator depends on the
/// platform, so nothing more is stated.
#[verifier::external_body]
fn path_parent(path: &str) -> (r: Option<String>)
    ensures
        path@.len() == 0 ==> r is None,
        path@ == seq!['/'] ==> r is None,
        r matches Some(p) ==> p@.len() <= path@.len() && p@ == path@.subrange(0, p@.len() as int),
{
    std::path::Path::new(path).parent().map(|p| p.to_string_lossy().into_owned())
}

/// Relies on `std::path::Path::join` (through `PathBuf::push`): `file`
/// appended to `dir` as a further component, or replacing all or part of it
/// when `file` has a root or a prefix. Unless `dir` has a verbatim prefix,
/// whose joined paths Windows normalizes, the result ends with `file`; the
/// separator depends on the platform.
#[verifier::external_body]
fn path_join(dir: &str, file: &str) -> (r: String)
    ensures
        !is_verbatim(dir@) ==> ends_with(r@, file@),
{
    std::path::Path::new(dir).join(file).to_string_lossy().into_owned()
}

/// The path of `filename` inside the directory that holds the executable at
/// `exe_path`.
///
/// An empty path or the bare root has no such directory. Which other paths
/// have one, and the separator used, depend on the platform; outside verbatim
/// paths the result always ends with `filename`.
pub fn join_exe_dir_with_file(exe_path: &str, filename: &str) -> (r: Result<String, PathError>)
    ensures
        exe_path@.len() == 0 || exe_path@ == seq!['/'] ==> r == Err::<String, PathError>(
            PathError::NoParent,
        ),
        r matches Err(e) ==> e == PathError::NoParent,
        !is_verbatim(exe_path@) ==> (r matches Ok(p) ==> ends_with(p@, filename@)),
{
    match path_parent(exe_path) {
        None => Err(PathError::NoParent),
        Some(dir) => {
            assert(!is_verbatim(exe_path@) ==> !is_verbatim(dir@)) by {
                if is_verbatim(dir@) {
                    assert(dir@.subrange(0, 4) =~= exe_path@.subrange(0, 4));
                }
            }
            Ok(path_join(dir.as_str(), filename))
        },
    }
}

} // verus!
