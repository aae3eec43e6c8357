//! Text shown beside the actuation values: a bar that grows with the sample,
//! and the level of a max-speed setting.
use vstd::prelude::*;

use crate::config::SCALE;
use crate::signal::round_div;
use vstd::arithmetic::div_mod::{lemma_div_is_ordered, lemma_fundamental_div_mod_converse_div};

verus! {

/// Number of dashes in the bar of `sample`: `floor(sample * 10)`.
pub open spec fn graph_dashes(sample: int) -> int {
    sample * 10 / (SCALE as int)
}

/// A bar for `sample`: `floor(sample * 10)` dashes and a closing `>`.
pub fn proximity_graph(proximity_signal: u32) -> (r: String)
    ensures
        r@ == Seq::new(graph_dashes(proximity_signal as int) as nat, |_i: int| '-') + seq!['>'],
{
    let dashes: u64 = (proximity_signal as u64) * 10 / (SCALE as u64);
    assert(dashes <= 4294967) by {
        lemma_fundamental_div_mod_converse_div(42949672950, 10000, 4294967, 2950);
        lemma_div_is_ordered(
            proximity_signal as int * 10,
            42949672950int,
            10000,
        );
    }
    let n = dashes as usize;
    assert(n == graph_dashes(proximity_signal as int));
    let mut r = String::new();
    let mut i: usize = 0;
    while i < n
        invariant
            i <= n,
            r@ == Seq::new(i as nat, |_i: int| '-'),
        decreases n - i,
    {
        proof {
            reveal_strlit("-");
        }
        assert("-"@ =~= seq!['-']);
        r.append("-");
        i = i + 1;
        assert(r@ =~= Seq::new(i as nat, |_i: int| '-'));
    }
    proof {
        reveal_strlit(">");
    }
    assert(">"@ =~= seq!['>']);
    r.append(">");
    assert(r@ =~= Seq::new(graph_dashes(proximity_signal as int) as nat, |_i: int| '-') + seq![
        '>',
    ]);
    r
}

/// A max speed in whole percent, rounded to the nearest (halves up).
pub fn speed_limit_percent(headpat_max_rx: u32) -> (r: u64)
    ensures
        r == round_div(headpat_max_rx * 100, SCALE as int),
{
    (2 * (headpat_max_rx as u64) * 100 + SCALE as u64) / (2 * SCALE as u64)
}

/// The level marker of a max speed given in percent.
pub open spec fn meter_of(percent: int) -> Seq<char> {
    if percent >= 91 {
        "!!! SO MUCH !!!"@
    } else if percent >= 76 {
        "!! "@
    } else if percent >= 51 {
        "!  "@
    } else {
        "   "@
    }
}

/// The level marker of a max speed given in percent: louder above 50, 75 and
/// 90 percent.
pub fn speed_limit_meter(percent: u64) -> (r: &'static str)
    ensures
        r@ == meter_of(percent as int),
{
    if percent >= 91 {
        "!!! SO MUCH !!!"
    } else if percent >= 76 {
        "!! "
    } else if percent >= 51 {
        "!  "
    } else {
        "   "
    }
}

} // verus!
