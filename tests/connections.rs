use giggletech_router::address::{create_socket_address, join_exe_dir_with_file, PathError};
use giggletech_router::dispatch::{apply_max_speed, route_message, Route};
use giggletech_router::config::DeviceConfig;
use giggletech_router::registry::{success_rate_permille, ConnectionManager, SendError, SendOutcome};

fn device(ip: &str, prox: &str, max: &str) -> DeviceConfig {
    DeviceConfig {
        device_uri: ip.to_string(),
        min_speed: 500,
        max_speed: 2500,
        start_tx: 20,
        speed_scale: 10000,
        proximity_parameter: prox.to_string(),
        max_speed_parameter: max.to_string(),
        use_velocity_control: false,
        outer_proximity: 0,
        inner_proximity: 7000,
        velocity_scalar: 200000,
    }
}

#[test]
fn registry_counts_attempts() {
    let mut m = ConnectionManager::new();
    m.update_connection_info("10.0.0.2", true, 1000);
    m.update_connection_info("10.0.0.2", false, 2000);
    m.update_connection_info("10.0.0.3", true, 3000);
    m.update_connection_info("10.0.0.2", true, 4000);
    let stats = m.get_stats();
    assert_eq!(stats.len(), 2);
    assert_eq!(stats[0], ("10.0.0.2".to_string(), (3, 2, 1)));
    assert_eq!(stats[1], ("10.0.0.3".to_string(), (1, 1, 0)));
}

#[test]
fn registry_reports_outcomes() {
    let mut m = ConnectionManager::new();
    assert_eq!(m.record_send("10.0.0.2", SendOutcome::Delivered, 0), Ok(()));
    assert_eq!(m.record_send("10.0.0.2", SendOutcome::TimedOut, 10), Err(SendError::Timeout));
    assert_eq!(
        m.record_send("10.0.0.2", SendOutcome::TransportFailed, 20),
        Err(SendError::Transport)
    );
    assert_eq!(m.get_stats()[0].1, (3, 1, 2));
}

#[test]
fn registry_sweep_evicts_stale_entries() {
    let mut m = ConnectionManager::new();
    m.update_connection_info("a", true, 0);
    m.update_connection_info("b", true, 100_000);
    m.update_connection_info("c", true, 250_000);
    assert_eq!(m.cleanup_old_connections(350_000), 1);
    let stats = m.get_stats();
    assert_eq!(stats.len(), 2);
    assert_eq!(stats[0].0, "b");
    assert_eq!(stats[1].0, "c");
    assert_eq!(m.cleanup_old_connections(400_000), 1);
    assert_eq!(m.len(), 1);
    assert_eq!(m.cleanup_old_connections(400_001), 0);
}

#[test]
fn success_rate_rounds_to_tenths_of_percent() {
    assert_eq!(success_rate_permille(0, 0), 0);
    assert_eq!(success_rate_permille(3, 2), 667);
    assert_eq!(success_rate_permille(8, 8), 1000);
}

#[test]
fn socket_address_joins_host_and_port() {
    assert_eq!(create_socket_address("127.0.0.1", "9001"), "127.0.0.1:9001");
    assert_eq!(create_socket_address("", "8888"), ":8888");
}

#[test]
fn exe_relative_path() {
    let p = join_exe_dir_with_file("/opt/router/giggletech", "output.log").unwrap();
    assert_eq!(p, "/opt/router/output.log");
    assert_eq!(join_exe_dir_with_file("/", "output.log"), Err(PathError::NoParent));
}

#[test]
fn routes_follow_device_parameters() {
    let devices = vec![
        device("10.0.0.2", "/avatar/parameters/a", "/avatar/parameters/max_speed"),
        device("10.0.0.3", "/avatar/parameters/b", "/avatar/parameters/max_speed"),
        device("10.0.0.4", "/avatar/parameters/a", "/avatar/parameters/max_b"),
    ];
    assert_eq!(
        route_message(&devices, "/avatar/parameters/a"),
        vec![Route::Proximity(0), Route::Proximity(2)]
    );
    assert_eq!(
        route_message(&devices, "/avatar/parameters/max_speed"),
        vec![Route::MaxSpeed(0), Route::MaxSpeed(1)]
    );
    assert_eq!(route_message(&devices, "/avatar/change"), vec![]);
}

#[test]
fn max_speed_override_is_floored() {
    let mut d = device("10.0.0.2", "/a", "/m");
    apply_max_speed(&mut d, 8000, 500);
    assert_eq!(d.max_speed, 8000);
    apply_max_speed(&mut d, 100, 500);
    assert_eq!(d.max_speed, 500);
    d.min_speed = 1500;
    apply_max_speed(&mut d, 100, 500);
    assert_eq!(d.max_speed, 1500);
    apply_max_speed(&mut d, 20000, 500);
    assert_eq!(d.max_speed, 10000);
}
