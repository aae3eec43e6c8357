use giggletech_router::address::{join_exe_dir_with_file, PathError};
use giggletech_router::config::DeviceConfig;
use giggletech_router::runtime::DeviceRuntime;

fn device(use_velocity_control: bool) -> DeviceConfig {
    DeviceConfig {
        device_uri: "192.168.1.50".to_string(),
        min_speed: 1000,
        max_speed: 10000,
        start_tx: 30,
        speed_scale: 10000,
        proximity_parameter: "/avatar/parameters/proximity_01".to_string(),
        max_speed_parameter: "/avatar/parameters/max_speed".to_string(),
        use_velocity_control,
        outer_proximity: 0,
        inner_proximity: 7000,
        velocity_scalar: 200000,
    }
}

#[test]
fn zero_sample_sends_burst_and_starts_worker() {
    let cfg = device(false);
    let mut rt = DeviceRuntime::new();
    rt.handle_proximity_parameter(5000, &cfg, 0);
    let out = rt.handle_proximity_parameter(0, &cfg, 1000);
    assert_eq!(out.sends, vec![0, 0, 0, 0, 0]);
    let generation = out.spawn_worker.expect("worker must start");
    assert!(rt.stop_worker_active);
    assert_eq!(rt.last_signal_time, Some(1000));
    assert_eq!(rt.last_value, 0);
    // The worker keeps sending once per tick until a nonzero sample arrives.
    assert!(rt.worker_should_send(generation));
    assert!(rt.worker_should_send(generation));
    let next = rt.handle_proximity_parameter(5000, &cfg, 2000);
    assert_eq!(next.spawn_worker, None);
    assert_eq!(next.sends.len(), 1);
    assert!(!rt.worker_should_send(generation));
}

#[test]
fn second_zero_sample_starts_no_second_worker() {
    let cfg = device(false);
    let mut rt = DeviceRuntime::new();
    let first = rt.handle_proximity_parameter(0, &cfg, 100);
    let second = rt.handle_proximity_parameter(0, &cfg, 200);
    let generation = first.spawn_worker.expect("first zero starts a worker");
    assert_eq!(second.spawn_worker, None);
    assert_eq!(second.sends, vec![0, 0, 0, 0, 0]);
    assert!(rt.worker_should_send(generation));
    // A run of zero samples, one per second, starts exactly one worker, and
    // that worker stays the one that sends.
    let mut spawned = 1;
    let mut worker_sends = 0;
    for second in 1..=10u64 {
        let out = rt.handle_proximity_parameter(0, &cfg, 200 + second * 1000);
        if out.spawn_worker.is_some() {
            spawned += 1;
        }
        if rt.worker_should_send(generation) {
            worker_sends += 1;
        }
    }
    assert_eq!(spawned, 1);
    assert_eq!(worker_sends, 10);
    assert!(!rt.worker_should_send(generation.wrapping_add(1)));
}

#[test]
fn restarted_worker_retires_the_old_one() {
    let cfg = device(false);
    let mut rt = DeviceRuntime::new();
    let first = rt.handle_proximity_parameter(0, &cfg, 100).spawn_worker.unwrap();
    rt.handle_proximity_parameter(4000, &cfg, 200);
    let second = rt.handle_proximity_parameter(0, &cfg, 300).spawn_worker.unwrap();
    assert_ne!(first, second);
    assert!(!rt.worker_should_send(first));
    assert!(rt.worker_should_send(second));
}

#[test]
fn nonzero_sample_uses_previous_value_for_kick() {
    let cfg = device(false);
    let mut rt = DeviceRuntime::new();
    let out = rt.handle_proximity_parameter(500, &cfg, 0);
    assert_eq!(out.sends, vec![30]);
    let out = rt.handle_proximity_parameter(500, &cfg, 100);
    assert_eq!(out.sends, vec![24]);
}

#[test]
fn velocity_mode_uses_time_since_previous_sample() {
    let cfg = device(true);
    let mut rt = DeviceRuntime::new();
    let out = rt.handle_proximity_parameter(2000, &cfg, 0);
    assert_eq!(out.sends, vec![0]);
    let out = rt.handle_proximity_parameter(3000, &cfg, 100);
    assert_eq!(out.sends, vec![255]);
}

#[test]
fn watchdog_fires_twice_in_twelve_silent_seconds() {
    let cfg = device(false);
    let mut rt = DeviceRuntime::new();
    rt.handle_proximity_parameter(5000, &cfg, 0);
    let mut fired = Vec::new();
    for second in 1..=12u64 {
        let now = second * 1000;
        if rt.watchdog_tick(now, 5) {
            fired.push(now);
        }
    }
    assert_eq!(fired, vec![5000, 10000]);
}

#[test]
fn watchdog_quiet_for_unseen_device() {
    let mut rt = DeviceRuntime::new();
    for second in 1..=20u64 {
        assert!(!rt.watchdog_tick(second * 1000, 5));
    }
    assert_eq!(rt.last_signal_time, None);
}

#[test]
fn watchdog_restarts_window_on_sample() {
    let cfg = device(false);
    let mut rt = DeviceRuntime::new();
    rt.handle_proximity_parameter(5000, &cfg, 0);
    assert!(!rt.watchdog_tick(4000, 5));
    rt.handle_proximity_parameter(6000, &cfg, 4500);
    assert!(!rt.watchdog_tick(9000, 5));
    assert!(rt.watchdog_tick(9500, 5));
    assert_eq!(rt.last_signal_time, Some(9500));
}

#[test]
fn watchdog_fires_twice_with_offset_checks() {
    let cfg = device(false);
    let mut rt = DeviceRuntime::new();
    rt.handle_proximity_parameter(5000, &cfg, 0);
    let mut fired = Vec::new();
    let mut now = 1300u64;
    while now <= 12000 {
        if rt.watchdog_tick(now, 5) {
            fired.push(now);
        }
        now += 1000;
    }
    assert_eq!(fired, vec![5300, 10300]);
}

#[test]
fn exe_path_without_parent_is_rejected() {
    assert_eq!(join_exe_dir_with_file("", "output.log"), Err(PathError::NoParent));
}
