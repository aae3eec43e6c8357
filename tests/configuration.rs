use giggletech_router::config::{
    parse_device_config, parse_global_config, ConfigError, DeviceSettings, GlobalSettings,
    MINIMUM_MAX_SPEED,
};

fn empty_global() -> GlobalSettings {
    GlobalSettings {
        port_rx: "9001".to_string(),
        default_min_speed: None,
        default_max_speed: None,
        default_speed_scale: None,
        default_start_tx: None,
        default_max_speed_parameter: None,
        timeout: None,
        default_use_velocity_control: None,
        default_outer_proximity: None,
        default_inner_proximity: None,
        default_velocity_scalar: None,
    }
}

fn settings(ip: Option<&str>, prox: Option<&str>) -> DeviceSettings {
    DeviceSettings {
        ip: ip.map(|s| s.to_string()),
        proximity_parameter: prox.map(|s| s.to_string()),
        min_speed: None,
        max_speed: None,
        start_tx: None,
        speed_scale: None,
        max_speed_parameter: None,
        use_velocity_control: None,
        outer_proximity: None,
        inner_proximity: None,
        velocity_scalar: None,
    }
}

#[test]
fn global_defaults() {
    let g = parse_global_config(empty_global());
    assert_eq!(g.port_rx, "9001");
    assert_eq!(g.default_min_speed, 500);
    assert_eq!(g.default_max_speed, 2500);
    assert_eq!(g.default_speed_scale, 10000);
    assert_eq!(g.default_start_tx, 20);
    assert_eq!(g.default_max_speed_parameter, "/avatar/parameters/max_speed");
    assert_eq!(g.minimum_max_speed, MINIMUM_MAX_SPEED);
    assert_eq!(g.timeout, 5);
    assert!(!g.default_use_velocity_control);
    assert_eq!(g.default_outer_proximity, 0);
    assert_eq!(g.default_inner_proximity, 7000);
    assert_eq!(g.default_velocity_scalar, 200000);
}

#[test]
fn global_max_speed_is_floored() {
    let mut s = empty_global();
    s.default_min_speed = Some(3000);
    s.default_max_speed = Some(1000);
    assert_eq!(parse_global_config(s).default_max_speed, 3000);
    let mut s = empty_global();
    s.default_min_speed = Some(0);
    s.default_max_speed = Some(100);
    assert_eq!(parse_global_config(s).default_max_speed, 500);
}

#[test]
fn device_requires_ip_and_parameter() {
    let g = parse_global_config(empty_global());
    assert_eq!(parse_device_config(settings(None, Some("p")), &g).err(), Some(ConfigError::MissingIp));
    assert_eq!(
        parse_device_config(settings(Some("10.0.0.2"), None), &g).err(),
        Some(ConfigError::MissingProximityParameter)
    );
}

#[test]
fn device_takes_defaults_and_prefixes() {
    let g = parse_global_config(empty_global());
    let d = parse_device_config(settings(Some("10.0.0.2"), Some("headpat")), &g).unwrap();
    assert_eq!(d.device_uri, "10.0.0.2");
    assert_eq!(d.proximity_parameter, "/avatar/parameters/headpat");
    assert_eq!(d.max_speed_parameter, "/avatar/parameters/max_speed");
    assert_eq!(d.min_speed, 500);
    assert_eq!(d.max_speed, 2500);
    assert_eq!(d.start_tx, 20);
    assert_eq!(d.speed_scale, 10000);
}

#[test]
fn device_max_speed_is_floored() {
    let g = parse_global_config(empty_global());
    let mut s = settings(Some("10.0.0.2"), Some("headpat"));
    s.min_speed = Some(1000);
    s.max_speed = Some(200);
    s.max_speed_parameter = Some("limit".to_string());
    let d = parse_device_config(s, &g).unwrap();
    assert_eq!(d.max_speed, 1000);
    assert_eq!(d.max_speed_parameter, "/avatar/parameters/limit");
    let mut s = settings(Some("10.0.0.2"), Some("headpat"));
    s.min_speed = Some(0);
    s.max_speed = Some(200);
    assert_eq!(parse_device_config(s, &g).unwrap().max_speed, 500);
}
