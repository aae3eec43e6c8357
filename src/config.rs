//! Typed device configuration, with every fraction held in fixed point.
use vstd::prelude::*;

verus! {

/// Number of fixed-point units that make up the fraction `1.0`.
pub const SCALE: u32 = 10000;

/// Static parameters of one haptic device.
///
/// `min_speed`, `max_speed`, `speed_scale`, `outer_proximity`,
/// `inner_proximity` and `velocity_scalar` are fixed-point values in units of
/// `1 / SCALE` (so `SCALE` stands for `1.0`).
pub struct DeviceConfig {
    pub device_uri: String,
    pub min_speed: u32,
    pub max_speed: u32,
    pub start_tx: i32,
    pub speed_scale: u32,
    pub proximity_parameter: String,
    pub max_speed_parameter: String,
    pub use_velocity_control: bool,
    pub outer_proximity: u32,
    pub inner_proximity: u32,
    pub velocity_scalar: u32,
}

impl DeviceConfig {
    /// The speeds and the speed scale are fractions in `[0, 1]` with
    /// `min_speed <= max_speed`.
    pub open spec fn wf(&self) -> bool {
        &&& self.min_speed <= self.max_speed
        &&& self.max_speed <= SCALE
        &&& self.speed_scale <= SCALE
    }
}


/// Lowest max speed that a device may be set to (`0.05`), so that a device
/// always has a nonzero output.
pub const MINIMUM_MAX_SPEED: u32 = 500;

/// Prefix of every avatar parameter address.
pub const PARAMETER_PREFIX: &'static str = "/avatar/parameters/";

/// Process-wide settings, and the defaults of the device settings. Fractions
/// are fixed-point values as in `DeviceConfig`; `timeout` is in seconds.
pub struct GlobalConfig {
    pub port_rx: String,
    pub default_min_speed: u32,
    pub default_max_speed: u32,
    pub default_speed_scale: u32,
    pub default_start_tx: i32,
    pub default_max_speed_parameter: String,
    pub minimum_max_speed: u32,
    pub timeout: u64,
    pub default_use_velocity_control: bool,
    pub default_outer_proximity: u32,
    pub default_inner_proximity: u32,
    pub default_velocity_scalar: u32,
}

impl GlobalConfig {
    /// The defaults make a well-formed device whose max speed is at or above
    /// the floor.
    pub open spec fn wf(&self) -> bool {
        &&& self.default_min_speed <= self.default_max_speed
        &&& self.default_max_speed <= SCALE
        &&& self.default_speed_scale <= SCALE
        &&& self.minimum_max_speed <= self.default_max_speed
    }
}

/// The settings of the process as read from the configuration, each `None`
/// where the key is absent. Fractions are fixed-point values; `port_rx` is
/// already a valid port.
pub struct GlobalSettings {
    pub port_rx: String,
    pub default_min_speed: Option<u32>,
    pub default_max_speed: Option<u32>,
    pub default_speed_scale: Option<u32>,
    pub default_start_tx: Option<i32>,
    pub default_max_speed_parameter: Option<String>,
    pub timeout: Option<u64>,
    pub default_use_velocity_control: Option<bool>,
    pub default_outer_proximity: Option<u32>,
    pub default_inner_proximity: Option<u32>,
    pub default_velocity_scalar: Option<u32>,
}

/// The settings of one device as read from the configuration, each `None`
/// where the key is absent. Fractions are fixed-point values; parameter names
/// are given without the avatar parameter prefix.
pub struct DeviceSettings {
    pub ip: Option<String>,
    pub proximity_parameter: Option<String>,
    pub min_speed: Option<u32>,
    pub max_speed: Option<u32>,
    pub start_tx: Option<i32>,
    pub speed_scale: Option<u32>,
    pub max_speed_parameter: Option<String>,
    pub use_velocity_control: Option<bool>,
    pub outer_proximity: Option<u32>,
    pub inner_proximity: Option<u32>,
    pub velocity_scalar: Option<u32>,
}

/// Why a device's settings were rejected.
#[derive(Clone, Copy, PartialEq, Eq, Structural, Debug)]
pub enum ConfigError {
    MissingIp,
    MissingProximityParameter,
}

/// `v`, capped at `1.0`.
pub open spec fn cap_fraction(v: u32) -> u32 {
    if v > SCALE {
        SCALE
    } else {
        v
    }
}

/// The larger of two values.
pub open spec fn max_u32(a: u32, b: u32) -> u32 {
    if a >= b {
        a
    } else {
        b
    }
}

/// The value of an optional setting, or its default.
pub open spec fn or_default<T>(v: Option<T>, d: T) -> T {
    match v {
        Some(x) => x,
        None => d,
    }
}

/// The full address of an avatar parameter.
pub open spec fn parameter_address(name: Seq<char>) -> Seq<char> {
    PARAMETER_PREFIX@ + name
}

fn cap(v: u32) -> (r: u32)
    ensures
        r == cap_fraction(v),
{
    if v > SCALE {
        SCALE
    } else {
        v
    }
}

fn larger(a: u32, b: u32) -> (r: u32)
    ensures
        r == max_u32(a, b),
{
    if a >= b {
        a
    } else {
        b
    }
}

/// The full address of the avatar parameter `name`.
pub fn parameter_path(name: &str) -> (r: String)
    ensures
        r@ == parameter_address(name@),
{
    String::from_str(PARAMETER_PREFIX).concat(name)
}

/// Resolves the process settings: absent keys take their defaults (min speed
/// `0.05`, max speed `0.25`, speed scale `1.0`, start kick 20, max-speed
/// parameter `max_speed`, timeout 5 s, direct mode, band `(0, 0.7)`, velocity
/// scalar 20); fractions are capped at `1.0`, and the default max speed is
/// raised to the default min speed and to `MINIMUM_MAX_SPEED`.
pub fn parse_global_config(setup: GlobalSettings) -> (r: GlobalConfig)
    ensures
        r.wf(),
        r.port_rx@ == setup.port_rx@,
        r.minimum_max_speed == MINIMUM_MAX_SPEED,
        r.default_min_speed == cap_fraction(or_default(setup.default_min_speed, 500)),
        r.default_max_speed == max_u32(
            max_u32(cap_fraction(or_default(setup.default_max_speed, 2500)), r.default_min_speed),
            MINIMUM_MAX_SPEED,
        ),
        r.default_speed_scale == cap_fraction(or_default(setup.default_speed_scale, SCALE)),
        r.default_start_tx == or_default(setup.default_start_tx, 20),
        r.default_max_speed_parameter@ == parameter_address(
            match setup.default_max_speed_parameter {
                Some(p) => p@,
                None => "max_speed"@,
            },
        ),
        r.timeout == or_default(setup.timeout, 5),
        r.default_use_velocity_control == or_default(setup.default_use_velocity_control, false),
        r.default_outer_proximity == or_default(setup.default_outer_proximity, 0),
        r.default_inner_proximity == or_default(setup.default_inner_proximity, 7000),
        r.default_velocity_scalar == or_default(setup.default_velocity_scalar, 200000),
{
    let default_min_speed = cap(
        match setup.default_min_speed {
            Some(v) => v,
            None => 500,
        },
    );
    let default_max_speed = larger(
        larger(
            cap(
                match setup.default_max_speed {
                    Some(v) => v,
                    None => 2500,
                },
            ),
            default_min_speed,
        ),
        MINIMUM_MAX_SPEED,
    );
    let default_max_speed_parameter = match setup.default_max_speed_parameter {
        Some(p) => parameter_path(p.as_str()),
        None => parameter_path("max_speed"),
    };
    GlobalConfig {
        port_rx: setup.port_rx,
        default_min_speed,
        default_max_speed,
        default_speed_scale: cap(
            match setup.default_speed_scale {
                Some(v) => v,
                None => SCALE,
            },
        ),
        default_start_tx: match setup.default_start_tx {
            Some(v) => v,
            None => 20,
        },
        default_max_speed_parameter,
        minimum_max_speed: MINIMUM_MAX_SPEED,
        timeout: match setup.timeout {
            Some(v) => v,
            None => 5,
        },
        default_use_velocity_control: match setup.default_use_velocity_control {
            Some(v) => v,
            None => false,
        },
        default_outer_proximity: match setup.default_outer_proximity {
            Some(v) => v,
            None => 0,
        },
        default_inner_proximity: match setup.default_inner_proximity {
            Some(v) => v,
            None => 7000,
        },
        default_velocity_scalar: match setup.default_velocity_scalar {
            Some(v) => v,
            None => 200000,
        },
    }
}

/// Resolves one device's settings against the process defaults.
///
/// The address and the proximity parameter are required. A given min speed or
/// speed scale is capped at `1.0`; the max speed (given or default) is capped
/// at `1.0` and raised to the min speed, and a given one also to the process
/// floor. Parameter names get the avatar parameter prefix.
pub fn parse_device_config(device_data: DeviceSettings, global_config: &GlobalConfig) -> (r: Result<
    DeviceConfig,
    ConfigError,
>)
    requires
        global_config.wf(),
    ensures
        device_data.ip.is_none() ==> r == Err::<DeviceConfig, ConfigError>(ConfigError::MissingIp),
        device_data.ip.is_some() && device_data.proximity_parameter.is_none() ==> r == Err::<
            DeviceConfig,
            ConfigError,
        >(ConfigError::MissingProximityParameter),
        device_data.ip.is_some() && device_data.proximity_parameter.is_some() ==> r is Ok,
        r matches Ok(d) ==> {
            &&& d.wf()
            &&& d.max_speed >= global_config.minimum_max_speed
            &&& d.device_uri@ == device_data.ip.unwrap()@
            &&& d.proximity_parameter@ == parameter_address(
                device_data.proximity_parameter.unwrap()@,
            )
            &&& d.min_speed == cap_fraction(
                or_default(device_data.min_speed, global_config.default_min_speed),
            )
            &&& d.max_speed == max_u32(
                match device_data.max_speed {
                    Some(v) => max_u32(cap_fraction(v), global_config.minimum_max_speed),
                    None => cap_fraction(global_config.default_max_speed),
                },
                d.min_speed,
            )
            &&& d.start_tx == or_default(device_data.start_tx, global_config.default_start_tx)
            &&& d.speed_scale == cap_fraction(
                or_default(device_data.speed_scale, global_config.default_speed_scale),
            )
            &&& d.max_speed_parameter@ == match device_data.max_speed_parameter {
                Some(p) => parameter_address(p@),
                None => global_config.default_max_speed_parameter@,
            }
            &&& d.use_velocity_control == or_default(
                device_data.use_velocity_control,
                global_config.default_use_velocity_control,
            )
            &&& d.outer_proximity == or_default(
                device_data.outer_proximity,
                global_config.default_outer_proximity,
            )
            &&& d.inner_proximity == or_default(
                device_data.inner_proximity,
                global_config.default_inner_proximity,
            )
            &&& d.velocity_scalar == or_default(
                device_data.velocity_scalar,
                global_config.default_velocity_scalar,
            )
        },
{
    let ip = match device_data.ip {
        Some(ip) => ip,
        None => return Err(ConfigError::MissingIp),
    };
    let proximity_parameter = match device_data.proximity_parameter {
        Some(p) => parameter_path(p.as_str()),
        None => return Err(ConfigError::MissingProximityParameter),
    };
    let min_speed = cap(
        match device_data.min_speed {
            Some(v) => v,
            None => global_config.default_min_speed,
        },
    );
    let chosen_max = match device_data.max_speed {
        Some(v) => larger(cap(v), global_config.minimum_max_speed),
        None => cap(global_config.default_max_speed),
    };
    let max_speed = larger(chosen_max, min_speed);
    let max_speed_parameter = match device_data.max_speed_parameter {
        Some(p) => parameter_path(p.as_str()),
        None => global_config.default_max_speed_parameter.clone(),
    };
    Ok(
        DeviceConfig {
            device_uri: ip,
            min_speed,
            max_speed,
            start_tx: match device_data.start_tx {
                Some(v) => v,
                None => global_config.default_start_tx,
            },
            speed_scale: cap(
                match device_data.speed_scale {
                    Some(v) => v,
                    None => global_config.default_speed_scale,
                },
            ),
            proximity_parameter,
            max_speed_parameter,
            use_velocity_control: match device_data.use_velocity_control {
                Some(v) => v,
                None => global_config.default_use_velocity_control,
            },
            outer_proximity: match device_data.outer_proximity {
                Some(v) => v,
                None => global_config.default_outer_proximity,
            },
            inner_proximity: match device_data.inner_proximity {
                Some(v) => v,
                None => global_config.default_inner_proximity,
            },
            velocity_scalar: match device_data.velocity_scalar {
                Some(v) => v,
                None => global_config.default_velocity_scalar,
            },
        },
    )
}

} // verus!
