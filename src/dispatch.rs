//! Matching inbound message addresses against the configured devices, and the
//! max-speed override that such a message can carry.
use vstd::prelude::*;

use crate::config::{DeviceConfig, SCALE};

verus! {

/// What an inbound message means for one device, by its position in the
/// device list.
#[derive(Clone, Copy, PartialEq, Eq, Structural, Debug)]
pub enum Route {
    /// The message carries a new max speed for the device.
    MaxSpeed(usize),
    /// The message carries a proximity sample for the device.
    Proximity(usize),
}

/// The route of an address for the device at `i`: its max-speed parameter
/// takes precedence over its proximity parameter.
pub open spec fn route_of(d: DeviceConfig, i: int, address: Seq<char>) -> Option<Route> {
    if address == d.max_speed_parameter@ {
        Some(Route::MaxSpeed(i as usize))
    } else if address == d.proximity_parameter@ {
        Some(Route::Proximity(i as usize))
    } else {
        None
    }
}

/// The routes of an address over the first `n` devices, in device order.
pub open spec fn routes_upto(ds: Seq<DeviceConfig>, address: Seq<char>, n: int) -> Seq<Route>
    decreases n,
{
    if n <= 0 {
        Seq::empty()
    } else {
        let before = routes_upto(ds, address, n - 1);
        match route_of(ds[n - 1], n - 1, address) {
            Some(r) => before.push(r),
            None => before,
        }
    }
}

/// The max speed after an override to `value`: at most `1.0`, and at least
/// both `floor` and the device's min speed, so that the device keeps a
/// nonzero range.
pub open spec fn overridden_max_speed(value: u32, floor: u32, min_speed: u32) -> u32 {
    let capped = if value > SCALE {
        SCALE
    } else {
        value
    };
    let floored = if capped < floor {
        floor
    } else {
        capped
    };
    if floored < min_speed {
        min_speed
    } else {
        floored
    }
}

/// Every device that `address` concerns, with what it means for it, in device
/// order. A device whose max-speed and proximity parameters coincide is routed
/// as a max-speed update.
pub fn route_message(devices: &Vec<DeviceConfig>, address: &str) -> (r: Vec<Route>)
    ensures
        r@ == routes_upto(devices@, address@, devices@.len() as int),
{
    let needle = String::from_str(address);
    let mut r: Vec<Route> = Vec::new();
    let mut i: usize = 0;
    while i < devices.len()
        invariant
            i <= devices@.len(),
            needle@ == address@,
            r@ == routes_upto(devices@, address@, i as int),
        decreases devices.len() - i,
    {
        let d = &devices[i];
        if d.max_speed_parameter.eq(&needle) {
            r.push(Route::MaxSpeed(i));
        } else if d.proximity_parameter.eq(&needle) {
            r.push(Route::Proximity(i));
        }
        i = i + 1;
    }
    r
}

/// Overrides a device's max speed with `value`, capped at `1.0` and floored at
/// `floor` and at the device's min speed; nothing else changes.
pub fn apply_max_speed(device: &mut DeviceConfig, value: u32, floor: u32)
    requires
        old(device).wf(),
        floor <= SCALE,
    ensures
        final(device).wf(),
        *final(device) == (DeviceConfig {
            max_speed: overridden_max_speed(value, floor, old(device).min_speed),
            ..*old(device)
        }),
{
    let capped = if value > SCALE {
        SCALE
    } else {
        value
    };
    let floored = if capped < floor {
        floor
    } else {
        capped
    };
    device.max_speed = if floored < device.min_speed {
        device.min_speed
    } else {
        floored
    };
}

} // verus!
