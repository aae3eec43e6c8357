//! Signal routing and actuation engine for proximity-driven haptic devices.
//!
//! Proximity samples arrive as fixed-point fractions (see [`config::SCALE`])
//! and are turned into actuator intensities ([`signal`]); each device keeps a
//! small state machine that decides when a stop worker runs and when the
//! timeout watchdog forces a stop ([`runtime`]); inbound addresses are matched
//! against the configured devices ([`dispatch`]); and every delivery attempt is
//! counted in a registry that evicts quiet devices ([`registry`]).
use vstd::prelude::*;

pub mod address;
pub mod config;
pub mod dispatch;
pub mod display;
pub mod registry;
pub mod runtime;
pub mod signal;
