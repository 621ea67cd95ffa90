//! Verified core of a two-fan controller for hwmon/sysfs hardware: the
//! configuration model and its validation, the per-fan control decisions,
//! the interpretation of sysfs files, and the routing of static assets.

pub mod binary64;
pub mod config;
pub mod control;
pub mod hwmon;
pub mod sort;
pub mod text;
pub mod web;
