//! The core of OxideLink, which brings a Nintendo Switch Pro Controller to the
//! PC: everything that is decided or computed, without the devices, sockets,
//! files and windows around it.
//!
//! What comes in from outside are plain values: the bytes of a report or of a
//! packet, a name, a time in milliseconds. What goes out are plain values too:
//! new states, bytes to write, events to tell of, steps to take. Floating-point
//! numbers are carried as their bits, see [`numeric`].
//!
//! * Reports: [`hid_parser`], [`subcmd`], [`device_loop`], [`reports`],
//!   [`schedule`], [`slots`], [`state`], [`validation`].
//! * Sticks and motion: [`curves`], [`imu`], [`gyro_mouse`], [`flick_stick`].
//! * Outputs: [`kbm`], [`mappings`], [`dsu`].
//! * Around it: [`config`], [`cloud`], [`crash`], [`hidhide`],
//!   [`bt_reconnect`], [`bthusb_monitor`].
//! * Groundwork: [`text`], [`clock`].
use vstd::prelude::*;

pub mod bt_reconnect;
pub mod bthusb_monitor;
pub mod clock;
pub mod cloud;
pub mod config;
pub mod crash;
pub mod curves;
pub mod device_loop;
pub mod dsu;
pub mod flick_stick;
pub mod gyro_mouse;
pub mod hid_parser;
pub mod hidhide;
pub mod imu;
pub mod kbm;
pub mod mappings;
pub mod numeric;
pub mod reports;
pub mod schedule;
pub mod slots;
pub mod state;
pub mod subcmd;
pub mod text;
pub mod validation;

verus! {

}
