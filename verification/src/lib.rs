//! Verified core of a desktop applet that lists Bluetooth game controllers,
//! shows their battery level and lets the user disconnect, rename, remove or
//! re-pair them through BlueZ.
//!
//! The D-Bus traffic, the file reads and the widgets live in the program
//! around this crate; everything that decides what to do with their results
//! lives here, with its contract.
pub mod battery;
pub mod bluez;
pub mod discovery;
pub mod handlers;
pub mod keyed;
pub mod messages;
pub mod model;
pub mod reconnect;
pub mod report;
pub mod text;
pub mod view;
