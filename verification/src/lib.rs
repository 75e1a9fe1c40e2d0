//! The verified core of a Bluetooth host adapter that talks to the Linux HCI layer.

pub mod adapter;
pub mod buffer;
pub mod connected;
pub mod constants;
pub mod device;
pub mod events;
pub mod filter;
pub mod hci;
pub mod peripherals;
pub mod reader;
