//! Device drivers: the software-defined radio and USB device descriptions.

pub mod sdr;
pub mod usb;
