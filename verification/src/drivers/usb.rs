//! USB device descriptions and the controller interface.

use vstd::prelude::*;

verus! {

/// The identity of a USB device.
#[derive(Debug, Clone, Copy)]
pub struct UsbDevice {
    pub vendor_id: u16,
    pub product_id: u16,
    pub device_class: u8,
    pub device_subclass: u8,
    pub protocol: u8,
    pub max_packet_size: u8,
    pub manufacturer: u8,
    pub product: u8,
    pub serial_number: u8,
}

/// A USB host controller.
pub trait UsbController {
    fn init(&mut self) -> Result<(), &'static str>;

    fn enumerate_devices(&mut self) -> Result<Vec<UsbDevice>, &'static str>;

    fn read(&mut self, device_id: u8, endpoint: u8, buffer: &mut [u8]) -> Result<usize, &'static str>;

    fn write(&mut self, device_id: u8, endpoint: u8, data: &[u8]) -> Result<(), &'static str>;
}

/// Brings up USB: no controller is ever found, so it fails.
pub fn init() -> (r: Result<(), &'static str>)
    ensures
        r matches Err(m) && m@ == "No USB controllers found"@,
{
    let controllers: Vec<u16> = Vec::new();
    if controllers.len() == 0 {
        return Err("No USB controllers found");
    }
    Ok(())
}

} // verus!
