//! Software-defined radio: I/Q samples and the RTL-SDR receiver.

use vstd::prelude::*;
use crate::drivers::usb::UsbDevice;

verus! {

/// A radio receiver.
pub trait SdrDevice {
    fn init(&mut self) -> Result<(), &'static str>;

    fn tune(&mut self, freq_hz: u32) -> Result<(), &'static str>;

    fn set_sample_rate(&mut self, rate: u32) -> Result<(), &'static str>;

    fn read_samples(&mut self, buffer: &mut [u8]) -> Result<usize, &'static str>;

    fn get_frequency(&self) -> u32;

    fn get_sample_rate(&self) -> u32;
}

/// A complex baseband sample.
#[derive(Debug, Clone, Copy)]
pub struct IqSample {
    pub i: i16,
    pub q: i16,
}

impl IqSample {
    pub fn new(i: i16, q: i16) -> (s: Self)
        ensures
            s.i == i && s.q == q,
    {
        IqSample { i, q }
    }

    /// A sample from the receiver's unsigned bytes (127 is zero).
    pub fn from_u8(i: u8, q: u8) -> (s: Self)
        ensures
            s.i == i - 127 && s.q == q - 127,
    {
        IqSample { i: (i as i16) - 127, q: (q as i16) - 127 }
    }
}

/// Brings up the radio subsystem (nothing to find yet).
pub fn init() -> (r: Result<(), &'static str>)
    ensures
        r is Ok,
{
    Ok(())
}

/// Realtek's USB vendor identifier.
pub const REALTEK_VENDOR: u16 = 0x0bda;
/// Tuning range in hertz.
pub const MIN_FREQ_HZ: u32 = 24_000_000;
pub const MAX_FREQ_HZ: u32 = 1_766_000_000;
/// Sample-rate range in samples per second.
pub const MIN_RATE: u32 = 225_000;
pub const MAX_RATE: u32 = 3_200_000;

/// `lo <= x <= hi`.
pub open spec fn in_range(x: u32, lo: u32, hi: u32) -> bool {
    lo <= x <= hi
}

/// An RTL2832U receiver.
pub struct RtlSdr {
    pub usb_device: Option<UsbDevice>,
    pub frequency: u32,
    pub sample_rate: u32,
    pub gain: u8,
}

impl RtlSdr {
    /// Unattached, at 100 MHz and 2.048 MS/s with automatic gain.
    pub fn new() -> (r: Self)
        ensures
            r.usb_device is None && r.frequency == 100_000_000 && r.sample_rate == 2_048_000 && r.gain == 0,
    {
        RtlSdr { usb_device: None, frequency: 100_000_000, sample_rate: 2_048_000, gain: 0 }
    }

    /// Attaches a USB device; only Realtek devices are accepted.
    pub fn attach(&mut self, device: UsbDevice) -> (r: Result<(), &'static str>)
        ensures
            device.vendor_id != REALTEK_VENDOR ==> (r matches Err(m) && m@ == "Not an RTL-SDR device"@)
                && final(self).usb_device == old(self).usb_device,
            device.vendor_id == REALTEK_VENDOR ==> r is Ok && final(self).usb_device == Some(device),
            final(self).frequency == old(self).frequency && final(self).sample_rate == old(self).sample_rate,
    {
        if device.vendor_id != REALTEK_VENDOR {
            return Err("Not an RTL-SDR device");
        }
        self.usb_device = Some(device);
        Ok(())
    }

    /// Local oscillator, reference and intermediate frequencies for `freq`
    /// (28.8 MHz crystal, 3.57 MHz IF).
    fn freq_to_regs(&self, freq: u32) -> (r: (u32, u32, u32))
        requires
            freq <= MAX_FREQ_HZ,
        ensures
            r == ((freq + 3_570_000) as u32, 28_800_000u32, 3_570_000u32),
    {
        (freq + 3_570_000, 28_800_000, 3_570_000)
    }
}

impl SdrDevice for RtlSdr {
    /// Needs an attached device; sets the sample rate and frequency held.
    fn init(&mut self) -> (r: Result<(), &'static str>)
        ensures
            old(self).usb_device is None ==> (r matches Err(m) && m@ == "No USB device attached"@),
            old(self).usb_device is Some ==> (r is Ok <==> in_range(old(self).sample_rate, MIN_RATE, MAX_RATE)
                && in_range(old(self).frequency, MIN_FREQ_HZ, MAX_FREQ_HZ)),
            final(self).frequency == old(self).frequency && final(self).sample_rate == old(self).sample_rate,
    {
        if self.usb_device.is_none() {
            return Err("No USB device attached");
        }
        let rate = self.sample_rate;
        self.set_sample_rate(rate)?;
        let freq = self.frequency;
        self.tune(freq)
    }

    /// Tunes to `freq_hz` (24 MHz to 1.766 GHz).
    fn tune(&mut self, freq_hz: u32) -> (r: Result<(), &'static str>)
        ensures
            !in_range(freq_hz, MIN_FREQ_HZ, MAX_FREQ_HZ) ==> (r matches Err(m) && m@ == "Frequency out of range"@)
                && final(self).frequency == old(self).frequency,
            in_range(freq_hz, MIN_FREQ_HZ, MAX_FREQ_HZ) ==> r is Ok && final(self).frequency == freq_hz,
            final(self).sample_rate == old(self).sample_rate && final(self).usb_device == old(self).usb_device,
    {
        if freq_hz < MIN_FREQ_HZ || freq_hz > MAX_FREQ_HZ {
            return Err("Frequency out of range");
        }
        let _regs = self.freq_to_regs(freq_hz);
        self.frequency = freq_hz;
        Ok(())
    }

    /// Sets the sample rate (225 kS/s to 3.2 MS/s).
    fn set_sample_rate(&mut self, rate: u32) -> (r: Result<(), &'static str>)
        ensures
            !in_range(rate, MIN_RATE, MAX_RATE) ==> (r matches Err(m) && m@ == "Sample rate out of range"@)
                && final(self).sample_rate == old(self).sample_rate,
            in_range(rate, MIN_RATE, MAX_RATE) ==> r is Ok && final(self).sample_rate == rate,
            final(self).frequency == old(self).frequency && final(self).usb_device == old(self).usb_device,
    {
        if rate < MIN_RATE || rate > MAX_RATE {
            return Err("Sample rate out of range");
        }
        self.sample_rate = rate;
        Ok(())
    }

    /// No samples are transferred yet: 0 bytes once a device is attached.
    fn read_samples(&mut self, buffer: &mut [u8]) -> (r: Result<usize, &'static str>)
        ensures
            old(self).usb_device is None ==> (r matches Err(m) && m@ == "No device attached"@),
            old(self).usb_device is Some ==> r == Ok::<usize, &'static str>(0),
            final(buffer)@ == old(buffer)@,
    {
        if self.usb_device.is_none() {
            return Err("No device attached");
        }
        Ok(0)
    }

    fn get_frequency(&self) -> (f: u32)
        ensures
            f == self.frequency,
    {
        self.frequency
    }

    fn get_sample_rate(&self) -> (r: u32)
        ensures
            r == self.sample_rate,
    {
        self.sample_rate
    }
}

} // verus!
