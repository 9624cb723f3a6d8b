//! Device manifests: the capabilities a mounted device grants.

use vstd::prelude::*;

verus! {

/// An operation a device may allow.
#[derive(Debug, Clone, Copy, PartialEq, Eq, Structural)]
pub enum Capability {
    Read,
    Write,
    Execute,
    Mount,
}

/// Kind of a device.
#[derive(Debug, Clone, Copy, PartialEq, Eq, Structural)]
pub enum DeviceType {
    /// RAM-backed (volatile).
    RamDisk,
    /// Block device (persistent).
    BlockDevice,
    /// Character device (stream).
    CharDevice,
    /// Pseudo-filesystem.
    Virtual,
}

/// Security descriptor of a mounted device.
#[derive(Debug, Clone)]
pub struct DeviceManifest {
    pub name: String,
    pub device_type: DeviceType,
    /// Maximum size of the device's data in bytes (0: unlimited).
    pub capacity: usize,
    pub capabilities: [Option<Capability>; 4],
    /// Number of capability slots in use.
    pub cap_count: usize,
    pub read_only: bool,
}

/// Some slot of `caps` holds `cap`.
pub open spec fn has_cap(caps: Seq<Option<Capability>>, cap: Capability) -> bool {
    exists|i: int| 0 <= i < caps.len() && caps[i] == Some(cap)
}

/// Number of occupied slots among the first `n` of `caps`.
pub open spec fn occupied(caps: Seq<Option<Capability>>, n: int) -> int
    decreases n,
{
    if n <= 0 {
        0
    } else {
        occupied(caps, n - 1) + (if caps[n - 1] is Some { 1int } else { 0int })
    }
}

/// The manifest is consistent: a read-only device cannot write, every
/// device can read, `cap_count` counts the occupied slots, and RAM disks and
/// block devices have a non-zero capacity.
pub open spec fn manifest_valid(m: DeviceManifest) -> bool {
    &&& !(m.read_only && has_cap(m.capabilities@, Capability::Write))
    &&& has_cap(m.capabilities@, Capability::Read)
    &&& occupied(m.capabilities@, 4) == m.cap_count
    &&& !((m.device_type == DeviceType::RamDisk || m.device_type == DeviceType::BlockDevice) && m.capacity == 0)
}

impl DeviceManifest {
    /// A RAM disk that can read, and write when `writable`.
    pub fn ram_disk(name: &str, capacity: usize, writable: bool) -> (m: Self)
        ensures
            m.name@ == name@,
            m.device_type == DeviceType::RamDisk,
            m.capacity == capacity,
            m.capabilities@ == seq![Some(Capability::Read), if writable { Some(Capability::Write) } else { None }, None, None],
            m.cap_count == if writable { 2usize } else { 1usize },
            m.read_only == !writable,
    {
        let caps: [Option<Capability>; 4] = [
            Some(Capability::Read),
            if writable { Some(Capability::Write) } else { None },
            None,
            None,
        ];
        assert(caps@ =~= seq![Some(Capability::Read), if writable { Some(Capability::Write) } else { None }, None, None]);
        DeviceManifest {
            name: name.to_owned(),
            device_type: DeviceType::RamDisk,
            capacity,
            capabilities: caps,
            cap_count: if writable { 2 } else { 1 },
            read_only: !writable,
        }
    }

    /// A read-only pseudo device.
    pub fn virtual_readonly(name: &str) -> (m: Self)
        ensures
            m.name@ == name@,
            m.device_type == DeviceType::Virtual,
            m.capacity == 0,
            m.capabilities@ == seq![Some(Capability::Read), None, None, None],
            m.cap_count == 1,
            m.read_only,
    {
        let caps: [Option<Capability>; 4] = [Some(Capability::Read), None, None, None];
        assert(caps@ =~= seq![Some(Capability::Read), None, None, None]);
        DeviceManifest {
            name: name.to_owned(),
            device_type: DeviceType::Virtual,
            capacity: 0,
            capabilities: caps,
            cap_count: 1,
            read_only: true,
        }
    }

    /// The device grants `cap`.
    pub fn can(&self, cap: Capability) -> (b: bool)
        ensures
            b == has_cap(self.capabilities@, cap),
    {
        let mut i: usize = 0;
        while i < 4
            invariant
                i <= 4,
                self.capabilities@.len() == 4,
                forall|j: int| 0 <= j < i ==> self.capabilities@[j] != Some(cap),
            decreases 4 - i,
        {
            if self.capabilities[i] == Some(cap) {
                return true;
            }
            i += 1;
        }
        false
    }

    /// Checks the manifest's consistency (`manifest_valid`).
    pub fn validate(&self) -> (b: bool)
        ensures
            b == manifest_valid(*self),
    {
        if self.read_only && self.can(Capability::Write) {
            return false;
        }
        if !self.can(Capability::Read) {
            return false;
        }
        let mut count: usize = 0;
        let mut i: usize = 0;
        while i < 4
            invariant
                i <= 4,
                self.capabilities@.len() == 4,
                count == occupied(self.capabilities@, i as int),
                count <= i,
            decreases 4 - i,
        {
            if self.capabilities[i].is_some() {
                count += 1;
            }
            i += 1;
        }
        if count != self.cap_count {
            return false;
        }
        let sized = match self.device_type {
            DeviceType::RamDisk | DeviceType::BlockDevice => true,
            _ => false,
        };
        if sized && self.capacity == 0 {
            return false;
        }
        true
    }
}

} // verus!
