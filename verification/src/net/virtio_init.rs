//! The order in which the driver brings a VirtIO network device up: reset,
//! acknowledge, driver, feature negotiation, features-OK, the MAC address,
//! the receive and transmit queues, the buffers, then driver-OK. Each step
//! names the port access to perform next; the caller performs it and hands
//! back what it read.

use vstd::prelude::*;
use crate::net::virtio::{
    io_base_of_bar, negotiate_features, VIRTIO_NET_F_MAC, VIRTIO_NET_F_STATUS, VIRTIO_STATUS_ACKNOWLEDGE,
    VIRTIO_STATUS_DRIVER, VIRTIO_STATUS_DRIVER_OK, VIRTIO_STATUS_FEATURES_OK, VIRTIO_STATUS_RESET,
};

verus! {

/// Where the bring-up stands: the access it waits on.
#[derive(Debug, Clone, Copy, PartialEq, Eq, Structural)]
pub enum InitPhase {
    Begin,
    AwaitBar,
    AwaitBusMaster,
    AwaitReset,
    AwaitAcknowledge,
    AwaitDriver,
    AwaitFeatures,
    AwaitGuestFeatures,
    AwaitStatusBeforeFeaturesOk,
    AwaitFeaturesOk,
    AwaitMac,
    AwaitRxQueue,
    AwaitTxQueue,
    AwaitTxBuffer,
    AwaitRxBuffers,
    AwaitStatusBeforeDriverOk,
    AwaitDriverOk,
    Ready,
    Failed,
}

/// What the last access gave back.
#[derive(Debug, Clone, Copy, PartialEq, Eq, Structural)]
pub enum InitEvent {
    /// Nothing yet: the bring-up starts.
    Start,
    /// The value of BAR0.
    Bar(u32),
    /// A write completed.
    Done,
    /// The features the device offers.
    Features(u32),
    /// The device status register.
    Status(u8),
    /// Whether a queue, or the transmit buffer, could be set up.
    Outcome(bool),
}

/// The access to perform next.
#[derive(Debug, Clone, Copy, PartialEq, Eq, Structural)]
pub enum InitAction {
    ReadBar0,
    EnableBusMaster { io_base: u16 },
    WriteStatus { io_base: u16, status: u8 },
    ReadFeatures { io_base: u16 },
    WriteGuestFeatures { io_base: u16, features: u32 },
    ReadStatus { io_base: u16 },
    ReadMac { io_base: u16 },
    SetupQueue { io_base: u16, index: u16 },
    AllocTxBuffer,
    PostRxBuffers,
    /// The device is up.
    Finish,
    /// The device cannot be brought up.
    Abort,
}

/// The bring-up's state: its phase and the port base BAR0 gave.
#[derive(Debug, Clone, Copy, PartialEq, Eq, Structural)]
pub struct VirtioInit {
    pub phase: InitPhase,
    pub io_base: u16,
}

/// Position of a phase in the bring-up order (`Failed` after all).
pub open spec fn phase_rank(p: InitPhase) -> int {
    match p {
        InitPhase::Begin => 0,
        InitPhase::AwaitBar => 1,
        InitPhase::AwaitBusMaster => 2,
        InitPhase::AwaitReset => 3,
        InitPhase::AwaitAcknowledge => 4,
        InitPhase::AwaitDriver => 5,
        InitPhase::AwaitFeatures => 6,
        InitPhase::AwaitGuestFeatures => 7,
        InitPhase::AwaitStatusBeforeFeaturesOk => 8,
        InitPhase::AwaitFeaturesOk => 9,
        InitPhase::AwaitMac => 10,
        InitPhase::AwaitRxQueue => 11,
        InitPhase::AwaitTxQueue => 12,
        InitPhase::AwaitTxBuffer => 13,
        InitPhase::AwaitRxBuffers => 14,
        InitPhase::AwaitStatusBeforeDriverOk => 15,
        InitPhase::AwaitDriverOk => 16,
        InitPhase::Ready => 17,
        InitPhase::Failed => 18,
    }
}

/// The state before the bring-up starts.
pub fn virtio_init_start() -> (s: VirtioInit)
    ensures
        s == (VirtioInit { phase: InitPhase::Begin, io_base: 0 }),
{
    VirtioInit { phase: InitPhase::Begin, io_base: 0 }
}

/// `s` moves to phase `p`, keeping its port base, and asks for `a`.
pub open spec fn goes(s: VirtioInit, r: (VirtioInit, InitAction), p: InitPhase, a: InitAction) -> bool {
    r == (VirtioInit { phase: p, ..s }, a)
}

/// One step of the bring-up: given what the last access gave back, the
/// next state and the next access. An event other than the one awaited
/// fails the bring-up; a finished bring-up stays as it is. The bring-up
/// never goes back: each step moves to a later phase, or stays once it is
/// ready or has failed.
pub fn virtio_init_step(s: VirtioInit, ev: InitEvent) -> (r: (VirtioInit, InitAction))
    ensures
        phase_rank(r.0.phase) > phase_rank(s.phase) || ((s.phase == InitPhase::Ready || s.phase == InitPhase::Failed)
            && r.0 == s),
        ({
            let io = s.io_base;
            let fail = (VirtioInit { phase: InitPhase::Failed, ..s }, InitAction::Abort);
            match (s.phase, ev) {
                (InitPhase::Begin, InitEvent::Start) => goes(s, r, InitPhase::AwaitBar, InitAction::ReadBar0),
                (InitPhase::AwaitBar, InitEvent::Bar(b)) => if b % 2 == 0 {
                    r == fail
                } else {
                    let base = (b % 0x1_0000 - b % 4) as u16;
                    r == (VirtioInit { phase: InitPhase::AwaitBusMaster, io_base: base }, InitAction::EnableBusMaster { io_base: base })
                },
                (InitPhase::AwaitBusMaster, InitEvent::Done) => goes(s, r, InitPhase::AwaitReset,
                    InitAction::WriteStatus { io_base: io, status: VIRTIO_STATUS_RESET }),
                (InitPhase::AwaitReset, InitEvent::Done) => goes(s, r, InitPhase::AwaitAcknowledge,
                    InitAction::WriteStatus { io_base: io, status: VIRTIO_STATUS_ACKNOWLEDGE }),
                (InitPhase::AwaitAcknowledge, InitEvent::Done) => goes(s, r, InitPhase::AwaitDriver,
                    InitAction::WriteStatus { io_base: io, status: VIRTIO_STATUS_ACKNOWLEDGE | VIRTIO_STATUS_DRIVER }),
                (InitPhase::AwaitDriver, InitEvent::Done) => goes(s, r, InitPhase::AwaitFeatures, InitAction::ReadFeatures { io_base: io }),
                (InitPhase::AwaitFeatures, InitEvent::Features(f)) => goes(s, r, InitPhase::AwaitGuestFeatures,
                    InitAction::WriteGuestFeatures { io_base: io, features: f & (VIRTIO_NET_F_MAC | VIRTIO_NET_F_STATUS) }),
                (InitPhase::AwaitGuestFeatures, InitEvent::Done) => goes(s, r, InitPhase::AwaitStatusBeforeFeaturesOk,
                    InitAction::ReadStatus { io_base: io }),
                (InitPhase::AwaitStatusBeforeFeaturesOk, InitEvent::Status(st)) => goes(s, r, InitPhase::AwaitFeaturesOk,
                    InitAction::WriteStatus { io_base: io, status: st | VIRTIO_STATUS_FEATURES_OK }),
                (InitPhase::AwaitFeaturesOk, InitEvent::Done) => goes(s, r, InitPhase::AwaitMac, InitAction::ReadMac { io_base: io }),
                (InitPhase::AwaitMac, InitEvent::Done) => goes(s, r, InitPhase::AwaitRxQueue, InitAction::SetupQueue { io_base: io, index: 0 }),
                (InitPhase::AwaitRxQueue, InitEvent::Outcome(ok)) => if ok {
                    goes(s, r, InitPhase::AwaitTxQueue, InitAction::SetupQueue { io_base: io, index: 1 })
                } else {
                    r == fail
                },
                (InitPhase::AwaitTxQueue, InitEvent::Outcome(ok)) => if ok {
                    goes(s, r, InitPhase::AwaitTxBuffer, InitAction::AllocTxBuffer)
                } else {
                    r == fail
                },
                (InitPhase::AwaitTxBuffer, InitEvent::Outcome(ok)) => if ok {
                    goes(s, r, InitPhase::AwaitRxBuffers, InitAction::PostRxBuffers)
                } else {
                    r == fail
                },
                (InitPhase::AwaitRxBuffers, InitEvent::Done) => goes(s, r, InitPhase::AwaitStatusBeforeDriverOk,
                    InitAction::ReadStatus { io_base: io }),
                (InitPhase::AwaitStatusBeforeDriverOk, InitEvent::Status(st)) => goes(s, r, InitPhase::AwaitDriverOk,
                    InitAction::WriteStatus { io_base: io, status: st | VIRTIO_STATUS_DRIVER_OK }),
                (InitPhase::AwaitDriverOk, InitEvent::Done) => goes(s, r, InitPhase::Ready, InitAction::Finish),
                (InitPhase::Ready, _) => r == (s, InitAction::Finish),
                (InitPhase::Failed, _) => r == (s, InitAction::Abort),
                _ => r == fail,
            }
        }),
{
    let io = s.io_base;
    let fail = (VirtioInit { phase: InitPhase::Failed, ..s }, InitAction::Abort);
    let to = |p: InitPhase, a: InitAction| -> (t: (VirtioInit, InitAction))
        ensures
            t == (VirtioInit { phase: p, ..s }, a),
    { (VirtioInit { phase: p, ..s }, a) };
    match (s.phase, ev) {
        (InitPhase::Begin, InitEvent::Start) => to(InitPhase::AwaitBar, InitAction::ReadBar0),
        (InitPhase::AwaitBar, InitEvent::Bar(b)) => match io_base_of_bar(b) {
            None => fail,
            Some(base) => (VirtioInit { phase: InitPhase::AwaitBusMaster, io_base: base }, InitAction::EnableBusMaster { io_base: base }),
        },
        (InitPhase::AwaitBusMaster, InitEvent::Done) => to(InitPhase::AwaitReset,
            InitAction::WriteStatus { io_base: io, status: VIRTIO_STATUS_RESET }),
        (InitPhase::AwaitReset, InitEvent::Done) => to(InitPhase::AwaitAcknowledge,
            InitAction::WriteStatus { io_base: io, status: VIRTIO_STATUS_ACKNOWLEDGE }),
        (InitPhase::AwaitAcknowledge, InitEvent::Done) => to(InitPhase::AwaitDriver,
            InitAction::WriteStatus { io_base: io, status: VIRTIO_STATUS_ACKNOWLEDGE | VIRTIO_STATUS_DRIVER }),
        (InitPhase::AwaitDriver, InitEvent::Done) => to(InitPhase::AwaitFeatures, InitAction::ReadFeatures { io_base: io }),
        (InitPhase::AwaitFeatures, InitEvent::Features(f)) => to(InitPhase::AwaitGuestFeatures,
            InitAction::WriteGuestFeatures { io_base: io, features: negotiate_features(f) }),
        (InitPhase::AwaitGuestFeatures, InitEvent::Done) => to(InitPhase::AwaitStatusBeforeFeaturesOk, InitAction::ReadStatus { io_base: io }),
        (InitPhase::AwaitStatusBeforeFeaturesOk, InitEvent::Status(st)) => to(InitPhase::AwaitFeaturesOk,
            InitAction::WriteStatus { io_base: io, status: st | VIRTIO_STATUS_FEATURES_OK }),
        (InitPhase::AwaitFeaturesOk, InitEvent::Done) => to(InitPhase::AwaitMac, InitAction::ReadMac { io_base: io }),
        (InitPhase::AwaitMac, InitEvent::Done) => to(InitPhase::AwaitRxQueue, InitAction::SetupQueue { io_base: io, index: 0 }),
        (InitPhase::AwaitRxQueue, InitEvent::Outcome(ok)) => if ok {
            to(InitPhase::AwaitTxQueue, InitAction::SetupQueue { io_base: io, index: 1 })
        } else {
            fail
        },
        (InitPhase::AwaitTxQueue, InitEvent::Outcome(ok)) => if ok {
            to(InitPhase::AwaitTxBuffer, InitAction::AllocTxBuffer)
        } else {
            fail
        },
        (InitPhase::AwaitTxBuffer, InitEvent::Outcome(ok)) => if ok {
            to(InitPhase::AwaitRxBuffers, InitAction::PostRxBuffers)
        } else {
            fail
        },
        (InitPhase::AwaitRxBuffers, InitEvent::Done) => to(InitPhase::AwaitStatusBeforeDriverOk, InitAction::ReadStatus { io_base: io }),
        (InitPhase::AwaitStatusBeforeDriverOk, InitEvent::Status(st)) => to(InitPhase::AwaitDriverOk,
            InitAction::WriteStatus { io_base: io, status: st | VIRTIO_STATUS_DRIVER_OK }),
        (InitPhase::AwaitDriverOk, InitEvent::Done) => to(InitPhase::Ready, InitAction::Finish),
        (InitPhase::Ready, _) => (s, InitAction::Finish),
        (InitPhase::Failed, _) => (s, InitAction::Abort),
        _ => fail,
    }
}

} // verus!
