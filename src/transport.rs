//! The virtio status handshake as a state machine, feature selection and
//! queue-size negotiation, and the address of a queue's notify register.
//!
//! The caller performs each register write and read that the machine asks
//! for, with a full fence after every write, and hands the device's answers
//! back.
use vstd::prelude::*;

verus! {

pub const VIRTIO_STATUS_ACKNOWLEDGE: u8 = 1;

pub const VIRTIO_STATUS_DRIVER: u8 = 2;

pub const VIRTIO_STATUS_DRIVER_OK: u8 = 4;

pub const VIRTIO_STATUS_FEATURES_OK: u8 = 8;

/// Common configuration register offsets.
pub const COMMON_DFSELECT: u64 = 0x00;

pub const COMMON_DF: u64 = 0x04;

pub const COMMON_GFSELECT: u64 = 0x08;

pub const COMMON_GF: u64 = 0x0c;

pub const COMMON_STATUS: u64 = 0x14;

pub const COMMON_Q_SELECT: u64 = 0x16;

pub const COMMON_Q_SIZE: u64 = 0x18;

pub const COMMON_Q_ENABLE: u64 = 0x1c;

pub const COMMON_Q_NOFF: u64 = 0x1e;

pub const COMMON_Q_DESCLO: u64 = 0x20;

pub const COMMON_Q_DESCHI: u64 = 0x24;

pub const COMMON_Q_AVAILLO: u64 = 0x28;

pub const COMMON_Q_AVAILHI: u64 = 0x2c;

pub const COMMON_Q_USEDLO: u64 = 0x30;

pub const COMMON_Q_USEDHI: u64 = 0x34;

/// Times the status register is read back, after writing 0, for the
/// device to show that the reset is done.
pub const RESET_POLLS: u16 = 1000;

/// Where a device stands in its bring-up.
#[derive(Clone, Copy, PartialEq, Eq, Structural, Debug)]
pub enum DeviceState {
    /// Nothing written yet.
    Start,
    /// 0 written to the status register; the device may still be resetting,
    /// with this many more readings allowed.
    Resetting(u16),
    /// The reset is done, or the readings allowed for it ran out.
    Reset,
    Acknowledged,
    DriverSet,
    FeaturesNegotiated,
    QueuesConfigured,
    DriverOk,
    Failed,
}

/// What the caller does next to move the device on.
#[derive(Clone, Copy, PartialEq, Eq, Structural, Debug)]
pub enum InitAction {
    /// Write this value to the status register, then read it back.
    WriteStatus(u8),
    /// Read the status register.
    ReadStatus,
    /// Write the driver feature words (`driver_features` for banks 0 and 1),
    /// then write this value to the status register and read it back.
    NegotiateFeatures(u8),
    /// Set up the device's queues and report whether that worked.
    SetupQueues,
    /// The device is ready.
    Done,
    /// The device is unusable; treat it as absent.
    Abort,
}

/// Position of a state along the bring-up; `Failed` has none.
pub open spec fn rank(s: DeviceState) -> int {
    match s {
        DeviceState::Start => 0,
        DeviceState::Resetting(_) => 1,
        DeviceState::Reset => 2,
        DeviceState::Acknowledged => 3,
        DeviceState::DriverSet => 4,
        DeviceState::FeaturesNegotiated => 5,
        DeviceState::QueuesConfigured => 6,
        DeviceState::DriverOk => 7,
        DeviceState::Failed => -1,
    }
}

/// The state after `s`, given the status read back after its action and,
/// when queues were to be set up, whether that worked.
pub open spec fn next_state(s: DeviceState, status: u8, queues_ok: bool) -> DeviceState {
    match s {
        DeviceState::Start => if status == 0 {
            DeviceState::Reset
        } else {
            DeviceState::Resetting(RESET_POLLS)
        },
        DeviceState::Resetting(n) => if status == 0 || n == 0 {
            DeviceState::Reset
        } else {
            DeviceState::Resetting((n - 1) as u16)
        },
        DeviceState::Reset => DeviceState::Acknowledged,
        DeviceState::Acknowledged => DeviceState::DriverSet,
        DeviceState::DriverSet => if (status / 8) % 2 == 1 {
            DeviceState::FeaturesNegotiated
        } else {
            DeviceState::Failed
        },
        DeviceState::FeaturesNegotiated => if queues_ok {
            DeviceState::QueuesConfigured
        } else {
            DeviceState::Failed
        },
        DeviceState::QueuesConfigured => DeviceState::DriverOk,
        DeviceState::DriverOk => DeviceState::DriverOk,
        DeviceState::Failed => DeviceState::Failed,
    }
}

/// What leaves state `s`.
pub open spec fn action_of(s: DeviceState) -> InitAction {
    match s {
        DeviceState::Start => InitAction::WriteStatus(0),
        DeviceState::Resetting(_) => InitAction::ReadStatus,
        DeviceState::Reset => InitAction::WriteStatus(1),
        DeviceState::Acknowledged => InitAction::WriteStatus(3),
        DeviceState::DriverSet => InitAction::NegotiateFeatures(0x0B),
        DeviceState::FeaturesNegotiated => InitAction::SetupQueues,
        DeviceState::QueuesConfigured => InitAction::WriteStatus(0x0F),
        DeviceState::DriverOk => InitAction::Done,
        DeviceState::Failed => InitAction::Abort,
    }
}

/// The action that leaves state `state`: the driver writes 0 and reads the
/// status back until the device shows 0 (or the readings allowed run out),
/// then writes ACKNOWLEDGE, then ACKNOWLEDGE|DRIVER, then negotiates features and asks
/// for FEATURES_OK, has the queues set up, and last writes DRIVER_OK.
pub fn init_action(state: DeviceState) -> (r: InitAction)
    ensures
        r == action_of(state),
{
    match state {
        DeviceState::Start => InitAction::WriteStatus(0),
        DeviceState::Resetting(_) => InitAction::ReadStatus,
        DeviceState::Reset => InitAction::WriteStatus(VIRTIO_STATUS_ACKNOWLEDGE),
        DeviceState::Acknowledged => InitAction::WriteStatus(VIRTIO_STATUS_ACKNOWLEDGE + VIRTIO_STATUS_DRIVER),
        DeviceState::DriverSet => InitAction::NegotiateFeatures(
            VIRTIO_STATUS_ACKNOWLEDGE + VIRTIO_STATUS_DRIVER + VIRTIO_STATUS_FEATURES_OK,
        ),
        DeviceState::FeaturesNegotiated => InitAction::SetupQueues,
        DeviceState::QueuesConfigured => InitAction::WriteStatus(
            VIRTIO_STATUS_ACKNOWLEDGE + VIRTIO_STATUS_DRIVER + VIRTIO_STATUS_FEATURES_OK + VIRTIO_STATUS_DRIVER_OK,
        ),
        DeviceState::DriverOk => InitAction::Done,
        DeviceState::Failed => InitAction::Abort,
    }
}

/// Moves the machine on after the action of `state` was performed: `status`
/// is the status register read back afterwards, `queues_ok` whether queue
/// setup worked. Feature negotiation fails when the device did not keep
/// FEATURES_OK; queue setup fails when the caller says so.
pub fn init_advance(state: DeviceState, status: u8, queues_ok: bool) -> (r: DeviceState)
    ensures
        r == next_state(state, status, queues_ok),
{
    match state {
        DeviceState::Start => if status == 0 {
            DeviceState::Reset
        } else {
            DeviceState::Resetting(RESET_POLLS)
        },
        DeviceState::Resetting(n) => if status == 0 || n == 0 {
            DeviceState::Reset
        } else {
            DeviceState::Resetting(n - 1)
        },
        DeviceState::Reset => DeviceState::Acknowledged,
        DeviceState::Acknowledged => DeviceState::DriverSet,
        DeviceState::DriverSet => if (status / 8) % 2 == 1 {
            DeviceState::FeaturesNegotiated
        } else {
            DeviceState::Failed
        },
        DeviceState::FeaturesNegotiated => if queues_ok {
            DeviceState::QueuesConfigured
        } else {
            DeviceState::Failed
        },
        DeviceState::QueuesConfigured => DeviceState::DriverOk,
        DeviceState::DriverOk => DeviceState::DriverOk,
        DeviceState::Failed => DeviceState::Failed,
    }
}

/// The bring-up only moves forward or fails for good: it never returns to
/// an earlier state, the wait for a reset uses up its readings, and nothing
/// leaves `Failed`.
pub proof fn lemma_one_directional(s: DeviceState, status: u8, queues_ok: bool)
    ensures
        next_state(s, status, queues_ok) == DeviceState::Failed
            || rank(next_state(s, status, queues_ok)) > rank(s)
            || (s == DeviceState::DriverOk && next_state(s, status, queues_ok) == s)
            || (s is Resetting && s->0 > 0 && next_state(s, status, queues_ok) == DeviceState::Resetting(
                (s->0 - 1) as u16,
            )),
        s == DeviceState::Failed ==> next_state(s, status, queues_ok) == DeviceState::Failed,
{
}

/// The driver feature word for bank `bank`: only VERSION_1 (bit 0 of bank 1)
/// is accepted.
pub fn driver_features(bank: u32) -> (r: u32)
    ensures
        r == (if bank == 1 { 1u32 } else { 0u32 }),
{
    if bank == 1 { 1 } else { 0 }
}

/// Size of a queue given the size wanted and the device's maximum; `None`
/// where the maximum is 0 (the queue does not exist).
pub fn negotiate_queue_size(desired: u16, max: u16) -> (r: Option<u16>)
    ensures
        max == 0 ==> r is None,
        max != 0 ==> r == Some(if desired <= max { desired } else { max }),
{
    if max == 0 {
        None
    } else if desired <= max {
        Some(desired)
    } else {
        Some(max)
    }
}

/// Address of a queue's notify register: the notify structure plus the
/// queue's notify offset times the multiplier; `None` where it does not fit.
pub fn notify_address(notify_cfg: u64, queue_notify_off: u16, mult: u32) -> (r: Option<u64>)
    ensures
        notify_cfg + queue_notify_off * mult <= u64::MAX ==> r == Some((notify_cfg + queue_notify_off * mult) as u64),
        notify_cfg + queue_notify_off * mult > u64::MAX ==> r is None,
{
    proof {
        assert(queue_notify_off * mult <= 0xFFFF * 0xFFFF_FFFF) by (nonlinear_arith)
            requires queue_notify_off <= 0xFFFF, mult <= 0xFFFF_FFFF;
    }
    let step = (queue_notify_off as u64) * (mult as u64);
    notify_cfg.checked_add(step)
}

} // verus!
