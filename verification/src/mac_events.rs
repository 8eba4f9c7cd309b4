//! macOS raw notification codes: which of them are events, and which must be
//! acknowledged.
//!
//! The constants mirror `CGDisplayChangeSummaryFlags` and IOKit's `kIOMessage*`.

use vstd::prelude::*;

use crate::PlatformEvent;

verus! {

/// Pre-notification: the callback fires once with this flag before a
/// reconfiguration, then again with the real change flags.
pub const CG_DISPLAY_BEGIN_CONFIGURATION_FLAG: u32 = 0x1;

/// A display's origin moved in the global display space.
pub const CG_DISPLAY_MOVED_FLAG: u32 = 0x2;

/// A display became the main display.
pub const CG_DISPLAY_SET_MAIN_FLAG: u32 = 0x4;

/// A display's mode changed.
pub const CG_DISPLAY_SET_MODE_FLAG: u32 = 0x8;

/// A display was added.
pub const CG_DISPLAY_ADD_FLAG: u32 = 0x10;

/// A display was removed.
pub const CG_DISPLAY_REMOVE_FLAG: u32 = 0x20;

/// A display was enabled.
pub const CG_DISPLAY_ENABLED_FLAG: u32 = 0x100;

/// A display was disabled.
pub const CG_DISPLAY_DISABLED_FLAG: u32 = 0x200;

/// A display began mirroring another.
pub const CG_DISPLAY_MIRROR_FLAG: u32 = 0x400;

/// A display stopped mirroring another.
pub const CG_DISPLAY_UNMIRROR_FLAG: u32 = 0x800;

/// The union of the desktop shape changed.
pub const CG_DISPLAY_DESKTOP_SHAPE_CHANGED_FLAG: u32 = 0x1000;

/// Every flag that means a completed topology change.
const CG_MEANINGFUL: u32 = 0x1f3e;

/// Whether the flags hold a completed topology change.
pub open spec fn completed_change(flags: u32) -> bool {
    ||| flags & CG_DISPLAY_MOVED_FLAG != 0
    ||| flags & CG_DISPLAY_SET_MAIN_FLAG != 0
    ||| flags & CG_DISPLAY_SET_MODE_FLAG != 0
    ||| flags & CG_DISPLAY_ADD_FLAG != 0
    ||| flags & CG_DISPLAY_REMOVE_FLAG != 0
    ||| flags & CG_DISPLAY_ENABLED_FLAG != 0
    ||| flags & CG_DISPLAY_DISABLED_FLAG != 0
    ||| flags & CG_DISPLAY_MIRROR_FLAG != 0
    ||| flags & CG_DISPLAY_UNMIRROR_FLAG != 0
    ||| flags & CG_DISPLAY_DESKTOP_SHAPE_CHANGED_FLAG != 0
}

/// Map display-reconfiguration flags to an event: `DisplaysChanged` for any
/// completed change, `None` for the pre-notification or an unknown flag set.
pub fn map_display_flags(flags: u32) -> (event: Option<PlatformEvent>)
    ensures
        event == (if completed_change(flags) {
            Some(PlatformEvent::DisplaysChanged)
        } else {
            None
        }),
{
    assert(flags & 0x1f3eu32 != 0 <==> (flags & 0x2u32 != 0 || flags & 0x4u32 != 0 || flags & 0x8u32
        != 0 || flags & 0x10u32 != 0 || flags & 0x20u32 != 0 || flags & 0x100u32 != 0 || flags
        & 0x200u32 != 0 || flags & 0x400u32 != 0 || flags & 0x800u32 != 0 || flags & 0x1000u32
        != 0)) by (bit_vector);
    if flags & CG_MEANINGFUL != 0 {
        Some(PlatformEvent::DisplaysChanged)
    } else {
        None
    }
}

/// Idle sleep is being considered; a client must acknowledge.
pub const IO_MESSAGE_CAN_SYSTEM_SLEEP: u32 = 0xe000_0270;

/// The system will sleep; acknowledge, then park state.
pub const IO_MESSAGE_SYSTEM_WILL_SLEEP: u32 = 0xe000_0280;

/// The system has fully powered on after a wake.
pub const IO_MESSAGE_SYSTEM_HAS_POWERED_ON: u32 = 0xe000_0300;

/// The event a power message stands for.
pub open spec fn power_event(message_type: u32) -> Option<PlatformEvent> {
    if message_type == IO_MESSAGE_SYSTEM_WILL_SLEEP {
        Some(PlatformEvent::Suspending)
    } else if message_type == IO_MESSAGE_SYSTEM_HAS_POWERED_ON {
        Some(PlatformEvent::Resumed)
    } else {
        None
    }
}

/// Whether a power message must be acknowledged.
pub open spec fn must_acknowledge(message_type: u32) -> bool {
    message_type == IO_MESSAGE_CAN_SYSTEM_SLEEP || message_type == IO_MESSAGE_SYSTEM_WILL_SLEEP
}

/// Map a power message to an event.
pub fn map_power_message(message_type: u32) -> (event: Option<PlatformEvent>)
    ensures
        event == power_event(message_type),
{
    if message_type == IO_MESSAGE_SYSTEM_WILL_SLEEP {
        Some(PlatformEvent::Suspending)
    } else if message_type == IO_MESSAGE_SYSTEM_HAS_POWERED_ON {
        Some(PlatformEvent::Resumed)
    } else {
        None
    }
}

/// Whether a power message demands an acknowledgement, without which the system
/// stalls before it sleeps. Wake messages must not be acknowledged.
pub fn power_message_needs_ack(message_type: u32) -> (needs: bool)
    ensures
        needs == must_acknowledge(message_type),
{
    message_type == IO_MESSAGE_CAN_SYSTEM_SLEEP || message_type == IO_MESSAGE_SYSTEM_WILL_SLEEP
}

/// What the power callback does with a message.
#[derive(Debug, Clone, Copy, PartialEq, Eq, Structural)]
pub struct PowerStep {
    /// Acknowledge it to the kernel.
    pub acknowledge: bool,
    /// Send this event, if any.
    pub event: Option<PlatformEvent>,
}

/// The step for a power message. `root_port` is the connection to acknowledge
/// on, zero while there is none.
pub fn power_step(message_type: u32, root_port: u32) -> (step: PowerStep)
    ensures
        step == (PowerStep {
            acknowledge: must_acknowledge(message_type) && root_port != 0,
            event: power_event(message_type),
        }),
{
    PowerStep {
        acknowledge: power_message_needs_ack(message_type) && root_port != 0,
        event: map_power_message(message_type),
    }
}

/// The pre-notification bit decides nothing: with or without it, the change
/// bits alone say whether an event is due.
pub proof fn law_begin_flag_decides_nothing(flags: u32)
    ensures
        completed_change(flags | CG_DISPLAY_BEGIN_CONFIGURATION_FLAG) == completed_change(flags),
        !completed_change(CG_DISPLAY_BEGIN_CONFIGURATION_FLAG),
        !completed_change(0),
{
    assert(forall|m: u32|
        m & 0x1u32 == 0 ==> (#[trigger] ((flags | 0x1u32) & m)) == flags & m) by (bit_vector);
    assert(0x1u32 & 0x2u32 == 0 && 0x1u32 & 0x4u32 == 0 && 0x1u32 & 0x8u32 == 0 && 0x1u32 & 0x10u32
        == 0 && 0x1u32 & 0x20u32 == 0 && 0x1u32 & 0x100u32 == 0 && 0x1u32 & 0x200u32 == 0 && 0x1u32
        & 0x400u32 == 0 && 0x1u32 & 0x800u32 == 0 && 0x1u32 & 0x1000u32 == 0) by (bit_vector);
    assert(0x2u32 & 0x1u32 == 0 && 0x4u32 & 0x1u32 == 0 && 0x8u32 & 0x1u32 == 0 && 0x10u32 & 0x1u32
        == 0 && 0x20u32 & 0x1u32 == 0 && 0x100u32 & 0x1u32 == 0 && 0x200u32 & 0x1u32 == 0 && 0x400u32
        & 0x1u32 == 0 && 0x800u32 & 0x1u32 == 0 && 0x1000u32 & 0x1u32 == 0) by (bit_vector);
    assert(forall|m: u32| #[trigger] (0u32 & m) == 0) by (bit_vector);
}

/// A system that is told of a suspend has been let go: what emits `Suspending`
/// is acknowledged, and what emits `Resumed` never is.
pub proof fn law_acknowledgement_matches_event(message_type: u32)
    ensures
        power_event(message_type) == Some(PlatformEvent::Suspending) ==> must_acknowledge(
            message_type,
        ),
        power_event(message_type) == Some(PlatformEvent::Resumed) ==> !must_acknowledge(
            message_type,
        ),
{
}

/// Any of the ten change bits makes an event, alone or among others, and no other
/// bit does.
pub proof fn law_any_change_bit_is_an_event(flags: u32)
    ensures
        completed_change(flags) <==> flags & 0x1f3e != 0,
        flags & 0x2 != 0 || flags & 0x4 != 0 || flags & 0x8 != 0 || flags & 0x10 != 0 || flags
            & 0x20 != 0 ==> completed_change(flags),
        flags & 0x100 != 0 || flags & 0x200 != 0 || flags & 0x400 != 0 || flags & 0x800 != 0
            || flags & 0x1000 != 0 ==> completed_change(flags),
        completed_change(flags) == completed_change(flags & 0x1f3e),
{
    assert(flags & 0x1f3eu32 != 0 <==> (flags & 0x2u32 != 0 || flags & 0x4u32 != 0 || flags & 0x8u32
        != 0 || flags & 0x10u32 != 0 || flags & 0x20u32 != 0 || flags & 0x100u32 != 0 || flags
        & 0x200u32 != 0 || flags & 0x400u32 != 0 || flags & 0x800u32 != 0 || flags & 0x1000u32
        != 0)) by (bit_vector);
    let kept = flags & 0x1f3eu32;
    assert(kept & 0x1f3eu32 != 0 <==> (kept & 0x2u32 != 0 || kept & 0x4u32 != 0 || kept & 0x8u32
        != 0 || kept & 0x10u32 != 0 || kept & 0x20u32 != 0 || kept & 0x100u32 != 0 || kept
        & 0x200u32 != 0 || kept & 0x400u32 != 0 || kept & 0x800u32 != 0 || kept & 0x1000u32 != 0))
        by (bit_vector);
    assert((flags & 0x1f3eu32) & 0x1f3eu32 == flags & 0x1f3eu32) by (bit_vector);
}

/// Three power messages count: the one before a sleep suspends, the one after a wake
/// resumes, and the question and the announcement of a sleep are both acknowledged.
/// Every other message is ignored.
pub proof fn law_power_messages_mean_this(message_type: u32)
    ensures
        power_event(message_type) == Some(PlatformEvent::Suspending) <==> message_type
            == 0xe000_0280,
        power_event(message_type) == Some(PlatformEvent::Resumed) <==> message_type == 0xe000_0300,
        power_event(message_type) is None <==> message_type != 0xe000_0280 && message_type
            != 0xe000_0300,
        must_acknowledge(message_type) <==> message_type == 0xe000_0270 || message_type
            == 0xe000_0280,
{
}

} // verus!
