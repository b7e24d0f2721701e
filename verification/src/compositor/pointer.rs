//! Pointer input: the kernel's button numbers, and where a motion goes.

use vstd::prelude::*;

use crate::compositor::window::WindowId;
use crate::input::PointerButton;
use crate::panel::cursor::PixelPoint;
use crate::time::UtcTimestamp;

verus! {

/// The kernel's number of the left button.
pub const BTN_LEFT: u32 = 0x110;

/// The kernel's number of the right button.
pub const BTN_RIGHT: u32 = 0x111;

/// The kernel's number of the middle button.
pub const BTN_MIDDLE: u32 = 0x112;

/// The kernel's number of a button.
pub open spec fn button_number(button: PointerButton) -> u32 {
    match button {
        PointerButton::Left => BTN_LEFT,
        PointerButton::Right => BTN_RIGHT,
        PointerButton::Middle => BTN_MIDDLE,
    }
}

/// The kernel's number of a button.
pub fn evdev_button_code(button: PointerButton) -> (r: u32)
    ensures
        r == button_number(button),
{
    match button {
        PointerButton::Left => BTN_LEFT,
        PointerButton::Right => BTN_RIGHT,
        PointerButton::Middle => BTN_MIDDLE,
    }
}

/// The button with the kernel's number, where it is one of the three.
pub open spec fn button_with_number(code: u32) -> Option<PointerButton> {
    if code == BTN_LEFT {
        Some(PointerButton::Left)
    } else if code == BTN_RIGHT {
        Some(PointerButton::Right)
    } else if code == BTN_MIDDLE {
        Some(PointerButton::Middle)
    } else {
        None
    }
}

/// The button with the kernel's number, where it is one of the three.
pub fn button_of_code(code: u32) -> (r: Option<PointerButton>)
    ensures
        r == button_with_number(code),
{
    if code == BTN_LEFT {
        Some(PointerButton::Left)
    } else if code == BTN_RIGHT {
        Some(PointerButton::Right)
    } else if code == BTN_MIDDLE {
        Some(PointerButton::Middle)
    } else {
        None
    }
}

/// Every button is the one with its number, and a number names no other button.
pub proof fn law_button_numbers_round_trip(button: PointerButton, code: u32)
    ensures
        button_with_number(button_number(button)) == Some(button),
        button_with_number(code) matches Some(b) ==> button_number(b) == code,
{
}

/// What became of a motion.
#[derive(Debug, PartialEq, Eq)]
pub enum PointerDelivery {
    /// The pointer is over a window, at one of its pixels.
    Moved { window: WindowId, local: PixelPoint },
    /// The pointer is over no window.
    Left,
}

/// A time on the clock that input events carry: milliseconds that start over every
/// two to the thirty-second.
pub open spec fn event_time(at: UtcTimestamp) -> int {
    at.millis() as int % 0x1_0000_0000
}

/// A time on the clock that input events carry.
pub fn event_time_ms(at: UtcTimestamp) -> (r: u32)
    ensures
        r == event_time(at),
{
    let millis: i64 = at.millis_since_epoch();
    if millis >= 0 {
        (millis % 0x1_0000_0000) as u32
    } else {
        let back: i64 = -(millis + 1);
        let rest: i64 = back % 0x1_0000_0000;
        proof {
            assert(millis as int % 0x1_0000_0000 == 0xffff_ffff - rest) by {
                let q = back as int / 0x1_0000_0000;
                assert(back == q * 0x1_0000_0000 + rest);
                assert(millis == (-q - 1) * 0x1_0000_0000 + (0xffff_ffff - rest));
                vstd::arithmetic::div_mod::lemma_fundamental_div_mod_converse(
                    millis as int,
                    0x1_0000_0000,
                    -q - 1,
                    0xffff_ffff - rest,
                );
            }
        }
        (0xffff_ffff - rest) as u32
    }
}

} // verus!
