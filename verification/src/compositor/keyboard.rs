//! Keyboard input: kernel numbers and the keymap's.

use vstd::prelude::*;

use crate::input::Keycode;

verus! {

/// A key's number in the keymap is its kernel number and this.
pub const EVDEV_TO_XKB_OFFSET: u32 = 8;

/// A key's number in the keymap; the largest number stands for what lies beyond it.
pub open spec fn keymap_number(keycode: Keycode) -> int {
    if keycode.0 + EVDEV_TO_XKB_OFFSET <= u32::MAX {
        keycode.0 + EVDEV_TO_XKB_OFFSET
    } else {
        u32::MAX as int
    }
}

/// A key's number in the keymap.
pub fn to_xkb(keycode: Keycode) -> (r: u32)
    ensures
        r == keymap_number(keycode),
{
    keycode.0.saturating_add(EVDEV_TO_XKB_OFFSET)
}

/// The key with a number in the keymap; numbers below the offset stand for key zero.
pub open spec fn key_with_number(xkb: u32) -> int {
    if xkb >= EVDEV_TO_XKB_OFFSET {
        xkb - EVDEV_TO_XKB_OFFSET
    } else {
        0
    }
}

/// The key with a number in the keymap.
pub fn from_xkb(xkb: u32) -> (r: Keycode)
    ensures
        r.0 == key_with_number(xkb),
{
    Keycode(xkb.saturating_sub(EVDEV_TO_XKB_OFFSET))
}

/// A key comes back from its number in the keymap, unless that number is beyond what
/// can be written down.
pub proof fn law_key_numbers_round_trip(keycode: Keycode)
    requires
        keycode.0 + EVDEV_TO_XKB_OFFSET <= u32::MAX,
    ensures
        key_with_number(keymap_number(keycode) as u32) == keycode.0,
{
}

} // verus!
