//! Input key identifiers from `evdevil`, as the raw Linux event codes that
//! the pen logic works with.
use vstd::prelude::*;

use evdevil::event::Key;

verus! {

/// `evdevil::event::Key`, a key or button identifier.
#[verifier::external_type_specification]
#[verifier::external_body]
pub struct ExKey(Key);

/// `Key::BTN_LEFT.raw()`: evdevil defines `BTN_LEFT` as code `0x110`.
#[verifier::external_body]
pub fn btn_left_code() -> (c: u16)
    ensures
        c == 0x110,
{
    Key::BTN_LEFT.raw()
}

/// `Key::BTN_RIGHT.raw()`: evdevil defines `BTN_RIGHT` as code `0x111`.
#[verifier::external_body]
pub fn btn_right_code() -> (c: u16)
    ensures
        c == 0x111,
{
    Key::BTN_RIGHT.raw()
}

/// `Key::BTN_MIDDLE.raw()`: evdevil defines `BTN_MIDDLE` as code `0x112`.
#[verifier::external_body]
pub fn btn_middle_code() -> (c: u16)
    ensures
        c == 0x112,
{
    Key::BTN_MIDDLE.raw()
}

/// `Key::BTN_TOUCH.raw()`: evdevil defines `BTN_TOUCH` as code `0x14a`.
#[verifier::external_body]
pub fn btn_touch_code() -> (c: u16)
    ensures
        c == 0x14a,
{
    Key::BTN_TOUCH.raw()
}

/// `Key::BTN_TOOL_FINGER.raw()`: evdevil defines `BTN_TOOL_FINGER` as code
/// `0x145`.
#[verifier::external_body]
pub fn btn_tool_finger_code() -> (c: u16)
    ensures
        c == 0x145,
{
    Key::BTN_TOOL_FINGER.raw()
}

/// The key that `Key::from_raw` makes from a raw code; it depends on the
/// code alone.
pub uninterp spec fn key_for_code(c: u16) -> Key;

/// `Key::from_raw`: the key with the given raw code, a pure function of the
/// code (evdevil wraps it as is).
#[verifier::external_body]
pub fn key_from_code(c: u16) -> (k: Key)
    ensures
        k == key_for_code(c),
{
    Key::from_raw(c)
}

} // verus!
