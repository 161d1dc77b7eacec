//! Numbers of the X11 protocol, as the protocol crate has them.

use vstd::prelude::*;
use x11rb::protocol::xproto::{AtomEnum, GrabStatus, KeyButMask, NotifyMode, VisualClass};

verus! {

/// `x11rb::CURRENT_TIME`: the time that stands for now is 0.
#[verifier::external_body]
pub(crate) fn current_time() -> (r: u32)
    ensures
        r == 0,
{
    x11rb::CURRENT_TIME
}

/// `u16::from(KeyButMask::SHIFT)`: the bit of Shift in an event's state is 1.
#[verifier::external_body]
pub(crate) fn shift_mask() -> (r: u16)
    ensures
        r == 1,
{
    u16::from(KeyButMask::SHIFT)
}

/// `u16::from(KeyButMask::LOCK)`: the bit of caps lock is 2.
#[verifier::external_body]
pub(crate) fn lock_mask() -> (r: u16)
    ensures
        r == 2,
{
    u16::from(KeyButMask::LOCK)
}

/// `u16::from(KeyButMask::CONTROL)`: the bit of Ctrl is 4.
#[verifier::external_body]
pub(crate) fn control_mask() -> (r: u16)
    ensures
        r == 4,
{
    u16::from(KeyButMask::CONTROL)
}

/// `u16::from(KeyButMask::MOD4)`: the bit of Super is 64.
#[verifier::external_body]
pub(crate) fn super_mask() -> (r: u16)
    ensures
        r == 64,
{
    u16::from(KeyButMask::MOD4)
}

/// `u32::from(AtomEnum::ATOM)`: the predefined atom `ATOM` is 4.
#[verifier::external_body]
pub(crate) fn atom_atom() -> (r: u32)
    ensures
        r == 4,
{
    u32::from(AtomEnum::ATOM)
}

/// `u32::from(AtomEnum::CARDINAL)`: the predefined atom `CARDINAL` is 6.
#[verifier::external_body]
pub(crate) fn cardinal_atom() -> (r: u32)
    ensures
        r == 6,
{
    u32::from(AtomEnum::CARDINAL)
}

/// `u32::from(AtomEnum::STRING)`: the predefined atom `STRING` is 31.
#[verifier::external_body]
pub(crate) fn string_atom() -> (r: u32)
    ensures
        r == 31,
{
    u32::from(AtomEnum::STRING)
}

/// `u32::from(AtomEnum::WINDOW)`: the predefined atom `WINDOW` is 33.
#[verifier::external_body]
pub(crate) fn window_atom() -> (r: u32)
    ensures
        r == 33,
{
    u32::from(AtomEnum::WINDOW)
}

/// `u32::from(AtomEnum::WM_NAME)`: the predefined atom `WM_NAME` is 39.
#[verifier::external_body]
pub(crate) fn wm_name_atom() -> (r: u32)
    ensures
        r == 39,
{
    u32::from(AtomEnum::WM_NAME)
}

/// `u32::from(AtomEnum::WM_CLASS)`: the predefined atom `WM_CLASS` is 67.
#[verifier::external_body]
pub(crate) fn wm_class_atom() -> (r: u32)
    ensures
        r == 67,
{
    u32::from(AtomEnum::WM_CLASS)
}

/// `u8::from(NotifyMode::NORMAL)`: the mode of a focus change that no grab
/// caused is 0.
#[verifier::external_body]
pub(crate) fn normal_mode() -> (r: u8)
    ensures
        r == 0,
{
    u8::from(NotifyMode::NORMAL)
}

/// `u8::from(GrabStatus::SUCCESS)`: the status of a grab that worked is 0.
#[verifier::external_body]
pub(crate) fn grab_success() -> (r: u8)
    ensures
        r == 0,
{
    u8::from(GrabStatus::SUCCESS)
}

/// `u8::from(VisualClass::TRUE_COLOR)`: the class of a visual with fixed
/// colour channels is 4.
#[verifier::external_body]
pub(crate) fn true_color() -> (r: u8)
    ensures
        r == 4,
{
    u8::from(VisualClass::TRUE_COLOR)
}

} // verus!
