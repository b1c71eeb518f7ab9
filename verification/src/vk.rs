//! Windows virtual-key codes.
//!
//! The client sends raw Windows VK codes on the wire; the host owns the mapping
//! to macOS keycodes. This table serves the headless runner's `--type` option and
//! gives the capture layer a few named constants. Values are the standard
//! `winuser.h` `VK_*` numbers.

use vstd::prelude::*;

verus! {

pub const VK_BACK: u32 = 0x08;
pub const VK_TAB: u32 = 0x09;
pub const VK_RETURN: u32 = 0x0D;
pub const VK_SHIFT: u32 = 0x10;
pub const VK_CONTROL: u32 = 0x11;
/// Alt.
pub const VK_MENU: u32 = 0x12;
pub const VK_ESCAPE: u32 = 0x1B;
pub const VK_SPACE: u32 = 0x20;
pub const VK_LEFT: u32 = 0x25;
pub const VK_UP: u32 = 0x26;
pub const VK_RIGHT: u32 = 0x27;
pub const VK_DOWN: u32 = 0x28;
pub const VK_DELETE: u32 = 0x2E;
pub const VK_LWIN: u32 = 0x5B;

/// The key that types `c` on a US/ANSI layout without a dead key, if there is one.
pub open spec fn vk_of(c: char) -> Option<u32> {
    if 'a' <= c <= 'z' {
        Some((c as u32 - 0x20) as u32)
    } else if 'A' <= c <= 'Z' || '0' <= c <= '9' {
        Some(c as u32)
    } else if c == ' ' {
        Some(VK_SPACE)
    } else if c == '\n' || c == '\r' {
        Some(VK_RETURN)
    } else if c == '\t' {
        Some(VK_TAB)
    } else {
        None
    }
}

/// The VK code that produces `c` on a US/ANSI layout. Letters map to their
/// uppercase ASCII value, digits to their ASCII value. Returns `None` for
/// characters that no single key of the table produces.
pub fn vk_for_ascii(c: char) -> (code: Option<u32>)
    ensures
        code == vk_of(c),
{
    if 'a' <= c && c <= 'z' {
        Some(c as u32 - 0x20)
    } else if ('A' <= c && c <= 'Z') || ('0' <= c && c <= '9') {
        Some(c as u32)
    } else if c == ' ' {
        Some(VK_SPACE)
    } else if c == '\n' || c == '\r' {
        Some(VK_RETURN)
    } else if c == '\t' {
        Some(VK_TAB)
    } else {
        None
    }
}

/// Whether typing `c` on a US/ANSI layout requires holding Shift: exactly the
/// uppercase ASCII letters.
pub fn needs_shift(c: char) -> (shift: bool)
    ensures
        shift == ('A' <= c <= 'Z'),
{
    'A' <= c && c <= 'Z'
}

/// A letter and its other case share one key, and Shift tells them apart.
pub proof fn law_case_shares_key(c: char)
    requires
        'a' <= c <= 'z',
    ensures
        vk_of(c) == vk_of((c as u32 - 0x20) as char),
        !('A' <= c <= 'Z'),
        'A' <= (c as u32 - 0x20) as char <= 'Z',
{
}

} // verus!
