//! Window messages and hit-test codes: the standard `winuser.h` numbers.

use vstd::prelude::*;

verus! {

pub const WM_DESTROY: u32 = 0x0002;

pub const WM_SIZE: u32 = 0x0005;

pub const WM_ACTIVATE: u32 = 0x0006;

pub const WM_PAINT: u32 = 0x000F;

pub const WM_CLOSE: u32 = 0x0010;

pub const WM_KEYDOWN: u32 = 0x0100;

pub const WM_KEYUP: u32 = 0x0101;

pub const WM_SYSKEYDOWN: u32 = 0x0104;

pub const WM_SYSKEYUP: u32 = 0x0105;

pub const WM_MOUSEMOVE: u32 = 0x0200;

pub const WM_LBUTTONDOWN: u32 = 0x0201;

pub const WM_LBUTTONUP: u32 = 0x0202;

pub const WM_RBUTTONDOWN: u32 = 0x0204;

pub const WM_RBUTTONUP: u32 = 0x0205;

pub const WM_MBUTTONDOWN: u32 = 0x0207;

pub const WM_MBUTTONUP: u32 = 0x0208;

pub const WM_MOUSEWHEEL: u32 = 0x020A;

pub const WM_MOUSEHWHEEL: u32 = 0x020E;

pub const WM_SIZING: u32 = 0x0214;

pub const WM_ENTERSIZEMOVE: u32 = 0x0231;

pub const WM_EXITSIZEMOVE: u32 = 0x0232;

pub const WM_DPICHANGED: u32 = 0x02E0;

/// One notch of a mouse wheel.
pub const WHEEL_DELTA: i32 = 120;

pub const HTCLIENT: u32 = 1;

pub const HTCAPTION: u32 = 2;

pub const HTLEFT: u32 = 10;

pub const HTRIGHT: u32 = 11;

pub const HTTOP: u32 = 12;

pub const HTTOPLEFT: u32 = 13;

pub const HTTOPRIGHT: u32 = 14;

pub const HTBOTTOM: u32 = 15;

pub const HTBOTTOMLEFT: u32 = 16;

pub const HTBOTTOMRIGHT: u32 = 17;

/// The return key, as `WM_KEYDOWN` reports it.
pub const KEY_RETURN: usize = 13;

pub const WM_SETFOCUS: u32 = 0x0007;

pub const WM_KILLFOCUS: u32 = 0x0008;

pub const WM_ENABLE: u32 = 0x000A;

pub const WM_ERASEBKGND: u32 = 0x0014;

pub const WM_NCDESTROY: u32 = 0x0082;

pub const BM_SETSTATE: u32 = 0x00F3;

pub const BM_SETSTYLE: u32 = 0x00F4;

pub const WM_MOUSELEAVE: u32 = 0x02A3;

} // verus!
