//! SGR mouse encoding: `ESC [ < Cb ; Cx ; Cy M` (press) or `… m` (release).
//! Coordinates are 1-based; a zero coordinate clamps to 1.

use vstd::prelude::*;

use crate::text::{dec_bytes_u64, dec_digits};

verus! {

/// Mouse buttons for press events.
#[derive(Debug, Clone, Copy, PartialEq, Eq)]
pub enum MouseButton {
    /// Left button (`Cb = 0`).
    Left,
    /// Middle button (`Cb = 1`).
    Middle,
    /// Right button (`Cb = 2`).
    Right,
}

/// The SGR button code of a button.
pub open spec fn button_code(button: MouseButton) -> u16 {
    match button {
        MouseButton::Left => 0,
        MouseButton::Middle => 1,
        MouseButton::Right => 2,
    }
}

impl MouseButton {
    /// SGR button code.
    pub fn code(self) -> (c: u16)
        ensures
            c == button_code(self),
    {
        match self {
            MouseButton::Left => 0,
            MouseButton::Middle => 1,
            MouseButton::Right => 2,
        }
    }
}

/// A coordinate as sent: zero clamps to 1.
pub open spec fn clamp1(v: u16) -> nat {
    if v == 0 { 1 } else { v as nat }
}

/// The bytes of one SGR event.
pub open spec fn sgr_bytes(code: u16, x: u16, y: u16, release: bool) -> Seq<u8> {
    seq![0x1bu8, 0x5bu8, 0x3cu8] + dec_digits(code as nat) + seq![0x3bu8] + dec_digits(clamp1(x))
        + seq![0x3bu8] + dec_digits(clamp1(y)) + seq![if release { 0x6du8 } else { 0x4du8 }]
}

/// One SGR event: press (`M`) or release (`m`).
fn sgr(code: u16, x: u16, y: u16, release: bool) -> (out: Vec<u8>)
    ensures
        out@ == sgr_bytes(code, x, y, release),
{
    let mut out: Vec<u8> = Vec::new();
    out.push(0x1b);
    out.push(0x5b);
    out.push(0x3c);
    let mut digits = dec_bytes_u64(code as u64);
    out.append(&mut digits);
    out.push(0x3b);
    let cx: u16 = if x == 0 { 1 } else { x };
    let mut digits = dec_bytes_u64(cx as u64);
    out.append(&mut digits);
    out.push(0x3b);
    let cy: u16 = if y == 0 { 1 } else { y };
    let mut digits = dec_bytes_u64(cy as u64);
    out.append(&mut digits);
    out.push(if release { 0x6d } else { 0x4d });
    assert(out@ =~= sgr_bytes(code, x, y, release));
    out
}

/// Left/middle/right press at 1-based `(x, y)`.
pub fn mouse_press(button: MouseButton, x: u16, y: u16) -> (out: Vec<u8>)
    ensures
        out@ == sgr_bytes(button_code(button), x, y, false),
{
    sgr(button.code(), x, y, false)
}

/// Button-coded release at 1-based `(x, y)` (`Cb=<button>` then `m`).
pub fn mouse_release(button: MouseButton, x: u16, y: u16) -> (out: Vec<u8>)
    ensures
        out@ == sgr_bytes(button_code(button), x, y, true),
{
    sgr(button.code(), x, y, true)
}

/// Wheel-up tick at 1-based `(x, y)` (`Cb = 64`).
pub fn mouse_scroll_up(x: u16, y: u16) -> (out: Vec<u8>)
    ensures
        out@ == sgr_bytes(64, x, y, false),
{
    sgr(64, x, y, false)
}

/// Wheel-down tick at 1-based `(x, y)` (`Cb = 65`).
pub fn mouse_scroll_down(x: u16, y: u16) -> (out: Vec<u8>)
    ensures
        out@ == sgr_bytes(65, x, y, false),
{
    sgr(65, x, y, false)
}

/// Drag byte shape: left press at the start then left release at the end.
pub fn mouse_drag(x1: u16, y1: u16, x2: u16, y2: u16) -> (out: Vec<u8>)
    ensures
        out@ == sgr_bytes(0, x1, y1, false) + sgr_bytes(0, x2, y2, true),
{
    let mut bytes = mouse_press(MouseButton::Left, x1, y1);
    let mut tail = mouse_release(MouseButton::Left, x2, y2);
    bytes.append(&mut tail);
    bytes
}

} // verus!
