//! Virtual key codes and the records of synthetic keyboard input.
//!
//! Nothing here talks to the operating system: a [`KeyInput`] says what is to
//! be injected, and the caller injects it.

use crate::text::{chars_of, spells};
use vstd::prelude::*;

verus! {

/// Virtual key code of the space bar.
pub const VK_SPACE: u16 = 0x20;

/// Virtual key code of the left arrow key.
pub const VK_LEFT: u16 = 0x25;

/// Virtual key code of the up arrow key.
pub const VK_UP: u16 = 0x26;

/// Virtual key code of the right arrow key.
pub const VK_RIGHT: u16 = 0x27;

/// Flag of a keyboard input that releases the key; without it the key is
/// pressed.
pub const KEYEVENTF_KEYUP: u32 = 0x0002;

/// One synthetic keyboard input, field by field what the operating system's
/// keyboard input record takes.
#[derive(Clone, Copy, Debug, PartialEq, Eq, Structural)]
pub struct KeyInput {
    /// Virtual key code.
    pub vk: u16,
    /// Hardware scan code.
    pub scan: u16,
    /// Flags; see [`KEYEVENTF_KEYUP`].
    pub flags: u32,
    /// Time stamp; 0 lets the system provide its own.
    pub time: u32,
    /// Additional value associated with the input.
    pub extra_info: usize,
}

/// The input that applies `flags` to the key `vk`, with every other field zero.
pub open spec fn key_event(flags: u32, vk: u16) -> KeyInput {
    KeyInput { vk, scan: 0, flags, time: 0, extra_info: 0 }
}

/// Code of an ASCII character as a key: letters by their upper case form,
/// every other character by itself.
pub open spec fn ascii_key(c: char) -> u16
    recommends
        (c as u32) < 128,
{
    if 'a' <= c <= 'z' {
        (c as u32 - 32) as u16
    } else {
        c as u16
    }
}

/// The virtual key code that a key's name stands for: a single ASCII
/// character names its own key, and `space`, `up`, `left` and `right` name the
/// special keys. No other name stands for a key.
pub open spec fn keycode(name: Seq<char>) -> Option<u16> {
    if name.len() == 1 && (name[0] as u32) < 128 {
        Some(ascii_key(name[0]))
    } else if name == "space"@ {
        Some(VK_SPACE)
    } else if name == "up"@ {
        Some(VK_UP)
    } else if name == "left"@ {
        Some(VK_LEFT)
    } else if name == "right"@ {
        Some(VK_RIGHT)
    } else {
        None
    }
}

/// The virtual key code that the name `s` stands for, if any.
pub fn str_to_keycode(s: &str) -> (code: Option<u16>)
    ensures
        code == keycode(s@),
{
    let chars = chars_of(s);
    proof {
        reveal_strlit("space");
        reveal_strlit("up");
        reveal_strlit("left");
        reveal_strlit("right");
    }
    if chars.len() == 1 && (chars[0] as u32) < 128 {
        let c: char = chars[0];
        if 'a' <= c && c <= 'z' {
            Some((c as u32 - 32) as u16)
        } else {
            Some(c as u16)
        }
    } else if spells(&chars, "space") {
        Some(VK_SPACE)
    } else if spells(&chars, "up") {
        Some(VK_UP)
    } else if spells(&chars, "left") {
        Some(VK_LEFT)
    } else if spells(&chars, "right") {
        Some(VK_RIGHT)
    } else {
        None
    }
}

/// The input with the given flags for the key `vk`.
pub fn key_input(flags: u32, vk: u16) -> (input: KeyInput)
    ensures
        input == key_event(flags, vk),
{
    KeyInput { vk, scan: 0, flags, time: 0, extra_info: 0 }
}

/// The input that presses the key `vk`.
pub fn key_down(vk: u16) -> (input: KeyInput)
    ensures
        input == key_event(0, vk),
{
    key_input(0, vk)
}

/// The input that releases the key `vk`.
pub fn key_up(vk: u16) -> (input: KeyInput)
    ensures
        input == key_event(KEYEVENTF_KEYUP, vk),
{
    key_input(KEYEVENTF_KEYUP, vk)
}

} // verus!
