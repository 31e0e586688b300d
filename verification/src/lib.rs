//! Replays scripted move and jump commands of a platform game as timed key events.
//!
//! A level script is a list of lines, each holding comma separated command
//! tokens. The library parses such a script into a [`sequence::Sequence`] of
//! [`command::Command`]s and lays out, for a [`keyboard::KeyBoard`], the key
//! inputs and pauses that replaying the sequence takes. Performing them is left
//! to the caller.

pub mod text;
pub mod win;
pub mod error;
pub mod command;
pub mod keyboard;
pub mod sequence;
