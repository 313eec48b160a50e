//! An interpreter for the CHIP-8 virtual machine: 4096 bytes of memory, sixteen
//! 8-bit registers, a sixteen-level call stack, two timers, a 64 by 32 monochrome
//! display and a sixteen-key keypad.
//!
//! [`State`] is the machine.  A driver loads a program with [`State::load_rom`],
//! calls [`State::emulate_cycle`] at its own pace, hands key events over with
//! [`State::key_down`] and [`State::key_up`], and shows [`State::get_display`].
//! The interpreter opens no window, reads no keyboard and plays no sound.
//!
//! The contracts are stated over [`machine::Machine`], the machine as a mathematical
//! value, and [`machine::Machine::execute`] says what every instruction word does.
//! The module [`laws`] holds what follows from that and is proved there.

pub mod decode;
mod entropy;
pub mod error;
pub mod font;
pub mod keymap;
pub mod laws;
pub mod machine;
pub mod sprite;
pub mod state;

pub use crate::error::{LoadError, StepError};
pub use crate::state::State;
