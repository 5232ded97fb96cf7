//! A verified interpreter core for the CHIP-8 virtual machine.
//!
//! The crate models the whole machine — memory, registers, call stack,
//! framebuffer, timers and keypad — as a mathematical state, and every
//! instruction of the classic 35-opcode set as a transition on that state.
//! The executable interpreter is proved to follow those transitions exactly.
//!
//! Windowing, ROM files, audio and key-event translation are left to the
//! host program; the library exposes the framebuffer and timer signals for
//! the host to render.

pub mod decode;
pub mod emulator;
pub mod screen;
pub mod state;
