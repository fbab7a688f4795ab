//! Verified core of a desktop front end for a callback-driven Game Boy
//! emulation engine.
//!
//! The engine itself, the windows and the threads stay outside. This crate
//! holds what has to be right for them to work together: the worker's
//! run/step/stop/quit state machine, the host-side half of the engine bridge
//! (frame buffer, pixel format, frame snapshots), the answers to the engine's
//! hooks (boot ROM, debugger input, diagnostic text) and the rules for
//! loading a ROM.

pub mod boot_rom;
pub mod debugger;
pub mod log;
pub mod pixel;
pub mod rom;
pub mod sameboy;
pub mod schedule;
pub mod screen;

pub use boot_rom::{BootRomImage, BootRomKind, BootRoms};
pub use debugger::{DebuggerCmdStr, Polled};
pub use log::{LineKind, LogModel};
pub use rom::LoadRomError;
pub use sameboy::{EngineCall, SameBoy};
pub use schedule::{Directive, Event, Schedule, Scheduler, State};
pub use screen::PixelBuffer;
