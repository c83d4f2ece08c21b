//! A terminal-rendering and input-event core.
//!
//! The library owns the screen model: a cell grid with double buffering and
//! cell-level diffing, a deterministic layout solver over size constraints,
//! a widget render protocol, a platform-independent input event model, and
//! the driver state machine that governs the raw-mode / alternate-screen
//! lifecycle. Terminal I/O itself lives outside the library; the loop that
//! performs it feeds results back in as plain values.

pub mod animation;
pub mod buffer;
pub mod driver;
pub mod event;
pub mod geom;
pub mod layout;
pub mod style;
pub mod widget;

use vstd::prelude::*;

verus! {

/// Errors the driver reports to its host.
#[derive(Clone, Copy, PartialEq, Eq, Structural, Debug)]
pub enum AppError {
    /// Enabling raw mode or entering the alternate screen failed; `run`
    /// aborts before the frame loop starts.
    TerminalInit,
    /// A frame's diff write failed; the loop stops rather than continue
    /// with an unknown terminal state.
    RenderIo,
}

} // verus!
