//! The terminal driver: the lifecycle state machine that guards raw mode
//! and the alternate screen, and the per-frame pass that renders widgets
//! into the back buffer, diffs it against the front buffer, and swaps.
//!
//! The loop that performs terminal I/O lives outside the library. It feeds
//! each outcome back as a `DriverSignal`, performs the `DriverAction` the
//! transition hands out, and owns no decision of its own; every decision is
//! made — and verified — here.

use vstd::prelude::*;
use vstd::string::StringExecFns;
use crate::buffer::{Buffer, Cell};
use crate::geom::Rect;
use crate::layout::{lemma_chunks_disjoint, solve, spec_chunk, Constraint, Direction};
use crate::widget::{lemma_painted_frame, Widget};

verus! {

/// The driver's lifecycle states.
#[derive(Clone, Copy, PartialEq, Eq, Structural, Debug)]
pub enum DriverState {
    Stopped,
    Starting,
    Running,
    Stopping,
}

/// What the loop reports back to the driver after each outside step.
#[derive(Clone, Copy, PartialEq, Eq, Structural, Debug)]
pub enum DriverSignal {
    /// The host asked the driver to start.
    StartRequested,
    /// Raw mode and the alternate screen were entered.
    InitSucceeded,
    /// Entering raw mode or the alternate screen failed.
    InitFailed,
    /// A frame's diff was written out.
    FrameWritten,
    /// Writing a frame's diff failed.
    WriteFailed,
    /// The host asked the driver to stop.
    StopRequested,
    /// Raw mode and the alternate screen were restored.
    RestoreDone,
}

/// What the loop must do next.
#[derive(Clone, Copy, PartialEq, Eq, Structural, Debug)]
pub enum DriverAction {
    /// Enable raw mode and enter the alternate screen.
    EnterTerminal,
    /// Render, diff, and write one frame.
    RenderFrame,
    /// Restore the terminal: leave the alternate screen, disable raw mode.
    RestoreTerminal,
    /// Nothing to do for this signal.
    Wait,
}

/// The driver's transition function. A stop request or a write failure is
/// the only way out of `Running`, and both lead through `Stopping`, whose
/// every entering transition carries the restore action: the terminal is
/// restored on every exit path.
pub open spec fn spec_transition(state: DriverState, signal: DriverSignal) -> (DriverState, DriverAction) {
    match state {
        DriverState::Stopped => match signal {
            DriverSignal::StartRequested => (DriverState::Starting, DriverAction::EnterTerminal),
            _ => (DriverState::Stopped, DriverAction::Wait),
        },
        DriverState::Starting => match signal {
            DriverSignal::InitSucceeded => (DriverState::Running, DriverAction::RenderFrame),
            DriverSignal::InitFailed => (DriverState::Stopping, DriverAction::RestoreTerminal),
            DriverSignal::StopRequested => (DriverState::Stopping, DriverAction::RestoreTerminal),
            _ => (DriverState::Starting, DriverAction::Wait),
        },
        DriverState::Running => match signal {
            DriverSignal::FrameWritten => (DriverState::Running, DriverAction::RenderFrame),
            DriverSignal::WriteFailed => (DriverState::Stopping, DriverAction::RestoreTerminal),
            DriverSignal::StopRequested => (DriverState::Stopping, DriverAction::RestoreTerminal),
            _ => (DriverState::Running, DriverAction::Wait),
        },
        DriverState::Stopping => match signal {
            DriverSignal::RestoreDone => (DriverState::Stopped, DriverAction::Wait),
            _ => (DriverState::Stopping, DriverAction::RestoreTerminal),
        },
    }
}

/// One step of the lifecycle state machine.
pub fn transition(state: DriverState, signal: DriverSignal) -> (r: (DriverState, DriverAction))
    ensures
        r == spec_transition(state, signal),
{
    match state {
        DriverState::Stopped => match signal {
            DriverSignal::StartRequested => (DriverState::Starting, DriverAction::EnterTerminal),
            _ => (DriverState::Stopped, DriverAction::Wait),
        },
        DriverState::Starting => match signal {
            DriverSignal::InitSucceeded => (DriverState::Running, DriverAction::RenderFrame),
            DriverSignal::InitFailed => (DriverState::Stopping, DriverAction::RestoreTerminal),
            DriverSignal::StopRequested => (DriverState::Stopping, DriverAction::RestoreTerminal),
            _ => (DriverState::Starting, DriverAction::Wait),
        },
        DriverState::Running => match signal {
            DriverSignal::FrameWritten => (DriverState::Running, DriverAction::RenderFrame),
            DriverSignal::WriteFailed => (DriverState::Stopping, DriverAction::RestoreTerminal),
            DriverSignal::StopRequested => (DriverState::Stopping, DriverAction::RestoreTerminal),
            _ => (DriverState::Running, DriverAction::Wait),
        },
        DriverState::Stopping => match signal {
            DriverSignal::RestoreDone => (DriverState::Stopped, DriverAction::Wait),
            _ => (DriverState::Stopping, DriverAction::RestoreTerminal),
        },
    }
}

/// The lifecycle state together with whether the terminal is currently in
/// raw / alternate-screen mode. The loop flips the flag exactly when it
/// performs `EnterTerminal` or `RestoreTerminal`.
#[derive(Clone, Copy, PartialEq, Eq, Structural, Debug)]
pub struct DriverModel {
    pub state: DriverState,
    pub raw_mode: bool,
}

/// The terminal mode after the loop performs `action`.
pub open spec fn spec_apply_action(raw_mode: bool, action: DriverAction) -> bool {
    match action {
        DriverAction::EnterTerminal => true,
        DriverAction::RestoreTerminal => false,
        _ => raw_mode,
    }
}

/// One observed step: the state machine transitions and the loop performs
/// the action it was handed.
pub open spec fn spec_model_step(m: DriverModel, signal: DriverSignal) -> DriverModel {
    let next = spec_transition(m.state, signal);
    DriverModel { state: next.0, raw_mode: spec_apply_action(m.raw_mode, next.1) }
}

pub fn model_step(m: DriverModel, signal: DriverSignal) -> (r: DriverModel)
    ensures
        r == spec_model_step(m, signal),
{
    let next = transition(m.state, signal);
    let raw_mode = match next.1 {
        DriverAction::EnterTerminal => true,
        DriverAction::RestoreTerminal => false,
        _ => m.raw_mode,
    };
    DriverModel { state: next.0, raw_mode }
}

/// While the driver is stopping or stopped, the terminal is restored.
pub open spec fn restored_inv(m: DriverModel) -> bool {
    (m.state == DriverState::Stopping || m.state == DriverState::Stopped) ==> !m.raw_mode
}

/// Law: every step of the driver preserves the restoration invariant — no
/// exit path can leave the terminal in raw mode.
pub proof fn lemma_model_step_preserves_restored(m: DriverModel, signal: DriverSignal)
    requires
        restored_inv(m),
    ensures
        restored_inv(spec_model_step(m, signal)),
{
}

/// Law: a write failure while running drives the machine to `Stopping`
/// with the terminal restored at once, and the loop's restore report then
/// reaches `Stopped` with raw mode still off.
pub proof fn lemma_write_failure_restores(m: DriverModel)
    requires
        m.state == DriverState::Running,
    ensures
        spec_model_step(m, DriverSignal::WriteFailed).state == DriverState::Stopping,
        !spec_model_step(m, DriverSignal::WriteFailed).raw_mode,
        spec_model_step(spec_model_step(m, DriverSignal::WriteFailed), DriverSignal::RestoreDone).state
            == DriverState::Stopped,
        !spec_model_step(
            spec_model_step(m, DriverSignal::WriteFailed),
            DriverSignal::RestoreDone,
        ).raw_mode,
{
}

/// Law: a stop request observed while running ends the running phase at
/// the very step that observes it — the loop re-checks the flag after each
/// bounded poll, so shutdown happens within one poll window.
pub proof fn lemma_stop_request_exits(m: DriverModel)
    requires
        m.state == DriverState::Running,
    ensures
        spec_model_step(m, DriverSignal::StopRequested).state == DriverState::Stopping,
        spec_transition(m.state, DriverSignal::StopRequested).1 == DriverAction::RestoreTerminal,
{
}

/// The driver's shared control state and its two frame buffers. The loop
/// thread owns the buffers; `running`, `fps` and `theme` are the small
/// scalar fields a host mutates from other threads — outside the library
/// they sit behind a lock, written by the control surface and read once
/// per frame.
pub struct App {
    pub state: DriverState,
    pub running: bool,
    pub fps: u32,
    pub theme: String,
    pub front: Buffer,
    pub back: Buffer,
}

impl App {
    /// Both buffers are well formed and equally sized.
    pub open spec fn wf(self) -> bool {
        &&& self.front.wf()
        &&& self.back.wf()
        &&& self.front.same_size(self.back)
    }

    /// A stopped driver with empty buffers, thirty frames per second, and
    /// the dark theme.
    pub fn new() -> (a: App)
        ensures
            a.wf(),
            a.state == DriverState::Stopped,
            a.running == true,
            a.fps == 30,
            a.theme@ == "dark"@,
            a.front.width == 0,
            a.front.height == 0,
    {
        App {
            state: DriverState::Stopped,
            running: true,
            fps: 30,
            theme: String::from_str("dark"),
            front: Buffer::new(0, 0),
            back: Buffer::new(0, 0),
        }
    }

    /// Sets the target frame rate.
    pub fn set_fps(&mut self, fps: u32)
        ensures
            final(self).fps == fps,
            final(self).running == old(self).running,
            final(self).state == old(self).state,
            final(self).theme@ == old(self).theme@,
            final(self).front == old(self).front,
            final(self).back == old(self).back,
    {
        self.fps = fps;
    }

    /// Sets the active theme name.
    pub fn set_theme(&mut self, name: String)
        ensures
            final(self).theme@ == name@,
            final(self).running == old(self).running,
            final(self).state == old(self).state,
            final(self).fps == old(self).fps,
            final(self).front == old(self).front,
            final(self).back == old(self).back,
    {
        self.theme = name;
    }

    /// Requests a stop: clears the running flag the loop re-checks after
    /// every poll. Safe to call from any thread when the flag sits behind
    /// a lock outside the library.
    pub fn stop(&mut self)
        ensures
            final(self).running == false,
            final(self).state == old(self).state,
            final(self).fps == old(self).fps,
            final(self).theme@ == old(self).theme@,
            final(self).front == old(self).front,
            final(self).back == old(self).back,
    {
        self.running = false;
    }

    pub fn is_running(&self) -> (r: bool)
        ensures
            r == self.running,
    {
        self.running
    }

    /// Applies one lifecycle signal to the driver's state and hands back
    /// the action the loop must perform.
    pub fn step(&mut self, signal: DriverSignal) -> (action: DriverAction)
        ensures
            (final(self).state, action) == spec_transition(old(self).state, signal),
            final(self).running == old(self).running,
            final(self).fps == old(self).fps,
            final(self).theme@ == old(self).theme@,
            final(self).front == old(self).front,
            final(self).back == old(self).back,
    {
        let next = transition(self.state, signal);
        self.state = next.0;
        next.1
    }

    /// Reallocates both buffers to the new terminal size, every cell reset
    /// to the default; prior content is discarded.
    pub fn resize_frame(&mut self, width: u16, height: u16)
        ensures
            final(self).wf(),
            final(self).front.width == width,
            final(self).front.height == height,
            final(self).front.all_default(),
            final(self).back.all_default(),
            final(self).state == old(self).state,
            final(self).running == old(self).running,
            final(self).fps == old(self).fps,
            final(self).theme@ == old(self).theme@,
    {
        self.front.resize(width, height);
        self.back.resize(width, height);
    }

    /// The rectangle the frame pass lays its widgets out over: the whole
    /// grid of the given buffer.
    pub open spec fn spec_frame_area(self) -> Rect {
        Rect { x: 0, y: 0, width: self.front.width, height: self.front.height }
    }

    /// One frame's render pass: lays the widgets out top to bottom over
    /// the whole grid, paints each into its rectangle of the back buffer,
    /// diffs the result against the front buffer, swaps the buffers, and
    /// clears the new back buffer. Afterwards the new front buffer holds
    /// what every widget painted into its own chunk, every cell outside
    /// all chunks keeps the old back buffer's content, and the returned
    /// writes are exactly the cells where the new frame differs from the
    /// one on screen, in row-major order — the minimal write set.
    pub fn frame(&mut self, widgets: &Vec<Widget>, constraints: &Vec<Constraint>) -> (writes: Vec<
        (u16, u16, Cell),
    >)
        requires
            old(self).wf(),
            constraints@.len() == widgets@.len(),
            forall|i: int| 0 <= i < widgets@.len() ==> widgets@[i].wf(),
        ensures
            final(self).wf(),
            final(self).front.same_size(old(self).front),
            writes@ == Buffer::spec_diff(final(self).front, old(self).front),
            final(self).back.all_default(),
            final(self).state == old(self).state,
            final(self).running == old(self).running,
            final(self).fps == old(self).fps,
            final(self).theme@ == old(self).theme@,
            forall|i: int|
                0 <= i < widgets@.len() ==> (#[trigger] widgets@[i]).painted(
                    spec_chunk(Direction::Vertical, constraints@, old(self).spec_frame_area(), i),
                    final(self).front,
                ),
            forall|cx: int, cy: int|
                old(self).back.spec_in_bounds(cx, cy) && (forall|i: int|
                    0 <= i < constraints@.len() ==> !(#[trigger] spec_chunk(
                        Direction::Vertical,
                        constraints@,
                        old(self).spec_frame_area(),
                        i,
                    )).spec_contains(cx, cy)) ==> #[trigger] final(self).front.cell_at(cx, cy)
                    == old(self).back.cell_at(cx, cy),
    {
        let ghost cs = constraints@;
        let area = Rect { x: 0, y: 0, width: self.front.width, height: self.front.height };
        let ghost garea = area;
        let chunks = solve(Direction::Vertical, constraints, area);
        let mut k: usize = 0;
        while k < widgets.len()
            invariant
                k <= widgets@.len(),
                cs == constraints@,
                cs.len() == widgets@.len(),
                chunks@.len() == widgets@.len(),
                garea == old(self).spec_frame_area(),
                garea.wf(),
                forall|i: int| 0 <= i < widgets@.len() ==> (#[trigger] widgets@[i]).wf(),
                forall|i: int| 0 <= i < chunks@.len() ==> (#[trigger] chunks@[i]).wf(),
                forall|i: int|
                    0 <= i < chunks@.len() ==> #[trigger] chunks@[i] == spec_chunk(
                        Direction::Vertical,
                        cs,
                        garea,
                        i,
                    ),
                self.back.wf(),
                self.back.same_size(old(self).back),
                self.front == old(self).front,
                self.state == old(self).state,
                self.running == old(self).running,
                self.fps == old(self).fps,
                self.theme@ == old(self).theme@,
                old(self).wf(),
                forall|m: int|
                    0 <= m < k ==> (#[trigger] widgets@[m]).painted(chunks@[m], self.back),
                forall|cx: int, cy: int|
                    old(self).back.spec_in_bounds(cx, cy) && (forall|m: int|
                        0 <= m < k ==> !(#[trigger] chunks@[m]).spec_contains(cx, cy))
                        ==> #[trigger] self.back.cell_at(cx, cy) == old(self).back.cell_at(cx, cy),
            decreases widgets@.len() - k,
        {
            let ghost prev = self.back;
            widgets[k].render(chunks[k], &mut self.back);
            proof {
                assert forall|m: int|
                    0 <= m < k + 1 implies (#[trigger] widgets@[m]).painted(
                    chunks@[m],
                    self.back,
                ) by {
                    if m < k {
                        lemma_chunks_disjoint(Direction::Vertical, cs, garea, m, k as int);
                        assert forall|cx: int, cy: int|
                            prev.spec_in_bounds(cx, cy) && chunks@[m].spec_contains(cx, cy)
                                implies self.back.cell_at(cx, cy) == prev.cell_at(cx, cy) by {
                            assert(!chunks@[k as int].spec_contains(cx, cy));
                        }
                        lemma_painted_frame(widgets@[m], chunks@[m], prev, self.back);
                    }
                }
                assert forall|cx: int, cy: int|
                    old(self).back.spec_in_bounds(cx, cy) && (forall|m: int|
                        0 <= m < k + 1 ==> !(#[trigger] chunks@[m]).spec_contains(cx, cy))
                        implies #[trigger] self.back.cell_at(cx, cy) == old(self).back.cell_at(
                    cx,
                    cy,
                ) by {
                    assert(!chunks@[k as int].spec_contains(cx, cy));
                    assert(prev.cell_at(cx, cy) == old(self).back.cell_at(cx, cy));
                }
            }
            k = k + 1;
        }
        let writes = self.back.diff(&self.front);
        core::mem::swap(&mut self.front, &mut self.back);
        self.back.fill(Cell::empty());
        writes
    }
}

} // verus!
