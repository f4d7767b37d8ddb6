//! The application loop.

use vstd::prelude::*;

verus! {

/// A basic application loop: it keeps no state of its own.
pub struct BasicLoop {}

/// What the loop is told by the window system: the main events of a frame
/// have been handled, a window event (a close request or another), or
/// anything else.
#[derive(Clone, Copy, Debug, PartialEq, Eq, Structural)]
pub enum LoopEvent {
    MainEventsCleared,
    WindowEvent { close_requested: bool },
    Other,
}

/// How the window system's loop goes on: polling for more events, or ending.
#[derive(Clone, Copy, Debug, PartialEq, Eq, Structural)]
pub enum ControlFlowKind {
    Poll,
    Exit,
}

/// What the loop does on one event: run the tasks waiting in its pool,
/// update the input state with the window event, and how it goes on.
#[derive(Clone, Copy, Debug, PartialEq, Eq, Structural)]
pub struct LoopStep {
    pub run_pending_tasks: bool,
    pub update_input: bool,
    pub control_flow: ControlFlowKind,
}

/// The loop's answer to `event`: pending tasks run once the main events are
/// cleared; every window event updates the input state; the loop ends on a
/// close request and otherwise keeps polling.
pub open spec fn loop_step(event: LoopEvent) -> LoopStep {
    LoopStep {
        run_pending_tasks: event == LoopEvent::MainEventsCleared,
        update_input: event is WindowEvent,
        control_flow: if event == (LoopEvent::WindowEvent { close_requested: true }) {
            ControlFlowKind::Exit
        } else {
            ControlFlowKind::Poll
        },
    }
}

impl BasicLoop {
    /// A new loop.
    pub fn init() -> (r: Self)
        ensures
            r == (BasicLoop {}),
    {
        BasicLoop {}
    }

    /// What the loop does on `event`.
    pub fn step(&self, event: LoopEvent) -> (r: LoopStep)
        ensures
            r == loop_step(event),
    {
        match event {
            LoopEvent::MainEventsCleared => LoopStep {
                run_pending_tasks: true,
                update_input: false,
                control_flow: ControlFlowKind::Poll,
            },
            LoopEvent::WindowEvent { close_requested } => LoopStep {
                run_pending_tasks: false,
                update_input: true,
                control_flow: if close_requested {
                    ControlFlowKind::Exit
                } else {
                    ControlFlowKind::Poll
                },
            },
            LoopEvent::Other => LoopStep {
                run_pending_tasks: false,
                update_input: false,
                control_flow: ControlFlowKind::Poll,
            },
        }
    }
}

} // verus!
