//! The decisions of the render loop: which events end the program, which
//! let a frame be drawn, and when the next frame is due.
use vstd::prelude::*;
use crate::input::{Action, KeyInput, spec_escape_action, escape_action};

verus! {

/// The nanoseconds between two frames: a frame rate of 60 per second.
pub const FRAME_NANOS: u64 = 16_666_667;

/// The events of the window system that the loop tells apart.
#[derive(Clone, Copy, Debug, PartialEq, Eq, Structural)]
pub enum LoopEvent {
    /// The window is asked to close.
    CloseRequested,
    /// A key went down or up in the window.
    Keyboard(KeyInput),
    /// The time to wait for has come.
    ResumeTimeReached,
    /// The loop starts.
    Init,
    /// Any other event that lives as long as the loop.
    Other,
    /// An event that borrows from the window system and cannot be kept.
    Transient,
}

/// What the loop does with one event.
#[derive(Clone, Copy, Debug, PartialEq, Eq, Structural)]
pub struct LoopStep {
    /// The program is asked to end.
    pub exit: bool,
    /// The loop context is set up before anything else is drawn.
    pub setup: bool,
    /// The event is handed to the loop context and then to the frame.
    pub deliver: bool,
    /// A frame is drawn.
    pub render: bool,
}

/// A close request or a released Escape ends the program; the start of the
/// loop sets up the context; the start of the loop and each due frame time
/// draw a frame; every event that can be kept is delivered, and an event that
/// cannot be kept is not delivered but still draws a frame.
pub open spec fn spec_loop_step(event: LoopEvent) -> LoopStep {
    match event {
        LoopEvent::CloseRequested => LoopStep { exit: true, setup: false, deliver: true, render: false },
        LoopEvent::Keyboard(input) => LoopStep {
            exit: spec_escape_action(input) == Some(Action::Stop),
            setup: false,
            deliver: true,
            render: false,
        },
        LoopEvent::ResumeTimeReached => LoopStep { exit: false, setup: false, deliver: true, render: true },
        LoopEvent::Init => LoopStep { exit: false, setup: true, deliver: true, render: true },
        LoopEvent::Other => LoopStep { exit: false, setup: false, deliver: true, render: false },
        LoopEvent::Transient => LoopStep { exit: false, setup: false, deliver: false, render: true },
    }
}

/// What the loop does with one event.
pub fn loop_step(event: LoopEvent) -> (s: LoopStep)
    ensures
        s == spec_loop_step(event),
{
    match event {
        LoopEvent::CloseRequested => LoopStep { exit: true, setup: false, deliver: true, render: false },
        LoopEvent::Keyboard(input) => {
            let exit = match escape_action(input) {
                Some(Action::Stop) => true,
                _ => false,
            };
            LoopStep { exit, setup: false, deliver: true, render: false }
        },
        LoopEvent::ResumeTimeReached => LoopStep { exit: false, setup: false, deliver: true, render: true },
        LoopEvent::Init => LoopStep { exit: false, setup: true, deliver: true, render: true },
        LoopEvent::Other => LoopStep { exit: false, setup: false, deliver: true, render: false },
        LoopEvent::Transient => LoopStep { exit: false, setup: false, deliver: false, render: true },
    }
}

/// What follows a drawn frame.
#[derive(Clone, Copy, Debug, PartialEq, Eq, Structural)]
pub enum FrameControl {
    /// Wait this many nanoseconds after the frame began, then draw the next.
    WaitNanos(u64),
    /// End the program.
    Exit,
}

/// A frame that asks to continue schedules the next one a frame time after
/// it began; a frame that asks to stop ends the program.
pub fn frame_control(action: Action) -> (c: FrameControl)
    ensures
        c == match action {
            Action::Continue => FrameControl::WaitNanos(FRAME_NANOS),
            Action::Stop => FrameControl::Exit,
        },
{
    match action {
        Action::Continue => FrameControl::WaitNanos(FRAME_NANOS),
        Action::Stop => FrameControl::Exit,
    }
}

} // verus!
