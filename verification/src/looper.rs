//! The interactive loop's state machine: Running until a quit event or
//! an escape key arrives, then Terminating. The surrounding program
//! polls the events, performs the per-frame work while Running, and
//! exits on Terminating.

use vstd::prelude::*;

verus! {

/// The control states of the interactive loop.
#[derive(Clone, Copy, PartialEq, Eq, Structural, Debug)]
pub enum LoopState {
    Running,
    Terminating,
}

/// A discrete input event, as the loop sees it: a window-close
/// request, a key press (escape or not), or anything else.
#[derive(Clone, Copy, PartialEq, Eq, Structural, Debug)]
pub enum InputEvent {
    Quit,
    KeyDown { escape: bool },
    Other,
}

/// Whether one event asks the loop to stop.
pub open spec fn wants_exit(e: InputEvent) -> bool {
    match e {
        InputEvent::Quit => true,
        InputEvent::KeyDown { escape } => escape,
        InputEvent::Other => false,
    }
}

impl LoopState {
    /// Drain a frame's events into the next control state: once
    /// Terminating, always Terminating; otherwise Terminating exactly
    /// when some drained event asks to stop.
    pub fn drain_events(self, events: &Vec<InputEvent>) -> (r: LoopState)
        ensures
            r == LoopState::Terminating <==> (self == LoopState::Terminating || exists|i: int|
                0 <= i < events@.len() && wants_exit(#[trigger] events@[i])),
    {
        match self {
            LoopState::Terminating => LoopState::Terminating,
            LoopState::Running => {
                let n = events.len();
                let mut i: usize = 0;
                while i < n
                    invariant
                        n == events@.len(),
                        i <= n,
                        forall|j: int| 0 <= j < i ==> !wants_exit(#[trigger] events@[j]),
                    decreases n - i,
                {
                    let stop = match events[i] {
                        InputEvent::Quit => true,
                        InputEvent::KeyDown { escape } => escape,
                        InputEvent::Other => false,
                    };
                    if stop {
                        return LoopState::Terminating;
                    }
                    i = i + 1;
                }
                LoopState::Running
            },
        }
    }
}

} // verus!
