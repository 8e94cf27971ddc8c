//! The order of the steps of the monitor's refresh cycle: draw, wait for
//! input (a bounded poll), refresh the metrics, sleep; then again while the
//! monitor runs. The caller performs each step and reports its end here.
use crate::input::{requests_quit, AppState, InputEvent};
use vstd::prelude::*;

verus! {

/// The step that the caller performs next.
#[derive(PartialEq, Eq, Structural, Clone, Copy, Debug)]
pub enum Step {
    /// Draw the dashboard.
    Draw,
    /// Wait for one input event, for a bounded time.
    Poll,
    /// Refresh the metrics.
    Refresh,
    /// Sleep until the next cycle.
    Sleep,
    /// Leave the loop.
    Exit,
}

/// Where the run loop stands.
#[derive(PartialEq, Eq, Structural, Clone, Copy, Debug)]
pub struct RunLoop {
    pub state: AppState,
    pub next: Step,
}

/// The step after `s`; a cycle ends by going round again only while the
/// monitor runs.
pub open spec fn step_after(s: Step, running: bool) -> Step {
    match s {
        Step::Draw => Step::Poll,
        Step::Poll => Step::Refresh,
        Step::Refresh => Step::Sleep,
        Step::Sleep => if running {
            Step::Draw
        } else {
            Step::Exit
        },
        Step::Exit => Step::Exit,
    }
}

/// The loop after its current step ends; `event` is what the poll saw, and
/// counts only at the end of a poll.
pub open spec fn after(l: RunLoop, event: Option<InputEvent>) -> RunLoop {
    let running = match (l.next, event) {
        (Step::Poll, Some(e)) => l.state.running && !requests_quit(e),
        _ => l.state.running,
    };
    RunLoop { state: AppState { running }, next: step_after(l.next, running) }
}

/// The loop after its steps end one by one, with the events that the steps
/// saw.
pub open spec fn run_through(l: RunLoop, events: Seq<Option<InputEvent>>) -> RunLoop
    decreases events.len(),
{
    if events.len() == 0 {
        l
    } else {
        run_through(after(l, events[0]), events.drop_first())
    }
}

impl RunLoop {
    /// A stopped loop has finished its draw and poll.
    pub open spec fn wf(&self) -> bool {
        !self.state.running ==> (self.next != Step::Draw && self.next != Step::Poll)
    }

    /// A running loop about to draw.
    pub fn new() -> (r: RunLoop)
        ensures
            r.wf(),
            r.state.running,
            r.next == Step::Draw,
    {
        RunLoop { state: AppState::new(), next: Step::Draw }
    }

    /// Ends the current step. `event` is what the poll saw, if the step was a
    /// poll that saw one.
    pub fn complete(&mut self, event: Option<InputEvent>)
        requires
            old(self).wf(),
        ensures
            final(self).wf(),
            *final(self) == after(*old(self), event),
    {
        match self.next {
            Step::Draw => {
                self.next = Step::Poll;
            },
            Step::Poll => {
                match event {
                    Some(e) => self.state.handle_event(&e),
                    None => {},
                }
                self.next = Step::Refresh;
            },
            Step::Refresh => {
                self.next = Step::Sleep;
            },
            Step::Sleep => {
                if self.state.running {
                    self.next = Step::Draw;
                } else {
                    self.next = Step::Exit;
                }
            },
            Step::Exit => {},
        }
    }
}

/// Once the monitor has stopped, it never runs again and never draws again,
/// whatever events come, and the loop has left within two more steps.
pub proof fn lemma_stopped_never_draws(l: RunLoop, events: Seq<Option<InputEvent>>)
    requires
        l.wf(),
        !l.state.running,
    ensures
        !run_through(l, events).state.running,
        run_through(l, events).next != Step::Draw,
        events.len() >= 2 ==> run_through(l, events).next == Step::Exit,
    decreases events.len(),
{
    if events.len() > 0 {
        let n = after(l, events[0]);
        let rest = events.drop_first();
        lemma_stopped_never_draws(n, rest);
        if events.len() >= 2 {
            if l.next == Step::Exit || l.next == Step::Sleep {
                lemma_exit_stays(n, rest);
            } else {
                let m = after(n, rest[0]);
                lemma_exit_stays(m, rest.drop_first());
            }
        }
    }
}

proof fn lemma_exit_stays(l: RunLoop, events: Seq<Option<InputEvent>>)
    requires
        l.next == Step::Exit,
    ensures
        run_through(l, events).next == Step::Exit,
    decreases events.len(),
{
    if events.len() > 0 {
        lemma_exit_stays(after(l, events[0]), events.drop_first());
    }
}

} // verus!
