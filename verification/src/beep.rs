//! Tones for an external tone generator: what to sound, after how long a
//! wait, and for how long.

use crate::note::Note;
use std::time::Duration;
use vstd::prelude::*;

verus! {

/// The span of `secs` whole seconds.
pub uninterp spec fn seconds(secs: u64) -> Duration;

/// `Duration::from_secs` builds the span of that many whole seconds. It has
/// no other input, so equal arguments give equal spans.
pub assume_specification[ Duration::from_secs ](secs: u64) -> (d: Duration)
    ensures
        d == seconds(secs),
;

/// One tone: its frequency in whole hertz, the wait before it starts and how
/// long it sounds.
#[derive(Copy, Clone)]
pub struct Beep {
    pub frequency: u32,
    pub delay: Duration,
    pub duration: Duration,
}

impl Beep {
    /// A tone of `frequency` hertz that starts at once.
    pub fn new(frequency: u32, duration: Duration) -> (beep: Beep)
        ensures
            beep == (Beep { frequency, delay: seconds(0), duration }),
    {
        Beep { frequency, delay: Duration::from_secs(0), duration }
    }

    /// The tone of `note`, at its frequency rounded down to whole hertz.
    pub fn from_note(note: Note, duration: Duration) -> (beep: Beep)
        requires
            note.wf(),
        ensures
            beep == (Beep {
                frequency: (note.spec_centihertz() / 100) as u32,
                delay: seconds(0),
                duration,
            }),
    {
        Beep::new(note.hertz(), duration)
    }

    /// The same tone after a wait of `delay`.
    pub fn with_delay(self, delay: Duration) -> (beep: Beep)
        ensures
            beep == (Beep { delay, ..self }),
    {
        Beep { delay, ..self }
    }
}

/// A step of the task that sounds one beep on the external tone generator.
/// The task carries out one step after the other, from [`Action::first`] on,
/// and asks [`Action::next`] what follows each.
#[derive(Copy, Clone, Debug, PartialEq, Eq, Structural)]
pub enum Action {
    /// Wait out the beep's delay.
    Sleep,
    /// Start the tone generator.
    Spawn,
    /// Look at the clock and at the cancellation flag while the tone sounds.
    Poll,
    /// Stop the tone generator. A failure to do so is reported unless the
    /// stop is `silent`.
    Kill { silent: bool },
    /// Hand the failure of the last step to whoever waits for the task.
    Report,
    /// Nothing is left to do.
    Finish,
}

/// What the task saw when it had carried out a step.
#[derive(Copy, Clone, Debug, PartialEq, Eq, Structural)]
pub struct Seen {
    /// The step failed.
    pub failed: bool,
    /// The beep has sounded for its whole duration.
    pub elapsed: bool,
    /// Another task has failed, and this one is asked to stop early.
    pub cancelled: bool,
}

impl Action {
    /// The step that follows `self`, given what was seen after it.
    ///
    /// A cancelled task starts no tone. A tone that failed to start is
    /// reported. A tone that sounds is stopped when its time is up, or
    /// silently as soon as the task is cancelled; only the timely stop
    /// reports its failure.
    pub open spec fn spec_next(self, seen: Seen) -> Action {
        match self {
            Action::Sleep => if seen.cancelled {
                Action::Finish
            } else {
                Action::Spawn
            },
            Action::Spawn => if seen.failed {
                Action::Report
            } else {
                Action::Poll
            },
            Action::Poll => if seen.elapsed {
                Action::Kill { silent: false }
            } else if seen.cancelled {
                Action::Kill { silent: true }
            } else {
                Action::Poll
            },
            Action::Kill { silent } => if seen.failed && !silent {
                Action::Report
            } else {
                Action::Finish
            },
            Action::Report => Action::Finish,
            Action::Finish => Action::Finish,
        }
    }

    /// Whether the tone generator runs once `self` has been carried out with
    /// `seen`.
    pub open spec fn leaves_tone_on(self, seen: Seen) -> bool {
        match self {
            Action::Spawn => !seen.failed,
            Action::Poll => true,
            _ => false,
        }
    }

    /// The step a task begins with.
    pub fn first() -> (a: Action)
        ensures
            a == Action::Sleep,
    {
        Action::Sleep
    }

    /// The step that follows `self`, given what was seen after it.
    pub fn next(self, seen: Seen) -> (a: Action)
        ensures
            a == self.spec_next(seen),
    {
        match self {
            Action::Sleep => if seen.cancelled {
                Action::Finish
            } else {
                Action::Spawn
            },
            Action::Spawn => if seen.failed {
                Action::Report
            } else {
                Action::Poll
            },
            Action::Poll => if seen.elapsed {
                Action::Kill { silent: false }
            } else if seen.cancelled {
                Action::Kill { silent: true }
            } else {
                Action::Poll
            },
            Action::Kill { silent } => if seen.failed && !silent {
                Action::Report
            } else {
                Action::Finish
            },
            Action::Report => Action::Finish,
            Action::Finish => Action::Finish,
        }
    }
}

/// While the tone generator runs, the task neither ends nor starts a second
/// tone: it goes on polling or stops the tone.
pub proof fn sounding_tone_is_stopped(action: Action, seen: Seen)
    requires
        action.leaves_tone_on(seen),
    ensures
        action.spec_next(seen) is Poll || action.spec_next(seen) is Kill,
{
}

/// Only a step that failed is reported, and a cancelled task reports no
/// failure to stop its tone.
pub proof fn only_failures_are_reported(action: Action, seen: Seen)
    requires
        action.spec_next(seen) is Report,
    ensures
        seen.failed,
        action is Spawn || action == (Action::Kill { silent: false }),
{
}

} // verus!
