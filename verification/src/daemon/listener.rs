//! When the database listener is started again.

use vstd::prelude::*;

verus! {

/// A run of at least this many seconds counts as healthy.
pub const HEALTHY_RUN_SECS: u64 = 5;

/// The wait after a healthy run, in seconds.
pub const INITIAL_BACKOFF_SECS: u64 = 1;

/// The longest wait, in seconds.
pub const MAX_BACKOFF_SECS: u64 = 30;

/// The supervisor of the listener.
pub struct Supervisor {
    /// The wait before the last reconnect, in seconds.
    pub backoff_secs: u64,
    /// Whether a connection pool was ever created.
    pub started: bool,
}

/// What happened to the listener.
#[derive(Clone, Copy, PartialEq, Eq, Structural, Debug)]
pub enum ListenerEvent {
    /// The connection pool was created.
    PoolCreated,
    /// The connection pool could not be created.
    PoolFailed,
    /// The listener ran for this many whole seconds and ended, with an error or without.
    RunEnded { elapsed_secs: u64 },
}

/// What the supervisor does next.
#[derive(Clone, Copy, PartialEq, Eq, Structural, Debug)]
pub enum ListenerAction {
    /// Run the listener.
    Run,
    /// Wait this many seconds, and then create a new pool.
    Reconnect { after_secs: u64 },
    /// Give up.
    Fatal,
}

/// The wait after a run: back to the start after a healthy one, twice as long as before
/// otherwise, within the limit.
pub open spec fn next_backoff(backoff_secs: u64, elapsed_secs: u64) -> u64 {
    if elapsed_secs >= HEALTHY_RUN_SECS {
        INITIAL_BACKOFF_SECS
    } else if backoff_secs * 2 <= MAX_BACKOFF_SECS {
        (backoff_secs * 2) as u64
    } else {
        MAX_BACKOFF_SECS
    }
}

/// The supervisor after an event, and what it does.
pub open spec fn supervised(backoff_secs: u64, started: bool, event: ListenerEvent) -> (
    u64,
    bool,
    ListenerAction,
) {
    match event {
        ListenerEvent::PoolCreated => (backoff_secs, true, ListenerAction::Run),
        ListenerEvent::PoolFailed => if started {
            let next = next_backoff(backoff_secs, 0);
            (next, true, ListenerAction::Reconnect { after_secs: next })
        } else {
            (backoff_secs, false, ListenerAction::Fatal)
        },
        ListenerEvent::RunEnded { elapsed_secs } => {
            let next = next_backoff(backoff_secs, elapsed_secs);
            (next, started, ListenerAction::Reconnect { after_secs: next })
        },
    }
}

impl Supervisor {
    /// The wait is between the shortest and the longest.
    pub open spec fn wf(self) -> bool {
        INITIAL_BACKOFF_SECS <= self.backoff_secs <= MAX_BACKOFF_SECS
    }

    /// A supervisor that has not started anything.
    pub fn new() -> (supervisor: Self)
        ensures
            supervisor.wf(),
            supervisor.backoff_secs == INITIAL_BACKOFF_SECS,
            !supervisor.started,
    {
        Supervisor { backoff_secs: INITIAL_BACKOFF_SECS, started: false }
    }

    /// Decide what to do after an event. Only the first pool is worth giving up over: later
    /// failures are taken for passing ones.
    pub fn on_event(&mut self, event: ListenerEvent) -> (action: ListenerAction)
        requires
            old(self).wf(),
        ensures
            final(self).wf(),
            (final(self).backoff_secs, final(self).started, action) == supervised(
                old(self).backoff_secs,
                old(self).started,
                event,
            ),
    {
        match event {
            ListenerEvent::PoolCreated => {
                self.started = true;
                ListenerAction::Run
            },
            ListenerEvent::PoolFailed => {
                if self.started {
                    self.grow(0)
                } else {
                    ListenerAction::Fatal
                }
            },
            ListenerEvent::RunEnded { elapsed_secs } => self.grow(elapsed_secs),
        }
    }

    /// Settle on the wait after a run.
    fn grow(&mut self, elapsed_secs: u64) -> (action: ListenerAction)
        requires
            old(self).wf(),
        ensures
            final(self).wf(),
            final(self).started == old(self).started,
            final(self).backoff_secs == next_backoff(old(self).backoff_secs, elapsed_secs),
            action == (ListenerAction::Reconnect { after_secs: final(self).backoff_secs }),
    {
        if elapsed_secs >= HEALTHY_RUN_SECS {
            self.backoff_secs = INITIAL_BACKOFF_SECS;
        } else if self.backoff_secs * 2 <= MAX_BACKOFF_SECS {
            self.backoff_secs = self.backoff_secs * 2;
        } else {
            self.backoff_secs = MAX_BACKOFF_SECS;
        }
        ListenerAction::Reconnect { after_secs: self.backoff_secs }
    }
}

/// Every wait is between the shortest and the longest, and without a healthy run it never
/// gets shorter.
pub proof fn law_backoff_stays_within_limits(backoff_secs: u64, elapsed_secs: u64)
    requires
        INITIAL_BACKOFF_SECS <= backoff_secs <= MAX_BACKOFF_SECS,
    ensures
        INITIAL_BACKOFF_SECS <= next_backoff(backoff_secs, elapsed_secs) <= MAX_BACKOFF_SECS,
        elapsed_secs < HEALTHY_RUN_SECS ==> next_backoff(backoff_secs, elapsed_secs)
            >= backoff_secs,
{
}

/// Once a pool was created, nothing makes the supervisor give up.
pub proof fn law_started_supervisor_never_gives_up(backoff_secs: u64, event: ListenerEvent)
    ensures
        supervised(backoff_secs, true, event).1,
        supervised(backoff_secs, true, event).2 != ListenerAction::Fatal,
{
}

/// What the supervisor does after each event, by the numbers. A run of five seconds or more
/// is followed by a wait of one; a shorter one, or a failure after the start, by twice the
/// last wait and thirty at most. Only a failure before the start is fatal.
pub proof fn law_supervisor_by_numbers(backoff_secs: u64, started: bool, event: ListenerEvent)
    requires
        1 <= backoff_secs <= 30,
    ensures
        ({
            let (next, now_started, action) = supervised(backoff_secs, started, event);
            let longer: int = if backoff_secs < 15 {
                backoff_secs + backoff_secs
            } else {
                30
            };
            match event {
                ListenerEvent::PoolCreated => {
                    action == ListenerAction::Run && now_started && next == backoff_secs
                },
                ListenerEvent::PoolFailed => if started {
                    &&& action == ListenerAction::Reconnect { after_secs: next }
                    &&& now_started
                    &&& next == longer
                } else {
                    action == ListenerAction::Fatal && !now_started && next == backoff_secs
                },
                ListenerEvent::RunEnded { elapsed_secs } => {
                    &&& action == ListenerAction::Reconnect { after_secs: next }
                    &&& now_started == started
                    &&& next == if elapsed_secs >= 5 {
                        1
                    } else {
                        longer
                    }
                },
            }
        }),
{
}

} // verus!
