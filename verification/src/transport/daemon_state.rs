//! How a daemon decides whom to serve, and when to stop.

use crate::text::join_all;
use vstd::prelude::*;
use vstd::string::*;

verus! {

/// What a daemon knows of its connections.
#[derive(Debug, Clone, Copy, PartialEq, Eq, Structural)]
pub struct ConnState {
    /// How many are being served.
    pub active: usize,
    /// How many were ever served: what tells a daemon that stayed idle from one
    /// that was visited in between.
    pub generation: u64,
    /// Whether the daemon is on its way out.
    pub shutdown: bool,
}

impl Default for ConnState {
    fn default() -> (r: Self)
        ensures
            r == (ConnState { active: 0, generation: 0, shutdown: false }),
    {
        ConnState { active: 0, generation: 0, shutdown: false }
    }
}

/// What became of a connection that was just accepted.
#[derive(Debug, Clone, Copy, PartialEq, Eq, Structural)]
pub enum Admission {
    /// It is served, and counted.
    Admitted,
    /// As many are served as may be.
    Full,
    /// The daemon serves nobody any more.
    ShuttingDown,
}

/// What becomes of a connection.
pub open spec fn admission(state: ConnState, max: usize) -> Admission {
    if state.shutdown {
        Admission::ShuttingDown
    } else if state.active >= max {
        Admission::Full
    } else {
        Admission::Admitted
    }
}

/// What is known after a connection arrived.
pub open spec fn after_arrival(state: ConnState, max: usize) -> ConnState {
    if admission(state, max) == Admission::Admitted {
        ConnState {
            active: (state.active + 1) as usize,
            generation: (state.generation + 1) as u64,
            shutdown: false,
        }
    } else {
        state
    }
}

/// What is known after a connection left.
pub open spec fn after_leaving(state: ConnState) -> ConnState {
    ConnState {
        active: if state.active == 0 {
            0
        } else {
            (state.active - 1) as usize
        },
        ..state
    }
}

impl ConnState {
    /// Takes a slot for a connection, or says why not. One that is refused
    /// costs no slot, and does not count as a visit.
    pub fn try_admit(&mut self, max: usize) -> (r: Admission)
        requires
            old(self).generation < u64::MAX,
        ensures
            r == admission(*old(self), max),
            *final(self) == after_arrival(*old(self), max),
    {
        if self.shutdown {
            return Admission::ShuttingDown;
        }
        if self.active >= max {
            return Admission::Full;
        }
        self.active = self.active + 1;
        self.generation = self.generation + 1;
        Admission::Admitted
    }

    /// Gives a slot back.
    pub fn release(&mut self)
        ensures
            *final(self) == after_leaving(*old(self)),
    {
        if self.active > 0 {
            self.active = self.active - 1;
        }
    }

    /// Starts the daemon's way out. Every listener is to be woken after this,
    /// so that what the waking brings in is refused.
    pub fn request_shutdown(&mut self)
        ensures
            *final(self) == (ConnState { shutdown: true, ..*old(self) }),
    {
        self.shutdown = true;
    }
}

/// The ceiling holds: where no more than `max` connections are served, no more
/// than `max` are served after another one arrives.
pub proof fn law_the_ceiling_holds(state: ConnState, max: usize)
    requires
        state.active <= max,
    ensures
        admission(state, max) == Admission::Admitted ==> state.active + 1 <= max,
        admission(state, max) == Admission::Full ==> state.active == max,
        state.shutdown ==> admission(state, max) == Admission::ShuttingDown,
{
}

/// What the idle watcher is waiting for.
#[derive(Debug, Clone, Copy, PartialEq, Eq, Structural)]
pub enum Watch {
    /// The last connection to end.
    Busy,
    /// A whole window without a visit, from this generation on.
    Window(u64),
    /// The application's word, after a window that began at this generation.
    Asking(u64),
}

/// What the idle watcher learns.
#[derive(Debug, Clone, Copy, PartialEq, Eq, Structural)]
pub enum WatchEvent {
    /// Something about the connections changed, or watching begins.
    Woken,
    /// The window passed.
    WindowPassed,
    /// The application says whether it has work in hand.
    Answered(bool),
}

/// What the idle watcher does next.
#[derive(Debug, Clone, Copy, PartialEq, Eq, Structural)]
pub enum WatchAction {
    /// Wait for a change.
    Wait,
    /// Wait for a change, for one window at most.
    WaitWindow,
    /// Ask the application, with the state not locked.
    Ask,
    /// Stop the daemon.
    Stop,
    /// End the watching: the daemon is stopping already.
    End,
}

/// The watcher starts over with what it sees.
pub open spec fn look_again(state: ConnState) -> (Watch, WatchAction) {
    if state.active > 0 {
        (Watch::Busy, WatchAction::Wait)
    } else {
        (Watch::Window(state.generation), WatchAction::WaitWindow)
    }
}

/// Whether nobody came since a window began.
pub open spec fn undisturbed(state: ConnState, since: u64) -> bool {
    state.active == 0 && state.generation == since
}

/// What the watcher does, by what it waited for and what it learned.
pub open spec fn watch_step(
    state: ConnState,
    watch: Watch,
    event: WatchEvent,
    has_check: bool,
) -> (Watch, WatchAction) {
    if state.shutdown {
        (watch, WatchAction::End)
    } else {
        match (watch, event) {
            (Watch::Window(since), WatchEvent::WindowPassed) => if !undisturbed(state, since) {
                look_again(state)
            } else if has_check {
                (Watch::Asking(since), WatchAction::Ask)
            } else {
                (watch, WatchAction::Stop)
            },
            (Watch::Asking(since), WatchEvent::Answered(busy)) => if busy || !undisturbed(
                state,
                since,
            ) {
                look_again(state)
            } else {
                (watch, WatchAction::Stop)
            },
            _ => look_again(state),
        }
    }
}

/// Decides the idle watcher's next step. `has_check` says whether the
/// application wants to be asked before the daemon stops.
pub fn idle_step(state: &ConnState, watch: Watch, event: WatchEvent, has_check: bool) -> (r: (
    Watch,
    WatchAction,
))
    ensures
        r == watch_step(*state, watch, event, has_check),
{
    if state.shutdown {
        return (watch, WatchAction::End);
    }
    match (watch, event) {
        (Watch::Window(since), WatchEvent::WindowPassed) => {
            if state.active == 0 && state.generation == since {
                if has_check {
                    return (Watch::Asking(since), WatchAction::Ask);
                }
                return (watch, WatchAction::Stop);
            }
        },
        (Watch::Asking(since), WatchEvent::Answered(busy)) => {
            if !busy && state.active == 0 && state.generation == since {
                return (watch, WatchAction::Stop);
            }
        },
        _ => {},
    }
    if state.active > 0 {
        (Watch::Busy, WatchAction::Wait)
    } else {
        (Watch::Window(state.generation), WatchAction::WaitWindow)
    }
}

/// The watcher stops only a daemon that nobody is using, that nobody visited
/// for a whole window, and whose application has nothing in hand.
pub proof fn law_only_an_idle_daemon_is_stopped(
    state: ConnState,
    watch: Watch,
    event: WatchEvent,
    has_check: bool,
)
    ensures
        watch_step(state, watch, event, has_check).1 == WatchAction::Stop ==> {
            &&& !state.shutdown
            &&& state.active == 0
            &&& (watch == Watch::Window(state.generation) && event == WatchEvent::WindowPassed
                && !has_check) || (watch == Watch::Asking(state.generation) && event
                == WatchEvent::Answered(false))
        },
{
}

/// The application is asked only where the daemon would stop otherwise, and
/// never where a stop was already asked for.
pub proof fn law_the_application_is_asked_last(
    state: ConnState,
    watch: Watch,
    event: WatchEvent,
    has_check: bool,
)
    ensures
        watch_step(state, watch, event, has_check).1 == WatchAction::Ask ==> {
            &&& !state.shutdown
            &&& has_check
            &&& watch_step(state, watch, event, false).1 == WatchAction::Stop
        },
{
}

/// Every listener's name in one line.
pub fn describe(names: &Vec<String>) -> (r: String)
    ensures
        r@ == crate::text::joined(crate::text::texts(names@), ", "@),
{
    join_all(names, ", ")
}

} // verus!
