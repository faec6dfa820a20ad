use sml_mcps::transport::daemon_state::{
    describe, idle_step, Admission, ConnState, Watch, WatchAction, WatchEvent,
};
use sml_mcps::transport::listener::{wake_all, Listener};
use sml_mcps::transport::Transport;
use sml_mcps::types::McpError;
use std::sync::atomic::{AtomicUsize, Ordering};
use std::sync::Arc;

#[test]
fn test_a_free_slot_is_taken_and_counted() {
    let mut state = ConnState::default();

    assert_eq!(state.try_admit(2), Admission::Admitted);

    assert_eq!(state.active, 1);
    assert_eq!(
        state.generation, 1,
        "a served connection is activity the idle watcher must see"
    );
}

#[test]
fn test_a_connection_over_the_ceiling_is_refused() {
    let mut state = ConnState::default();
    assert_eq!(state.try_admit(2), Admission::Admitted);
    assert_eq!(state.try_admit(2), Admission::Admitted);

    assert_eq!(state.try_admit(2), Admission::Full, "and no more than two");
    assert_eq!(state.active, 2, "a refusal costs no slot");
    assert_eq!(
        state.generation, 2,
        "nor does it count as a client arriving"
    );
}

#[test]
fn test_a_released_slot_can_be_taken_again() {
    let mut state = ConnState::default();
    state.try_admit(1);
    assert_eq!(state.try_admit(1), Admission::Full);

    state.active -= 1;

    assert_eq!(state.try_admit(1), Admission::Admitted);
}

#[test]
fn test_a_shutdown_outranks_a_free_slot() {
    let mut state = ConnState {
        shutdown: true,
        ..Default::default()
    };

    assert_eq!(state.try_admit(64), Admission::ShuttingDown);
    assert_eq!(state.active, 0);
}

#[test]
fn test_a_ceiling_of_zero_admits_nobody() {
    assert_eq!(ConnState::default().try_admit(0), Admission::Full);
}

#[test]
fn test_admit_notifies_the_idle_watcher_only_when_it_admits() {
    let mut state = ConnState::default();
    assert_eq!(state.try_admit(1), Admission::Admitted);
    assert_eq!(state.try_admit(1), Admission::Full);
    assert_eq!(state.active, 1);

    state.release();
    assert_eq!(state.active, 0);
    assert_eq!(
        state.try_admit(1),
        Admission::Admitted,
        "the slot a failed spawn gave back is usable"
    );
}

#[test]
fn test_shutdown_requested_reads_the_shared_flag() {
    let mut state = ConnState::default();
    assert!(!state.shutdown);
    state.request_shutdown();
    assert!(state.shutdown);
}

#[test]
fn releasing_more_than_was_taken_does_no_harm() {
    let mut state = ConnState::default();
    state.release();
    assert_eq!(state.active, 0);
}

#[test]
fn test_describe_names_every_listener() {
    let names = vec![
        "recording://test".to_string(),
        "recording://test".to_string(),
    ];
    assert_eq!(describe(&names), "recording://test, recording://test");
    assert_eq!(describe(&vec![]), "");
}

const IDLE: ConnState = ConnState {
    active: 0,
    generation: 3,
    shutdown: false,
};

#[test]
fn test_the_idle_watcher_exits_a_daemon_nobody_is_using() {
    let (watch, action) = idle_step(&IDLE, Watch::Busy, WatchEvent::Woken, false);
    assert_eq!((watch, action), (Watch::Window(3), WatchAction::WaitWindow));
    let (_, action) = idle_step(&IDLE, watch, WatchEvent::WindowPassed, false);
    assert_eq!(action, WatchAction::Stop);
}

#[test]
fn test_a_busy_check_that_says_no_changes_nothing() {
    let (watch, action) = idle_step(&IDLE, Watch::Window(3), WatchEvent::WindowPassed, true);
    assert_eq!((watch, action), (Watch::Asking(3), WatchAction::Ask));
    let (_, action) = idle_step(&IDLE, watch, WatchEvent::Answered(false), true);
    assert_eq!(action, WatchAction::Stop);
}

#[test]
fn test_a_busy_application_keeps_the_daemon_alive() {
    let step = idle_step(&IDLE, Watch::Asking(3), WatchEvent::Answered(true), true);
    assert_eq!(step, (Watch::Window(3), WatchAction::WaitWindow));
}

#[test]
fn test_a_client_arriving_during_the_veto_cancels_the_exit() {
    let mut state = IDLE;
    state.try_admit(8);
    let step = idle_step(&state, Watch::Asking(3), WatchEvent::Answered(false), true);
    assert_eq!(step, (Watch::Busy, WatchAction::Wait));

    // It came and went: that is a visit too.
    state.release();
    let step = idle_step(&state, Watch::Asking(3), WatchEvent::Answered(false), true);
    assert_eq!(step, (Watch::Window(4), WatchAction::WaitWindow));
}

#[test]
fn test_the_busy_check_is_not_asked_while_a_client_is_connected() {
    let mut state = IDLE;
    state.try_admit(8);
    let step = idle_step(&state, Watch::Busy, WatchEvent::Woken, true);
    assert_eq!(step, (Watch::Busy, WatchAction::Wait));
    let step = idle_step(&state, Watch::Window(4), WatchEvent::WindowPassed, true);
    assert_eq!(step, (Watch::Busy, WatchAction::Wait));
}

#[test]
fn test_a_shutdown_already_asked_for_ends_the_watcher_without_a_veto() {
    let state = ConnState {
        shutdown: true,
        ..IDLE
    };
    for event in [
        WatchEvent::Woken,
        WatchEvent::WindowPassed,
        WatchEvent::Answered(true),
    ] {
        for watch in [Watch::Busy, Watch::Window(3), Watch::Asking(3)] {
            assert_eq!(idle_step(&state, watch, event, true).1, WatchAction::End);
        }
    }
}

/// A listener that accepts nothing and remembers being woken.
enum Knocked {
    Awake(Arc<AtomicUsize>),
    /// One that cannot be reached.
    Deaf,
}

impl Listener for Knocked {
    fn accept(&self) -> Result<Box<dyn Transport>, McpError> {
        Err(McpError::Io("this listener never accepts".to_string()))
    }
    fn wake(&self) -> Result<(), McpError> {
        match self {
            Knocked::Awake(n) => {
                n.fetch_add(1, Ordering::SeqCst);
                Ok(())
            }
            Knocked::Deaf => Err(McpError::Io("cannot reach myself".to_string())),
        }
    }
    fn describe(&self) -> String {
        "recording://test".to_string()
    }
}

#[test]
fn test_request_shutdown_flags_the_daemon_and_knocks_on_every_listener() {
    let mut state = ConnState::default();
    let woken = Arc::new(AtomicUsize::new(0));
    let listeners: Vec<Knocked> = (0..3).map(|_| Knocked::Awake(woken.clone())).collect();
    state.request_shutdown();
    let outcomes = wake_all(&listeners);
    assert!(state.shutdown);
    assert_eq!(outcomes.len(), 3);
    assert_eq!(
        woken.load(Ordering::SeqCst),
        3,
        "a listener left parked in `accept` is a daemon that cannot exit"
    );
}

#[test]
fn test_a_listener_that_will_not_wake_does_not_stop_the_others() {
    let woken = Arc::new(AtomicUsize::new(0));
    let listeners = vec![Knocked::Deaf, Knocked::Awake(woken.clone())];
    let outcomes = wake_all(&listeners);
    assert!(outcomes[0].is_err());
    assert_eq!(woken.load(Ordering::SeqCst), 1);
}
