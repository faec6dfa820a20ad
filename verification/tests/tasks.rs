use sml_mcps::calendar::{civil_from_days, describe_span, iso8601, time_left, Span, Timestamp};
use sml_mcps::json::{Json, Number};
use sml_mcps::tasks::{
    bytes_from, fallback_random_bytes, hex_text, new_task_id, random_bytes, related_task_meta, status_name,
    CreateTaskResult, ListTasksResult, TaskConfig, TaskIdParams, TaskOutcome, TaskParams,
    TaskStatus, TaskStore, RELATED_TASK,
};
use sml_mcps::tasks::TaskStatus::{Cancelled, Completed, Failed, InputRequired, Working};
use sml_mcps::types::{JsonRpcError, McpError};
use std::collections::HashSet;

const NOW: Timestamp = Timestamp {
    secs: 1_700_000_000,
    nanos: 0,
};

fn later(millis: i64) -> Timestamp {
    Timestamp {
        secs: NOW.secs + millis / 1000,
        nanos: ((millis % 1000) * 1_000_000) as u32,
    }
}

fn store() -> TaskStore {
    TaskStore::new(TaskConfig::default())
}

fn object(fields: &[(&str, Json)]) -> Json {
    Json::Object(
        fields
            .iter()
            .map(|(k, v)| (k.to_string(), v.copy()))
            .collect(),
    )
}

fn text(s: &str) -> Json {
    Json::Text(s.to_string())
}

fn number(n: u64) -> Json {
    Json::Number(Number::Unsigned(n))
}

fn value(fields: &[(&str, Json)]) -> TaskOutcome {
    TaskOutcome::Value(object(fields))
}

#[test]
fn terminal_statuses_are_the_three_the_spec_names() {
    assert!(TaskStatus::Completed.is_terminal());
    assert!(TaskStatus::Failed.is_terminal());
    assert!(TaskStatus::Cancelled.is_terminal());
    assert!(!TaskStatus::Working.is_terminal());
    assert!(!TaskStatus::InputRequired.is_terminal());
}

#[test]
fn transitions_follow_the_state_diagram() {
    for next in [InputRequired, Completed, Failed, Cancelled] {
        assert!(Working.can_transition_to(next), "working -> {next:?}");
    }
    assert!(!Working.can_transition_to(Working));

    for next in [Working, Completed, Failed, Cancelled] {
        assert!(InputRequired.can_transition_to(next), "input -> {next:?}");
    }

    for terminal in [Completed, Failed, Cancelled] {
        for next in [Working, InputRequired, Completed, Failed, Cancelled] {
            assert!(
                !terminal.can_transition_to(next),
                "{terminal:?} -> {next:?}"
            );
        }
    }
}

#[test]
fn status_wire_names_are_snake_case() {
    assert_eq!(status_name(TaskStatus::InputRequired), "input_required");
    assert_eq!(status_name(TaskStatus::Working), "working");
}

#[test]
fn create_starts_in_working_with_required_fields() {
    let mut store = store();
    let task = store.create(None, NOW).unwrap();

    assert_eq!(task.status, TaskStatus::Working);
    assert!(!store.is_cancelled(&task.task_id));
    assert!(task.created_at.ends_with('Z'));
    assert_eq!(task.created_at, task.last_updated_at);
    assert_eq!(task.ttl, Some(300_000));
    assert_eq!(task.poll_interval, Some(1_000));
}

#[test]
fn create_is_immediately_visible_to_get() {
    let mut store = store();
    let task = store.create(None, NOW).unwrap();
    assert_eq!(
        store.get(&task.task_id, NOW).unwrap().status,
        TaskStatus::Working
    );
}

#[test]
fn requested_ttl_is_honored_and_clamped() {
    let mut store = TaskStore::new(TaskConfig {
        max_ttl_ms: 60_000,
        ..Default::default()
    });

    assert_eq!(store.create(Some(30_000), NOW).unwrap().ttl, Some(30_000));
    assert_eq!(
        store.create(Some(999_999_999), NOW).unwrap().ttl,
        Some(60_000)
    );
}

#[test]
fn concurrency_is_bounded() {
    let mut store = TaskStore::new(TaskConfig {
        max_concurrent: 2,
        ..Default::default()
    });

    let first = store.create(None, NOW).unwrap();
    store.create(None, NOW).unwrap();
    let error = store.create(None, NOW).unwrap_err();
    assert_eq!(
        error.to_string(),
        "Internal error: too many tasks in flight (2/2)"
    );

    store.finish(&first.task_id, TaskStatus::Completed, value(&[]), NOW);
    assert!(store.create(None, NOW).is_ok());
}

#[test]
fn task_ids_are_unique_and_high_entropy() {
    let ids: HashSet<String> = (0..1000).map(|n| new_task_id(n, NOW).0).collect();
    assert_eq!(ids.len(), 1000, "task ids must not repeat");

    for id in ids.iter().take(10) {
        assert_eq!(id.len(), 32, "128 bits as hex");
        assert!(id.chars().all(|c| c.is_ascii_hexdigit()));
    }
}

#[test]
fn task_ids_are_not_sequential() {
    let a = new_task_id(0, NOW).0;
    let b = new_task_id(0, NOW).0;
    let shared = a.chars().zip(b.chars()).take_while(|(x, y)| x == y).count();
    assert!(shared < 8, "ids {a} and {b} share {shared} leading chars");
}

#[test]
fn fallback_entropy_is_also_unique() {
    let ids: HashSet<Vec<u8>> = (0..1000).map(|n| fallback_random_bytes(n, NOW)).collect();
    assert_eq!(ids.len(), 1000);
}

#[test]
fn os_entropy_is_available_on_this_platform() {
    let mut bytes = [0u8; 16];
    assert!(
        getrandom::fill(&mut bytes).is_ok(),
        "getrandom must work on a supported target"
    );
}

#[test]
fn every_bit_of_a_task_id_varies() {
    let mut ones = [0u32; 128];
    const SAMPLES: u32 = 256;

    for _ in 0..SAMPLES {
        let (bytes, warning) = random_bytes(0, NOW);
        assert_eq!(warning, None);
        for (index, slot) in ones.iter_mut().enumerate() {
            if bytes[index / 8] & (1 << (index % 8)) != 0 {
                *slot += 1;
            }
        }
    }

    for (index, count) in ones.iter().enumerate() {
        assert!(*count > 0, "bit {index} was never set");
        assert!(*count < SAMPLES, "bit {index} was always set");
    }
}

#[test]
fn finish_records_the_outcome() {
    let mut store = store();
    let task = store.create(None, NOW).unwrap();

    store.finish(
        &task.task_id,
        TaskStatus::Completed,
        value(&[("done", Json::Bool(true))]),
        NOW,
    );

    assert_eq!(
        store.get(&task.task_id, NOW).unwrap().status,
        TaskStatus::Completed
    );
    let Some(TaskOutcome::Value(value)) = store.peek_result(&task.task_id).unwrap() else {
        panic!("expected a value");
    };
    assert_eq!(value.get("done"), Some(&Json::Bool(true)));
}

#[test]
fn finish_records_error_outcomes_and_a_status_message() {
    let mut store = store();
    let task = store.create(None, NOW).unwrap();

    store.finish(
        &task.task_id,
        TaskStatus::Failed,
        TaskOutcome::Error(JsonRpcError::internal_error("API rate limit exceeded")),
        NOW,
    );

    let fetched = store.get(&task.task_id, NOW).unwrap();
    assert_eq!(fetched.status, TaskStatus::Failed);
    assert!(fetched
        .status_message
        .unwrap()
        .contains("API rate limit exceeded"));
}

#[test]
fn finish_cannot_move_a_terminal_task() {
    let mut store = store();
    let task = store.create(None, NOW).unwrap();

    store.cancel(&task.task_id, NOW).unwrap();
    store.finish(&task.task_id, TaskStatus::Completed, value(&[]), NOW);

    assert_eq!(
        store.get(&task.task_id, NOW).unwrap().status,
        TaskStatus::Cancelled
    );
}

#[test]
fn finish_on_a_swept_task_is_not_an_error() {
    let mut store = store();
    store.finish("gone", TaskStatus::Completed, value(&[]), NOW);
    assert!(store.list(NOW).is_empty());
}

#[test]
fn last_updated_at_is_always_present() {
    let mut store = store();
    let task = store.create(None, NOW).unwrap();
    store.set_status_message(&task.task_id, "halfway".to_string(), later(2000));

    let fetched = store.get(&task.task_id, later(2000)).unwrap();
    assert!(fetched.last_updated_at.ends_with('Z'));
    assert_eq!(fetched.status_message.as_deref(), Some("halfway"));
    assert_eq!(fetched.status, TaskStatus::Working);
    assert_eq!(fetched.created_at, "2023-11-14T22:13:20Z");
    assert_eq!(fetched.last_updated_at, "2023-11-14T22:13:22Z");
}

#[test]
fn cancel_moves_to_cancelled_and_signals_the_worker() {
    let mut store = store();
    let task = store.create(None, NOW).unwrap();

    let result = store.cancel(&task.task_id, NOW).unwrap();
    assert_eq!(result.status, TaskStatus::Cancelled);
    assert!(store.is_cancelled(&task.task_id));
}

#[test]
fn cancelling_a_terminal_task_is_invalid_params() {
    let mut store = store();
    let task = store.create(None, NOW).unwrap();
    store.finish(&task.task_id, TaskStatus::Completed, value(&[]), NOW);

    let err = store.cancel(&task.task_id, NOW).unwrap_err();
    assert_eq!(err.to_jsonrpc_error().code, -32602);
    assert!(err.to_string().contains("terminal"), "{err:?}");
    assert!(err.to_string().ends_with("'completed'"), "{err:?}");
}

#[test]
fn cancelling_an_unknown_task_is_invalid_params() {
    let err = store().cancel("nope", NOW).unwrap_err();
    assert_eq!(err.to_jsonrpc_error().code, -32602);
}

#[test]
fn a_cancelled_task_yields_its_error_from_result() {
    let mut store = store();
    let task = store.create(None, NOW).unwrap();
    store.cancel(&task.task_id, NOW).unwrap();

    let Some(TaskOutcome::Error(error)) = store.peek_result(&task.task_id).unwrap() else {
        panic!("expected an error outcome");
    };
    assert!(error.message.contains("cancelled"));
}

#[test]
fn unknown_tasks_are_invalid_params_everywhere() {
    let mut store = store();
    for err in [
        store.get("nope", NOW).unwrap_err(),
        store.peek_result("nope").unwrap_err(),
        store.cancel("nope", NOW).unwrap_err(),
    ] {
        assert_eq!(err.to_jsonrpc_error().code, -32602);
        assert!(err.to_string().contains("not found"), "{err:?}");
    }
}

#[test]
fn expired_tasks_are_swept() {
    let mut store = TaskStore::new(TaskConfig {
        default_ttl_ms: 0,
        ..Default::default()
    });
    let task = store.create(None, NOW).unwrap();

    let err = store.get(&task.task_id, NOW).unwrap_err();
    assert!(err.to_string().contains("not found"));
}

#[test]
fn a_live_ttl_keeps_the_task() {
    let mut store = store();
    let task = store.create(None, NOW).unwrap();
    assert!(store.get(&task.task_id, NOW).is_ok());
    assert_eq!(store.list(NOW).len(), 1);
}

#[test]
fn a_task_lives_exactly_as_long_as_it_was_granted() {
    let mut store = store();
    let task = store.create(Some(1500), NOW).unwrap();
    let almost = Timestamp {
        secs: NOW.secs + 1,
        nanos: 499_999_999,
    };
    assert!(store.get(&task.task_id, almost).is_ok());
    // A clock that went back ends nothing.
    assert!(store
        .get(&task.task_id, Timestamp::from_secs(0))
        .is_ok());
    assert!(store.get(&task.task_id, later(1500)).is_err());
}

#[test]
fn expiry_frees_concurrency_slots() {
    let mut store = TaskStore::new(TaskConfig {
        default_ttl_ms: 0,
        max_concurrent: 1,
        ..Default::default()
    });
    store.create(None, NOW).unwrap();
    assert!(store.create(None, NOW).is_ok());
}

#[test]
fn list_returns_every_live_task_in_stable_order() {
    let mut store = store();
    let ids: Vec<String> = (0..3)
        .map(|_| store.create(None, NOW).unwrap().task_id)
        .collect();

    let listed = store.list(NOW);
    assert_eq!(listed.len(), 3);
    for id in &ids {
        assert!(listed.iter().any(|t| &t.task_id == id));
    }

    assert_eq!(
        store
            .list(NOW)
            .iter()
            .map(|t| t.task_id.clone())
            .collect::<Vec<_>>(),
        listed
            .iter()
            .map(|t| t.task_id.clone())
            .collect::<Vec<_>>()
    );
}

#[test]
fn the_newest_task_is_listed_first_and_ties_go_by_id() {
    let mut store = store();
    for (id, at) in [("b", 0), ("c", 5000), ("a", 0)] {
        store
            .create_with_id(None, later(at), id.to_string(), None)
            .unwrap();
    }
    let ids: Vec<String> = store
        .list(later(5000))
        .into_iter()
        .map(|t| t.task_id)
        .collect();
    assert_eq!(ids, ["c", "a", "b"]);
}

#[test]
fn tasks_are_listed_for_their_owner_only() {
    let mut store = store();
    let alice = Some("alice".to_string());
    let mine = store.create_for(None, NOW, alice.clone()).unwrap();
    store.create(None, NOW).unwrap();
    let listed = store.list_for(&alice, NOW);
    assert_eq!(listed.len(), 1);
    assert_eq!(listed[0].task_id, mine.task_id);
    assert!(store.belongs_to(&mine.task_id, &alice));
    assert!(!store.belongs_to(&mine.task_id, &Some("mallory".to_string())));
    assert!(!store.belongs_to(&mine.task_id, &None));
    assert!(!store.belongs_to("nope", &alice));
    assert_eq!(store.list(NOW).len(), 2);
}

#[test]
fn a_task_takes_the_place_of_one_with_the_same_id() {
    let mut store = store();
    store
        .create_with_id(Some(1000), NOW, "x".to_string(), None)
        .unwrap();
    store
        .create_with_id(Some(2000), NOW, "x".to_string(), None)
        .unwrap();
    assert_eq!(store.list(NOW).len(), 1);
    assert_eq!(store.get("x", NOW).unwrap().ttl, Some(2000));
}

#[test]
fn running_counts_only_non_terminal_tasks() {
    let mut store = store();
    let a = store.create(None, NOW).unwrap();
    store.create(None, NOW).unwrap();
    assert_eq!(store.running(NOW), 2);

    store.finish(&a.task_id, TaskStatus::Completed, value(&[]), NOW);
    assert_eq!(store.running(NOW), 1);
}

#[test]
fn await_result_returns_immediately_when_already_terminal() {
    let mut store = store();
    let task = store.create(None, NOW).unwrap();
    store.finish(
        &task.task_id,
        TaskStatus::Completed,
        value(&[("n", number(1))]),
        NOW,
    );

    let Some(TaskOutcome::Value(value)) = store.peek_result(&task.task_id).unwrap() else {
        panic!("expected a value");
    };
    assert_eq!(value.get("n"), Some(&number(1)));
}

#[test]
fn test_set_status_honors_the_state_machine() {
    let mut store = store();
    let task = store.create(None, NOW).unwrap();

    assert!(store
        .set_status(&task.task_id, TaskStatus::InputRequired, NOW)
        .unwrap());
    assert_eq!(
        store.get(&task.task_id, NOW).unwrap().status,
        TaskStatus::InputRequired
    );
    assert!(store
        .set_status(&task.task_id, TaskStatus::Working, NOW)
        .unwrap());

    assert!(!store
        .set_status(&task.task_id, TaskStatus::Working, NOW)
        .unwrap());

    assert!(store
        .set_status(&task.task_id, TaskStatus::Completed, NOW)
        .is_err());

    assert!(!store
        .set_status("nope", TaskStatus::InputRequired, NOW)
        .unwrap());
}

#[test]
fn test_a_finished_task_cannot_be_moved_back_to_input_required() {
    let mut store = store();
    let task = store.create(None, NOW).unwrap();
    store.finish(&task.task_id, TaskStatus::Completed, value(&[]), NOW);

    assert!(!store
        .set_status(&task.task_id, TaskStatus::InputRequired, NOW)
        .unwrap());
    assert_eq!(
        store.get(&task.task_id, NOW).unwrap().status,
        TaskStatus::Completed
    );
}

#[test]
fn test_try_result_does_not_block() {
    let mut store = store();
    let task = store.create(None, NOW).unwrap();

    assert!(store.try_result(&task.task_id, NOW).unwrap().is_none());

    store.finish(
        &task.task_id,
        TaskStatus::Completed,
        value(&[("done", Json::Bool(true))]),
        NOW,
    );

    let TaskOutcome::Value(value) = store.try_result(&task.task_id, NOW).unwrap().unwrap() else {
        panic!("expected a value");
    };
    assert_eq!(value.get("done"), Some(&Json::Bool(true)));

    assert!(store.try_result("nope", NOW).is_err());
}

#[test]
fn related_task_meta_uses_the_reserved_key() {
    let meta = related_task_meta("abc123");
    assert_eq!(
        meta.get(RELATED_TASK).unwrap().get("taskId"),
        Some(&text("abc123"))
    );
    assert_eq!(RELATED_TASK, "io.modelcontextprotocol/related-task");
}

#[test]
fn create_task_result_serializes_to_the_spec_shape() {
    let mut store = store();
    let task = store.create(None, NOW).unwrap();
    let result = CreateTaskResult { task, meta: None };

    let wire = result.to_json();
    let task = wire.get("task").unwrap();
    assert_eq!(task.get("status"), Some(&text("working")));
    assert!(matches!(task.get("taskId"), Some(Json::Text(_))));
    assert!(matches!(task.get("createdAt"), Some(Json::Text(_))));
    assert!(matches!(task.get("lastUpdatedAt"), Some(Json::Text(_))));
    assert_eq!(task.get("ttl"), Some(&number(300_000)));
    assert_eq!(task.get("pollInterval"), Some(&number(1_000)));
    assert_eq!(task.get("statusMessage"), None);
    assert_eq!(wire.get("_meta"), None);
}

#[test]
fn a_task_without_a_lifetime_says_so() {
    let mut store = store();
    let mut task = store.create(None, NOW).unwrap();
    task.ttl = None;
    task.poll_interval = None;
    let wire = task.to_json();
    assert_eq!(wire.get("ttl"), Some(&Json::Null));
    assert_eq!(wire.get("pollInterval"), None);
    let page = ListTasksResult {
        tasks: vec![task],
        next_cursor: Some("c".to_string()),
    }
    .to_json();
    assert_eq!(page.get("nextCursor"), Some(&text("c")));
    assert_eq!(page.get("tasks"), Some(&Json::List(vec![wire])));
}

#[test]
fn task_params_parse_from_a_request() {
    let params = TaskParams::from_json(&object(&[("ttl", number(60000))])).unwrap();
    assert_eq!(params.ttl, Some(60_000));

    let empty = TaskParams::from_json(&object(&[])).unwrap();
    assert_eq!(empty.ttl, None);

    assert!(TaskParams::from_json(&object(&[("ttl", text("x"))])).is_none());
    assert!(TaskParams::from_json(&Json::Null).is_none());
    assert_eq!(
        TaskIdParams::from_json(&object(&[("taskId", text("x"))])),
        Some(TaskIdParams {
            task_id: "x".to_string()
        })
    );
    assert_eq!(
        TaskIdParams::from_json(&object(&[("taskId", number(1))])),
        None
    );
}

#[test]
fn iso8601_formats_the_epoch() {
    assert_eq!(iso8601(Timestamp::from_secs(0)), "1970-01-01T00:00:00Z");
}

#[test]
fn iso8601_formats_known_instants() {
    let cases = [
        (1_000_000_000i64, "2001-09-09T01:46:40Z"),
        (1_700_000_000, "2023-11-14T22:13:20Z"),
        (1_764_028_800, "2025-11-25T00:00:00Z"),
        (1_709_164_800, "2024-02-29T00:00:00Z"),
        (951_782_400, "2000-02-29T00:00:00Z"),
    ];
    for (secs, expected) in cases {
        assert_eq!(
            iso8601(Timestamp::from_secs(secs)),
            expected,
            "for {secs}"
        );
    }
}

#[test]
fn a_moment_before_the_epoch_is_written_as_the_epoch() {
    assert_eq!(
        iso8601(Timestamp {
            secs: -1,
            nanos: 500_000_000
        }),
        "1970-01-01T00:00:00Z"
    );
    // Five digits where the year has five.
    assert_eq!(
        iso8601(Timestamp::from_secs(253_402_300_800)),
        "10000-01-01T00:00:00Z"
    );
}

#[test]
fn iso8601_output_is_sortable_and_well_formed() {
    let earlier = iso8601(Timestamp::from_secs(1_700_000_000));
    let later = iso8601(Timestamp::from_secs(1_800_000_000));
    assert!(earlier < later, "timestamps must sort lexicographically");
    assert_eq!(earlier.len(), 20);
}

#[test]
fn civil_from_days_handles_month_and_year_ends() {
    assert_eq!(civil_from_days(0), (1970, 1, 1));
    assert_eq!(civil_from_days(-1), (1969, 12, 31));
    assert_eq!(civil_from_days(365), (1971, 1, 1));
    assert_eq!(civil_from_days(365 + 365 + 59), (1972, 2, 29));
}

#[test]
fn dates_far_away_are_dates_too() {
    assert_eq!(civil_from_days(-719_468), (0, 3, 1));
    assert_eq!(civil_from_days(-719_469), (0, 2, 29));
    assert_eq!(civil_from_days(-719_162), (1, 1, 1));
    assert_eq!(civil_from_days(2_932_896), (9999, 12, 31));
}

#[test]
fn bytes_are_written_in_hexadecimal() {
    assert_eq!(hex_text(&vec![0x00, 0x9a, 0xff]), "009aff");
    assert_eq!(hex_text(&vec![]), "");
}

#[test]
fn lengths_of_time_are_written_in_their_largest_unit() {
    for (secs, nanos, words) in [
        (120, 0, "120s"),
        (1, 500_000_000, "1.5s"),
        (0, 30_000_000, "30ms"),
        (0, 1_050_000, "1.05ms"),
        (0, 1_000, "1\u{b5}s"),
        (0, 999, "999ns"),
        (0, 0, "0ns"),
    ] {
        assert_eq!(describe_span(Span { secs, nanos }), words);
        assert_eq!(
            format!("{:?}", std::time::Duration::new(secs, nanos)),
            words
        );
    }
}

#[test]
fn what_is_left_of_a_wait_is_counted_down() {
    let at = |secs, nanos| Span { secs, nanos };
    assert_eq!(
        time_left(at(1, 900_000_000), at(3, 100_000_000)),
        Some(at(1, 200_000_000))
    );
    assert_eq!(time_left(at(3, 0), at(3, 0)), None);
    assert_eq!(time_left(at(4, 0), at(3, 0)), None);
    assert_eq!(Span::from_millis(1500), at(1, 500_000_000));
}

#[test]
fn a_full_store_says_how_full_it_is() {
    let mut store = TaskStore::new(TaskConfig {
        max_concurrent: 0,
        ..Default::default()
    });
    assert!(matches!(
        store.create(None, NOW),
        Err(McpError::Internal(m)) if m == "too many tasks in flight (0/0)"
    ));
    assert_eq!(store.config().max_concurrent, 0);
}

#[test]
fn every_operation_drops_what_expired() {
    let gone = |store: &mut TaskStore| {
        let task = store.create(Some(0), later(0)).unwrap();
        task.task_id
    };
    let mut s = store();
    let id = gone(&mut s);
    assert_eq!(s.set_status(&id, TaskStatus::InputRequired, later(0)), Ok(false));
    assert!(s.get(&id, later(0)).is_err());
    let id = gone(&mut s);
    s.set_status_message(&id, "x".to_string(), later(0));
    assert!(s.peek_result(&id).is_err());
    let id = gone(&mut s);
    s.finish(&id, TaskStatus::Completed, TaskOutcome::Value(Json::Null), later(0));
    assert!(s.peek_result(&id).is_err());
}

#[test]
fn a_cancelled_tool_is_told_until_it_ends() {
    let mut s = store();
    let id = s.create(Some(1000), later(0)).unwrap().task_id;
    let other = s.create(None, later(0)).unwrap().task_id;
    s.cancel(&id, later(0)).unwrap();
    s.sweep(later(60_000));
    assert!(s.get(&id, later(60_000)).is_err());
    assert!(s.is_cancelled(&id), "the task is gone, and its tool still has to stop");
    assert!(!s.is_cancelled(&other));
    s.finish(&id, TaskStatus::Completed, TaskOutcome::Value(Json::Null), later(61_000));
    assert!(!s.is_cancelled(&id), "the tool has ended, and nobody asks any more");
}

#[test]
fn drawn_bytes_are_used_as_they_are() {
    let drawn = [9, 8, 7, 6, 5, 4, 3, 2, 1, 0, 10, 20, 30, 40, 50, 60];
    assert_eq!(bytes_from(Some(drawn), 1, 2), drawn.to_vec());
    assert_eq!(
        bytes_from(None, 0x0807_0605_0403_0201, 0xff00),
        vec![1, 2, 3, 4, 5, 6, 7, 8, 0, 0xff, 0, 0, 0, 0, 0, 0]
    );
}
