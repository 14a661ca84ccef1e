use kenchiku::session::{
    construct_success, nothing_to_show, patch_not_found, patch_success, scaffold_not_found, split_patch_name,
    MissingValueError, Outcome, PromptAction, SessionSlot, Status, ValueExchange, WorkerEvent,
};
use kenchiku::store::ValueStore;
use kenchiku::values::PromptRequest;

fn missing(name: &str) -> MissingValueError {
    MissingValueError {
        name: name.to_string(),
        value_type: "string".to_string(),
        description: "The project name".to_string(),
        choices: None,
        error: None,
    }
}

fn request(name: &str) -> PromptRequest {
    PromptRequest {
        id: name.to_string(),
        value_type: "string".to_string(),
        description: "The project name".to_string(),
        choices: None,
        default: None,
    }
}

fn store(entries: &[(&str, &str)]) -> ValueStore {
    let mut s = ValueStore::new();
    for (k, v) in entries {
        s.insert(k, v);
    }
    s
}

#[test]
fn session_flow_missing_then_provided() {
    let mut slot = SessionSlot::new();
    assert!(slot.refusal().is_none());
    let reply = slot.open_with(ValueStore::new(), WorkerEvent::Status(Status::MissingValue(missing("name"))));
    assert!(reply.contains("Missing value: name"));
    assert!(reply.contains("Description:"));
    assert_eq!(
        reply,
        "Missing value: name. Description: The project name. Type: string. Please use `provide_values` to supply it."
    );
    assert!(slot.is_busy());

    // A second construct is turned away and leaves the session alone.
    let refused = slot.refusal().unwrap();
    assert!(refused.contains("A session is already active"));
    assert_eq!(slot.active.as_ref().unwrap().missing_values, vec!["name".to_string()]);

    assert!(slot.provide(&store(&[("name", "my-project")])).is_none());
    assert_eq!(slot.active.as_ref().unwrap().values.get("name"), Some("my-project".to_string()));
    let done = slot.after_provide(WorkerEvent::Finished(Outcome::Completed(construct_success("demo"))));
    assert!(done.contains("constructed successfully"));
    assert!(!slot.is_busy());

    // No stale session: the next construct is admitted.
    assert!(slot.refusal().is_none());
}

#[test]
fn session_cancel_then_provide() {
    let mut slot = SessionSlot::new();
    slot.open_with(ValueStore::new(), WorkerEvent::Status(Status::MissingValue(missing("name"))));
    assert_eq!(slot.cancel(), "Session cancelled.");
    assert_eq!(slot.provide(&store(&[("test", "x")])), Some("No active session.".to_string()));
    assert_eq!(slot.cancel(), "No active session.");
}

#[test]
fn run_that_ends_at_once_keeps_no_session() {
    let mut slot = SessionSlot::new();
    let reply = slot.open_with(ValueStore::new(), WorkerEvent::Finished(Outcome::Errored("boom".to_string())));
    assert_eq!(reply, "Operation errored: boom");
    assert!(!slot.is_busy());
    let reply = slot.open_with(ValueStore::new(), WorkerEvent::Finished(Outcome::Crashed("panic".to_string())));
    assert_eq!(reply, "Operation failed: panic");
}

#[test]
fn provide_that_ends_in_error() {
    let mut slot = SessionSlot::new();
    slot.open_with(ValueStore::new(), WorkerEvent::Status(Status::MissingValue(missing("a"))));
    slot.provide(&store(&[("a", "1")]));
    let reply = slot.after_provide(WorkerEvent::Finished(Outcome::Errored("bad".to_string())));
    assert_eq!(reply, "Construction errored: bad");
    assert!(!slot.is_busy());
}

#[test]
fn provide_moves_to_next_missing_value() {
    let mut slot = SessionSlot::new();
    slot.open_with(store(&[("x", "1")]), WorkerEvent::Status(Status::MissingValue(missing("a"))));
    slot.provide(&store(&[("a", "1"), ("extra", "2")]));
    let reply = slot.after_provide(WorkerEvent::Status(Status::MissingValue(missing("b"))));
    assert!(reply.starts_with("Missing value: b. Description: The project name. Type: string"));
    let state = slot.active.as_ref().unwrap();
    assert_eq!(state.missing_values, vec!["b".to_string()]);
    assert_eq!(state.values.get("x"), Some("1".to_string()));
    assert_eq!(state.values.get("extra"), Some("2".to_string()));
}

#[test]
fn missing_value_after_cancel() {
    let mut slot = SessionSlot::new();
    let reply = slot.after_provide(WorkerEvent::Status(Status::MissingValue(missing("a"))));
    assert_eq!(reply, "Session was cancelled while processing.");
}

#[test]
fn missing_value_message_forms() {
    let mut m = missing("name");
    assert_eq!(m.message(), "Missing value: name");
    m.error = Some("too short".to_string());
    assert_eq!(m.message(), "Missing value: name (Error: too short)");
    m.choices = Some(vec!["a".to_string(), "b".to_string()]);
    m.value_type = "enum".to_string();
    assert_eq!(
        m.reply(),
        "Missing value: name (Error: too short). Description: The project name. Type: enum. Choices: a, b. Please use `provide_values` to supply it."
    );
}

#[test]
fn worker_answers_accepted_value_twice() {
    let mut ex = ValueExchange::new(store(&[("name", "x")]));
    for _ in 0..2 {
        match ex.settle(&request("name"), Ok(())) {
            PromptAction::Answer(a) => assert_eq!(a, "x"),
            PromptAction::Request(_) => panic!("expected an answer"),
        }
    }
}

#[test]
fn worker_requests_rejected_value_again() {
    let mut ex = ValueExchange::new(store(&[("name", "x")]));
    assert_eq!(ex.candidate("name"), Some("x".to_string()));
    match ex.settle(&request("name"), Err("validate function rejected value".to_string())) {
        PromptAction::Request(Status::MissingValue(m)) => {
            assert_eq!(m.name, "name");
            assert_eq!(m.error.as_deref(), Some("validate function rejected value"));
        }
        PromptAction::Answer(_) => panic!("expected a request"),
    }
    assert_eq!(ex.candidate("name"), None);
    assert!(ex.resume(Some(&store(&[("name", "better")]))).is_ok());
    match ex.settle(&request("name"), Ok(())) {
        PromptAction::Answer(a) => assert_eq!(a, "better"),
        PromptAction::Request(_) => panic!("expected an answer"),
    }
}

#[test]
fn worker_requests_absent_value() {
    let mut ex = ValueExchange::new(ValueStore::new());
    match ex.settle(&request("name"), Ok(())) {
        PromptAction::Request(Status::MissingValue(m)) => assert!(m.error.is_none()),
        PromptAction::Answer(_) => panic!("expected a request"),
    }
}

#[test]
fn reply_texts() {
    assert_eq!(construct_success("demo"), "Scaffold 'demo' constructed successfully.");
    assert_eq!(patch_success("s", "p"), "Patch 's:p' executed successfully.");
    assert_eq!(scaffold_not_found("x"), "Scaffold 'x' not found.");
    assert_eq!(patch_not_found("p", "s"), "Patch 'p' not found in scaffold 's'.");
}

#[test]
fn patch_names_split_at_first_colon() {
    assert_eq!(split_patch_name("utils:add_logging"), Ok(("utils".to_string(), "add_logging".to_string())));
    assert_eq!(split_patch_name("a:b:c"), Ok(("a".to_string(), "b:c".to_string())));
    assert_eq!(
        split_patch_name("nopatch"),
        Err("Invalid patch name format. Use '<scaffold>:<patch>'.".to_string())
    );
}

#[test]
fn store_keeps_last_write_and_removes() {
    let mut s = store(&[("a", "1"), ("b", "2"), ("a", "3")]);
    assert_eq!(s.get("a"), Some("3".to_string()));
    s.remove("a");
    assert_eq!(s.get("a"), None);
    assert_eq!(s.get("b"), Some("2".to_string()));
    let mut t = store(&[("b", "0"), ("c", "4")]);
    t.merge(&s);
    assert_eq!(t.get("b"), Some("2".to_string()));
    assert_eq!(t.get("c"), Some("4".to_string()));
    assert_eq!(t.entries().len(), 2);
}

#[test]
fn worker_ends_when_channel_closes() {
    let mut ex = ValueExchange::new(store(&[("a", "1")]));
    assert_eq!(ex.resume(None), Err("Session cancelled".to_string()));
    assert_eq!(ex.candidate("a"), Some("1".to_string()));
}

#[test]
fn first_reply_leaves_out_choices_and_complaint() {
    let mut m = missing("color");
    m.value_type = "enum".to_string();
    m.choices = Some(vec!["red".to_string(), "blue".to_string()]);
    m.error = Some("bad".to_string());
    let mut slot = SessionSlot::new();
    let reply = slot.open_with(ValueStore::new(), WorkerEvent::Status(Status::MissingValue(m)));
    assert_eq!(
        reply,
        "Missing value: color. Description: The project name. Type: enum. Please use `provide_values` to supply it."
    );
}

#[test]
fn show_reply_for_unknown_name() {
    assert_eq!(nothing_to_show(), "No such scaffold or patch found");
}
