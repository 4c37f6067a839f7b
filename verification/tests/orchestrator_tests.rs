use notion_backup::api_client::{
    export_result, login_result, poll_result, validate_result, TaskResult, TaskStatus,
    ValidationError,
};
use notion_backup::configuration_service::ConfigurationService;
use notion_backup::orchestrator::{init, step, Action, Event, OrchState, RunError};
use notion_backup::Config;

fn task(id: &str, value: &str, url: &str) -> TaskResult {
    TaskResult {
        id: id.to_string(),
        status: TaskStatus { value: value.to_string(), export_url: url.to_string() },
    }
}

#[test]
fn init_asks_for_the_stored_token() {
    let (state, action) = init();
    assert_eq!(state, OrchState::ResolveSession);
    assert_eq!(action, Action::LoadToken);
}

#[test]
fn unauthorized_validation_triggers_one_reauthentication() {
    // A 401 on the validation probe classifies as Unauthorized ...
    let verdict = validate_result(Some(401));
    assert_eq!(verdict, Err(ValidationError::Unauthorized));
    // ... which sends the machine back to authenticate, exactly once.
    let state = OrchState::Validating { token: "stale".to_string() };
    let (state, action) = step(state, Event::Validated { result: verdict });
    assert_eq!(state, OrchState::Authenticating);
    assert_eq!(action, Action::Authenticate);
    // The fresh token must overwrite the stored one before the export.
    let (state, action) = step(
        state,
        Event::Authenticated { result: Ok("fresh".to_string()) },
    );
    assert_eq!(state, OrchState::Enqueueing { token: "fresh".to_string() });
    assert_eq!(action, Action::Enqueue { token: "fresh".to_string(), persist: true });
    let mut store = ConfigurationService::new(Some("{\"token\":\"stale\"}".to_string()));
    store.set_token("fresh");
    assert_eq!(store.serialized(), "{\"token\":\"fresh\"}");
}

#[test]
fn transport_validation_failure_aborts_without_authenticating() {
    let verdict = validate_result(Some(500));
    assert_eq!(verdict, Err(ValidationError::Transport));
    let state = OrchState::Validating { token: "tok".to_string() };
    let (state, action) = step(state, Event::Validated { result: verdict });
    assert_eq!(
        state,
        OrchState::Failed { error: RunError::Validation(ValidationError::Transport) }
    );
    assert_eq!(
        action,
        Action::Abort { error: RunError::Validation(ValidationError::Transport) }
    );
}

#[test]
fn poll_repeats_with_five_second_wait_until_complete() {
    let state = OrchState::Polling {
        token: "tok".to_string(),
        task_id: "task-9".to_string(),
    };
    let pending = TaskStatus { value: "in_progress".to_string(), export_url: String::new() };
    let (state, action) = step(state, Event::Polled { result: Ok(pending) });
    assert_eq!(
        action,
        Action::Poll {
            token: "tok".to_string(),
            task_id: "task-9".to_string(),
            delay_seconds: 5,
        }
    );
    let done = TaskStatus {
        value: "complete".to_string(),
        export_url: "https://x/y.zip".to_string(),
    };
    let (state, action) = step(state, Event::Polled { result: Ok(done) });
    // Completion stops the polling: the next action downloads, and the machine
    // has left every polling state behind.
    assert_eq!(state, OrchState::Downloading { url: "https://x/y.zip".to_string() });
    assert_eq!(action, Action::Download { url: "https://x/y.zip".to_string() });
    let (state, action) = step(state, Event::Downloaded { ok: true });
    assert_eq!(state, OrchState::Done);
    assert_eq!(action, Action::Report);
}

#[test]
fn fresh_environment_end_to_end() {
    // Fresh environment: no stored token.
    let mut store = ConfigurationService::new(None);
    assert!(store.get_token().is_none());
    let (state, action) = init();
    assert_eq!(action, Action::LoadToken);
    let loaded = store.get_token().cloned();
    let (state, action) = step(state, Event::Loaded { token: loaded });
    // No token: authenticate, never validate.
    assert_eq!(state, OrchState::Authenticating);
    assert_eq!(action, Action::Authenticate);
    // Login succeeds; the token arrives in the one credential header.
    let headers = vec!["token_v2=login-issued; Domain=www.notion.so; Path=/".to_string()];
    let login = login_result(Some(200), &headers);
    assert_eq!(login, Ok("login-issued".to_string()));
    let (state, action) = step(state, Event::Authenticated { result: login });
    // Validation is skipped: the machine goes straight to the enqueue, with
    // the order to persist the fresh token.
    assert_eq!(
        action,
        Action::Enqueue { token: "login-issued".to_string(), persist: true }
    );
    store.set_token("login-issued");
    // Enqueue returns task-123.
    let enqueued = export_result(Some(200), Some("task-123".to_string()));
    let (state, action) = step(state, Event::Enqueued { result: enqueued });
    assert_eq!(
        action,
        Action::Poll {
            token: "login-issued".to_string(),
            task_id: "task-123".to_string(),
            delay_seconds: 0,
        }
    );
    // First poll: in progress; the machine polls again after the wait.
    let first = poll_result(Some(200), Some(vec![task("task-123", "in_progress", "")]), "task-123");
    let (state, action) = step(state, Event::Polled { result: first });
    assert_eq!(
        action,
        Action::Poll {
            token: "login-issued".to_string(),
            task_id: "task-123".to_string(),
            delay_seconds: 5,
        }
    );
    // Second poll: complete, with the artifact's address.
    let second = poll_result(
        Some(200),
        Some(vec![task("task-123", "complete", "https://x/y.zip")]),
        "task-123",
    );
    let (state, action) = step(state, Event::Polled { result: second });
    assert_eq!(action, Action::Download { url: "https://x/y.zip".to_string() });
    let (state, action) = step(state, Event::Downloaded { ok: true });
    assert_eq!(state, OrchState::Done);
    assert_eq!(action, Action::Report);
    // The stored record now holds the login-issued token.
    assert_eq!(store.serialized(), "{\"token\":\"login-issued\"}");
}

#[test]
fn stored_valid_token_never_authenticates() {
    let store = ConfigurationService::new(Some("{\"token\":\"stored\"}".to_string()));
    let (state, action) = init();
    assert_eq!(action, Action::LoadToken);
    let loaded = store.get_token().cloned();
    assert_eq!(loaded.as_deref(), Some("stored"));
    let (state, action) = step(state, Event::Loaded { token: loaded });
    // A stored token is validated first.
    assert_eq!(state, OrchState::Validating { token: "stored".to_string() });
    assert_eq!(action, Action::Validate { token: "stored".to_string() });
    // The probe succeeds: the run proceeds with the stored token and no
    // authentication is ever asked for; the store keeps its record unchanged.
    let verdict = validate_result(Some(200));
    let (state, action) = step(state, Event::Validated { result: verdict });
    assert_eq!(state, OrchState::Enqueueing { token: "stored".to_string() });
    assert_eq!(action, Action::Enqueue { token: "stored".to_string(), persist: false });
    assert_eq!(store.serialized(), "{\"token\":\"stored\"}");
}

#[test]
fn config_build_reports_each_missing_input() {
    let args = |v: &[&str]| v.iter().map(|s| s.to_string()).collect::<Vec<String>>();
    let full = args(&["prog", "out", "space-1"]);
    let ok = Config::build(full.clone(), Some("e@x".to_string()), Some("pw".to_string())).unwrap();
    assert_eq!(ok.output_dir, "out");
    assert_eq!(ok.space_id, "space-1");
    assert_eq!(ok.email, "e@x");
    assert_eq!(ok.password, "pw");
    assert_eq!(
        Config::build(args(&["prog"]), Some("e".into()), Some("p".into())),
        Err("Output directory argument missing")
    );
    assert_eq!(
        Config::build(args(&["prog", "out"]), Some("e".into()), Some("p".into())),
        Err("Space ID argument missing")
    );
    assert_eq!(
        Config::build(full.clone(), None, Some("p".into())),
        Err("NOTION_EMAIL env missing")
    );
    assert_eq!(Config::build(full, Some("e".into()), None), Err("NOTION_PASSWORD env missing"));
}
