use notion_backup::api_client::{
    build_url, export_request_body, export_result, login_request_body, login_result, poll_result,
    select_task, task_status_request_body, validate_result, AuthError, ExportError, PollError,
    TaskResult, TaskStatus, ValidationError,
};

fn task(id: &str, value: &str, url: &str) -> TaskResult {
    TaskResult {
        id: id.to_string(),
        status: TaskStatus { value: value.to_string(), export_url: url.to_string() },
    }
}

#[test]
fn build_url_joins_base_and_path() {
    assert_eq!(build_url("loginWithEmail"), "https://www.notion.so/api/v3/loginWithEmail");
    assert_eq!(build_url("getTasks"), "https://www.notion.so/api/v3/getTasks");
}

#[test]
fn login_body_is_exact() {
    assert_eq!(
        login_request_body("a@b.c", "pw"),
        "{\"email\":\"a@b.c\",\"password\":\"pw\"}"
    );
    assert_eq!(
        login_request_body("a@b.c", "p\"w\\x"),
        "{\"email\":\"a@b.c\",\"password\":\"p\\\"w\\\\x\"}"
    );
}

#[test]
fn export_body_is_exact() {
    assert_eq!(
        export_request_body("space-1"),
        "{\"task\":{\"eventName\":\"exportSpace\",\"request\":{\"spaceId\":\"space-1\",\
         \"exportOptions\":{\"exportType\":\"html\",\"timeZone\":\"Europe/Paris\",\"locale\":\"en\"}}}}"
    );
}

#[test]
fn tasks_body_is_exact() {
    assert_eq!(task_status_request_body("task-123"), "{\"taskIds\":[\"task-123\"]}");
}

#[test]
fn login_result_classifies_statuses() {
    let headers = vec!["token_v2=t; Domain=www.notion.so".to_string()];
    assert_eq!(login_result(None, &headers), Err(AuthError::Transport));
    assert_eq!(login_result(Some(401), &headers), Err(AuthError::Rejected));
    assert_eq!(login_result(Some(404), &headers), Err(AuthError::Rejected));
    assert_eq!(login_result(Some(500), &headers), Err(AuthError::Transport));
    assert_eq!(login_result(Some(302), &headers), Err(AuthError::Transport));
    assert_eq!(login_result(Some(200), &headers), Ok("t".to_string()));
}

#[test]
fn login_result_with_ambiguous_headers_is_protocol_error() {
    let none: Vec<String> = vec!["csrf=1".to_string()];
    assert_eq!(login_result(Some(200), &none), Err(AuthError::Protocol));
    let two = vec![
        "token_v2=a; Domain=x".to_string(),
        "token_v2=b; Domain=x".to_string(),
    ];
    assert_eq!(login_result(Some(200), &two), Err(AuthError::Protocol));
}

#[test]
fn validate_result_distinguishes_unauthorized_from_transport() {
    assert_eq!(validate_result(Some(200)), Ok(()));
    assert_eq!(validate_result(Some(204)), Ok(()));
    assert_eq!(validate_result(Some(401)), Err(ValidationError::Unauthorized));
    assert_eq!(validate_result(Some(500)), Err(ValidationError::Transport));
    assert_eq!(validate_result(Some(403)), Err(ValidationError::Transport));
    assert_eq!(validate_result(None), Err(ValidationError::Transport));
}

#[test]
fn export_result_needs_success_and_task_id() {
    assert_eq!(export_result(None, Some("task-1".to_string())), Err(ExportError::Transport));
    assert_eq!(export_result(Some(500), Some("task-1".to_string())), Err(ExportError::Transport));
    assert_eq!(export_result(Some(200), None), Err(ExportError::Transport));
    assert_eq!(export_result(Some(200), Some("task-1".to_string())), Ok("task-1".to_string()));
}

#[test]
fn select_task_picks_first_matching_entry() {
    let results = vec![
        task("other", "complete", "https://u/1.zip"),
        task("task-123", "in_progress", ""),
        task("task-123", "complete", "https://u/2.zip"),
    ];
    let st = select_task(results, "task-123").unwrap();
    assert_eq!(st.value, "in_progress");
    assert_eq!(st.export_url, "");
}

#[test]
fn select_task_reports_vanished_task_as_not_found() {
    let results = vec![task("other", "complete", "https://u/1.zip")];
    assert_eq!(select_task(results, "task-123"), Err(PollError::NotFound));
    assert_eq!(select_task(Vec::new(), "task-123"), Err(PollError::NotFound));
}

#[test]
fn poll_result_classifies_failures_as_transport() {
    let results = vec![task("task-1", "complete", "https://u/1.zip")];
    assert_eq!(poll_result(None, Some(results.clone()), "task-1"), Err(PollError::Transport));
    assert_eq!(poll_result(Some(500), Some(results.clone()), "task-1"), Err(PollError::Transport));
    assert_eq!(poll_result(Some(200), None, "task-1"), Err(PollError::Transport));
    let st = poll_result(Some(200), Some(results), "task-1").unwrap();
    assert_eq!(st.value, "complete");
    assert_eq!(st.export_url, "https://u/1.zip");
}
