//! Protocol knowledge of the four remote operations: the exact request body
//! each one sends, and the translation of what came back — a status code, the
//! response headers, a decoded body — into the typed outcome the orchestrator
//! acts on. The network transfer itself is the caller's part; every function
//! here is a pure transform over plain values.
use vstd::prelude::*;
use vstd::string::StringExecFns;

use crate::json_text::escape_seq;
use crate::json_text::escape_str;

pub mod auth_header_handler;

verus! {

/// Outcome classification of the authentication call.
#[derive(Clone, Copy, Debug, PartialEq, Eq, Structural)]
pub enum AuthError {
    /// The server answered with a client error: the credentials are bad.
    Rejected,
    /// Zero or several credential headers came back: ambiguous, never guessed.
    Protocol,
    /// No response, or a failure that is not the credentials' fault.
    Transport,
}

/// Outcome classification of the session-validation probe.
#[derive(Clone, Copy, Debug, PartialEq, Eq, Structural)]
pub enum ValidationError {
    /// The server answered 401: the token is expired or revoked. This is the
    /// one error the orchestrator heals by re-authenticating.
    Unauthorized,
    /// Any other failure; surfaced, never healed.
    Transport,
}

/// Outcome classification of the export-enqueue call.
#[derive(Clone, Copy, Debug, PartialEq, Eq, Structural)]
pub enum ExportError {
    Transport,
}

/// Outcome classification of the task-status query.
#[derive(Clone, Copy, Debug, PartialEq, Eq, Structural)]
pub enum PollError {
    /// The server's result set does not hold the requested task: the task
    /// vanished, which no retry can mend.
    NotFound,
    /// Any other failure.
    Transport,
}

/// The current state of a server-side export task: its status word, and the
/// artifact's address once the status reaches "complete".
#[derive(Clone, Debug, PartialEq, Eq)]
pub struct TaskStatus {
    pub value: String,
    pub export_url: String,
}

/// One entry of the server's task-status result set.
#[derive(Clone, Debug, PartialEq, Eq)]
pub struct TaskResult {
    pub id: String,
    pub status: TaskStatus,
}

/// The fixed base address of the remote interface.
pub open spec fn api_base_url() -> Seq<char> {
    "https://www.notion.so/api/v3/"@
}

/// A status code that means success.
pub open spec fn is_success(status: u16) -> bool {
    200 <= status < 300
}

/// A status code that blames the client.
pub open spec fn is_client_error(status: u16) -> bool {
    400 <= status < 500
}

/// The body of the authentication request.
pub open spec fn login_body_of(email: Seq<char>, password: Seq<char>) -> Seq<char> {
    "{\"email\":\""@ + escape_seq(email) + "\",\"password\":\""@ + escape_seq(password) + "\"}"@
}

/// The body of the export-enqueue request: one export event for the space,
/// with the fixed export options.
pub open spec fn export_body_of(space_id: Seq<char>) -> Seq<char> {
    "{\"task\":{\"eventName\":\"exportSpace\",\"request\":{\"spaceId\":\""@ + escape_seq(space_id)
        + "\",\"exportOptions\":{\"exportType\":\"html\",\"timeZone\":\"Europe/Paris\",\"locale\":\"en\"}}}}"@
}

/// The body of the task-status request: exactly one task identifier.
pub open spec fn tasks_body_of(task_id: Seq<char>) -> Seq<char> {
    "{\"taskIds\":[\""@ + escape_seq(task_id) + "\"]}"@
}

/// The address of one remote operation under the fixed base.
pub fn build_url(path: &str) -> (r: String)
    ensures
        r@ == api_base_url() + path@,
{
    String::from_str("https://www.notion.so/api/v3/").concat(path)
}

/// Builds the authentication request body from the credentials.
pub fn login_request_body(email: &str, password: &str) -> (r: String)
    ensures
        r@ == login_body_of(email@, password@),
{
    let r = String::from_str("{\"email\":\"").concat(escape_str(email).as_str()).concat(
        "\",\"password\":\"",
    ).concat(escape_str(password).as_str()).concat("\"}");
    proof {
        assert(r@ =~= login_body_of(email@, password@));
    }
    r
}

/// Builds the export-enqueue request body for a space.
pub fn export_request_body(space_id: &str) -> (r: String)
    ensures
        r@ == export_body_of(space_id@),
{
    let r = String::from_str("{\"task\":{\"eventName\":\"exportSpace\",\"request\":{\"spaceId\":\"")
        .concat(escape_str(space_id).as_str()).concat(
        "\",\"exportOptions\":{\"exportType\":\"html\",\"timeZone\":\"Europe/Paris\",\"locale\":\"en\"}}}}",
    );
    proof {
        assert(r@ =~= export_body_of(space_id@));
    }
    r
}

/// Builds the task-status request body for one task.
pub fn task_status_request_body(task_id: &str) -> (r: String)
    ensures
        r@ == tasks_body_of(task_id@),
{
    let r = String::from_str("{\"taskIds\":[\"").concat(escape_str(task_id).as_str()).concat(
        "\"]}",
    );
    proof {
        assert(r@ =~= tasks_body_of(task_id@));
    }
    r
}

/// Classifies the authentication call: no response is a transport failure, a
/// client error means the credentials were rejected, any other non-success is
/// a transport failure, and a success yields the one token its cookie headers
/// carry — or a protocol error when zero or several headers carry one.
pub fn login_result(status: Option<u16>, set_cookie_headers: &Vec<String>) -> (r: Result<
    String,
    AuthError,
>)
    ensures
        match status {
            None => r == Err::<String, AuthError>(AuthError::Transport),
            Some(code) => if is_client_error(code) {
                r == Err::<String, AuthError>(AuthError::Rejected)
            } else if !is_success(code) {
                r == Err::<String, AuthError>(AuthError::Transport)
            } else {
                match r {
                    Ok(t) => {
                        &&& auth_header_handler::AuthHeaderHandler::match_count(
                            set_cookie_headers@,
                        ) == 1
                        &&& exists|i: int|
                            0 <= i < set_cookie_headers@.len()
                                && auth_header_handler::header_matches(
                                #[trigger] set_cookie_headers@[i]@,
                            ) && t@ == auth_header_handler::captured_token(
                                set_cookie_headers@[i]@,
                            )
                    },
                    Err(e) => e == AuthError::Protocol
                        && auth_header_handler::AuthHeaderHandler::match_count(set_cookie_headers@)
                        != 1,
                }
            },
        },
{
    let code = match status {
        Some(code) => code,
        None => {
            return Err(AuthError::Transport);
        },
    };
    if 400 <= code && code < 500 {
        return Err(AuthError::Rejected);
    }
    if !(200 <= code && code < 300) {
        return Err(AuthError::Transport);
    }
    let handler = auth_header_handler::AuthHeaderHandler::new();
    handler.parse_auth_header(set_cookie_headers)
}

/// Classifies the validation probe: a success means the token is live, a 401
/// means it is dead — the one self-healing outcome — and everything else is a
/// transport failure.
pub fn validate_result(status: Option<u16>) -> (r: Result<(), ValidationError>)
    ensures
        r == match status {
            None => Err::<(), ValidationError>(ValidationError::Transport),
            Some(code) => if code == 401 {
                Err::<(), ValidationError>(ValidationError::Unauthorized)
            } else if is_success(code) {
                Ok::<(), ValidationError>(())
            } else {
                Err::<(), ValidationError>(ValidationError::Transport)
            },
        },
{
    match status {
        None => Err(ValidationError::Transport),
        Some(code) => {
            if code == 401 {
                Err(ValidationError::Unauthorized)
            } else if 200 <= code && code < 300 {
                Ok(())
            } else {
                Err(ValidationError::Transport)
            }
        },
    }
}

/// Classifies the export-enqueue call: a success whose body yielded a task
/// identifier hands that identifier back; everything else is a transport
/// failure.
pub fn export_result(status: Option<u16>, task_id: Option<String>) -> (r: Result<
    String,
    ExportError,
>)
    ensures
        r == match status {
            None => Err::<String, ExportError>(ExportError::Transport),
            Some(code) => if is_success(code) {
                match task_id {
                    Some(id) => Ok::<String, ExportError>(id),
                    None => Err::<String, ExportError>(ExportError::Transport),
                }
            } else {
                Err::<String, ExportError>(ExportError::Transport)
            },
        },
{
    match status {
        None => Err(ExportError::Transport),
        Some(code) => {
            if 200 <= code && code < 300 {
                match task_id {
                    Some(id) => Ok(id),
                    None => Err(ExportError::Transport),
                }
            } else {
                Err(ExportError::Transport)
            }
        },
    }
}

/// Some entry of the result set reports on the requested task.
pub open spec fn has_task(results: Seq<TaskResult>, task_id: Seq<char>) -> bool {
    exists|i: int| 0 <= i < results.len() && results[i].id@ == task_id
}

/// Picks the first entry that reports on the requested task; an absent task
/// is terminal, no retry can bring it back.
pub fn select_task(results: Vec<TaskResult>, task_id: &str) -> (r: Result<TaskStatus, PollError>)
    ensures
        match r {
            Ok(st) => exists|i: int|
                0 <= i < results@.len() && (#[trigger] results@[i].id@) == task_id@ && st
                    == results@[i].status && forall|k: int|
                    0 <= k < i ==> results@[k].id@ != task_id@,
            Err(e) => e == PollError::NotFound && !has_task(results@, task_id@),
        },
{
    let tid: String = task_id.to_owned();
    let ghost orig = results@;
    let mut rs = results;
    let n = rs.len();
    let mut i: usize = 0;
    while i < n
        invariant
            orig == results@,
            rs@ == orig,
            n == orig.len(),
            i <= n,
            tid@ == task_id@,
            forall|k: int| 0 <= k < i ==> orig[k].id@ != task_id@,
        decreases n - i,
    {
        if rs[i].id == tid {
            let entry = rs.remove(i);
            return Ok(entry.status);
        }
        i = i + 1;
    }
    Err(PollError::NotFound)
}

/// Classifies the task-status query: a success whose body yielded a result
/// set is searched for the requested task; everything else is a transport
/// failure.
pub fn poll_result(status: Option<u16>, results: Option<Vec<TaskResult>>, task_id: &str) -> (r:
    Result<TaskStatus, PollError>)
    ensures
        match status {
            None => r == Err::<TaskStatus, PollError>(PollError::Transport),
            Some(code) => if is_success(code) {
                match results {
                    Some(rs) => match r {
                        Ok(st) => exists|i: int|
                            0 <= i < rs@.len() && (#[trigger] rs@[i].id@) == task_id@ && st
                                == rs@[i].status && forall|k: int|
                                0 <= k < i ==> rs@[k].id@ != task_id@,
                        Err(e) => e == PollError::NotFound && !has_task(rs@, task_id@),
                    },
                    None => r == Err::<TaskStatus, PollError>(PollError::Transport),
                }
            } else {
                r == Err::<TaskStatus, PollError>(PollError::Transport)
            },
        },
{
    let code = match status {
        Some(code) => code,
        None => {
            return Err(PollError::Transport);
        },
    };
    if !(200 <= code && code < 300) {
        return Err(PollError::Transport);
    }
    match results {
        Some(rs) => select_task(rs, task_id),
        None => Err(PollError::Transport),
    }
}

} // verus!
