//! The export workflow as a state machine: resolve or refresh the session,
//! validate it, enqueue the export, poll the task to completion, download the
//! artifact. Each transition consumes the outcome of the action last asked
//! for and names the next action; the caller performs the actions — the store
//! read, the four remote calls, the wait, the download — and feeds the
//! outcomes back in. The one non-linear path is the single re-authentication
//! taken when validation affirmatively proves the cached token dead.
use vstd::prelude::*;
use vstd::string::StringExecFns;

use crate::api_client::AuthError;
use crate::api_client::ExportError;
use crate::api_client::PollError;
use crate::api_client::TaskStatus;
use crate::api_client::ValidationError;

verus! {

/// Seconds the run waits between two task-status polls.
pub const POLL_INTERVAL_SECONDS: u64 = 5;

/// The status word that ends the poll loop.
pub open spec fn complete_status() -> Seq<char> {
    "complete"@
}

/// Why a run ended without an artifact.
#[derive(Clone, Copy, Debug, PartialEq, Eq, Structural)]
pub enum RunError {
    Auth(AuthError),
    Validation(ValidationError),
    Export(ExportError),
    Poll(PollError),
    /// Fetching or writing the artifact failed.
    Download,
}

/// Where the run stands; each non-terminal state awaits the outcome of one
/// action.
#[derive(Clone, Debug, PartialEq, Eq)]
pub enum OrchState {
    /// Awaiting the stored token, if any.
    ResolveSession,
    /// Awaiting the outcome of an authentication call.
    Authenticating,
    /// Awaiting the verdict on a stored token.
    Validating { token: String },
    /// Awaiting the task identifier of the enqueued export.
    Enqueueing { token: String },
    /// Awaiting the next status of the export task.
    Polling { token: String, task_id: String },
    /// Awaiting the downloaded artifact.
    Downloading { url: String },
    /// The artifact is written; nothing more to do.
    Done,
    /// The run is aborted; nothing more to do.
    Failed { error: RunError },
}

/// The outcome of a performed action, fed back into the machine.
#[derive(Debug, PartialEq, Eq)]
pub enum Event {
    /// What the Session Store held.
    Loaded { token: Option<String> },
    /// What the authentication call yielded.
    Authenticated { result: Result<String, AuthError> },
    /// What the validation probe yielded.
    Validated { result: Result<(), ValidationError> },
    /// What the export-enqueue call yielded.
    Enqueued { result: Result<String, ExportError> },
    /// What the task-status query yielded.
    Polled { result: Result<TaskStatus, PollError> },
    /// Whether the artifact was fetched and written.
    Downloaded { ok: bool },
}

/// What the caller is to do next.
#[derive(Clone, Debug, PartialEq, Eq)]
pub enum Action {
    /// Read the Session Store.
    LoadToken,
    /// Submit the credentials.
    Authenticate,
    /// Probe whether the token is still live.
    Validate { token: String },
    /// Enqueue the export with this token; when `persist` is set the token is
    /// freshly issued and must first overwrite the Session Store's record (a
    /// failure to write is reported but never aborts the run).
    Enqueue { token: String, persist: bool },
    /// Query the task's status, after waiting `delay_seconds`.
    Poll { token: String, task_id: String, delay_seconds: u64 },
    /// Fetch the artifact and write it to the output directory.
    Download { url: String },
    /// Report the written artifact; the run succeeded.
    Report,
    /// Report the error; the run failed.
    Abort { error: RunError },
}

/// The event that a state awaits. Terminal states await nothing.
pub open spec fn expects(s: OrchState, e: Event) -> bool {
    match (s, e) {
        (OrchState::ResolveSession, Event::Loaded { .. }) => true,
        (OrchState::Authenticating, Event::Authenticated { .. }) => true,
        (OrchState::Validating { .. }, Event::Validated { .. }) => true,
        (OrchState::Enqueueing { .. }, Event::Enqueued { .. }) => true,
        (OrchState::Polling { .. }, Event::Polled { .. }) => true,
        (OrchState::Downloading { .. }, Event::Downloaded { .. }) => true,
        _ => false,
    }
}

/// The whole transition relation, one case per awaited outcome.
pub open spec fn spec_step(s: OrchState, e: Event) -> (OrchState, Action)
    recommends
        expects(s, e),
{
    match (s, e) {
        (OrchState::ResolveSession, Event::Loaded { token }) => match token {
            // A stored token is never trusted outright: it is validated first.
            Some(t) => (
                OrchState::Validating { token: t },
                Action::Validate { token: t },
            ),
            None => (OrchState::Authenticating, Action::Authenticate),
        },
        (OrchState::Authenticating, Event::Authenticated { result }) => match result {
            // A freshly issued token is trusted without a validation round
            // trip, and overwrites whatever the store held.
            Ok(t) => (
                OrchState::Enqueueing { token: t },
                Action::Enqueue { token: t, persist: true },
            ),
            Err(err) => (
                OrchState::Failed { error: RunError::Auth(err) },
                Action::Abort { error: RunError::Auth(err) },
            ),
        },
        (OrchState::Validating { token }, Event::Validated { result }) => match result {
            Ok(_) => (
                OrchState::Enqueueing { token },
                Action::Enqueue { token, persist: false },
            ),
            // Only an affirmative 401 is self-healing: the stale token is
            // treated as absent and the run re-authenticates once.
            Err(ValidationError::Unauthorized) => (
                OrchState::Authenticating,
                Action::Authenticate,
            ),
            Err(ValidationError::Transport) => (
                OrchState::Failed { error: RunError::Validation(ValidationError::Transport) },
                Action::Abort { error: RunError::Validation(ValidationError::Transport) },
            ),
        },
        (OrchState::Enqueueing { token }, Event::Enqueued { result }) => match result {
            // The first poll follows at once; only the retries wait.
            Ok(task_id) => (
                OrchState::Polling { token: token, task_id: task_id },
                Action::Poll { token: token, task_id: task_id, delay_seconds: 0 },
            ),
            Err(err) => (
                OrchState::Failed { error: RunError::Export(err) },
                Action::Abort { error: RunError::Export(err) },
            ),
        },
        (OrchState::Polling { token, task_id }, Event::Polled { result }) => match result {
            Ok(st) => if st.value@ == complete_status() {
                (
                    OrchState::Downloading { url: st.export_url },
                    Action::Download { url: st.export_url },
                )
            } else {
                (
                    OrchState::Polling { token: token, task_id: task_id },
                    Action::Poll {
                        token: token,
                        task_id: task_id,
                        delay_seconds: POLL_INTERVAL_SECONDS,
                    },
                )
            },
            Err(err) => (
                OrchState::Failed { error: RunError::Poll(err) },
                Action::Abort { error: RunError::Poll(err) },
            ),
        },
        (OrchState::Downloading { .. }, Event::Downloaded { ok }) => if ok {
            (OrchState::Done, Action::Report)
        } else {
            (
                OrchState::Failed { error: RunError::Download },
                Action::Abort { error: RunError::Download },
            )
        },
        // No other pairing arises: terminal states await nothing, and every
        // other state awaits exactly the outcome of the action it named.
        (s0, _) => (s0, Action::Report),
    }
}

/// The machine's first state and action: ask the Session Store.
pub fn init() -> (r: (OrchState, Action))
    ensures
        r == (OrchState::ResolveSession, Action::LoadToken),
{
    (OrchState::ResolveSession, Action::LoadToken)
}

/// Performs one transition on real values; exactly the transition relation.
pub fn step(state: OrchState, event: Event) -> (r: (OrchState, Action))
    requires
        expects(state, event),
    ensures
        r == spec_step(state, event),
{
    match (state, event) {
        (OrchState::ResolveSession, Event::Loaded { token }) => match token {
            Some(t) => {
                let action_token = t.clone();
                (OrchState::Validating { token: t }, Action::Validate { token: action_token })
            },
            None => (OrchState::Authenticating, Action::Authenticate),
        },
        (OrchState::Authenticating, Event::Authenticated { result }) => match result {
            Ok(t) => {
                let action_token = t.clone();
                (
                    OrchState::Enqueueing { token: t },
                    Action::Enqueue { token: action_token, persist: true },
                )
            },
            Err(err) => (
                OrchState::Failed { error: RunError::Auth(err) },
                Action::Abort { error: RunError::Auth(err) },
            ),
        },
        (OrchState::Validating { token }, Event::Validated { result }) => match result {
            Ok(_) => {
                let action_token = token.clone();
                (
                    OrchState::Enqueueing { token },
                    Action::Enqueue { token: action_token, persist: false },
                )
            },
            Err(ValidationError::Unauthorized) => (
                OrchState::Authenticating,
                Action::Authenticate,
            ),
            Err(ValidationError::Transport) => (
                OrchState::Failed { error: RunError::Validation(ValidationError::Transport) },
                Action::Abort { error: RunError::Validation(ValidationError::Transport) },
            ),
        },
        (OrchState::Enqueueing { token }, Event::Enqueued { result }) => match result {
            Ok(task_id) => {
                let action_token = token.clone();
                let action_task = task_id.clone();
                (
                    OrchState::Polling { token, task_id },
                    Action::Poll { token: action_token, task_id: action_task, delay_seconds: 0 },
                )
            },
            Err(err) => (
                OrchState::Failed { error: RunError::Export(err) },
                Action::Abort { error: RunError::Export(err) },
            ),
        },
        (OrchState::Polling { token, task_id }, Event::Polled { result }) => match result {
            Ok(st) => {
                let complete = String::from_str("complete");
                if st.value == complete {
                    let action_url = st.export_url.clone();
                    (
                        OrchState::Downloading { url: st.export_url },
                        Action::Download { url: action_url },
                    )
                } else {
                    let action_token = token.clone();
                    let action_task = task_id.clone();
                    (
                        OrchState::Polling { token, task_id },
                        Action::Poll {
                            token: action_token,
                            task_id: action_task,
                            delay_seconds: POLL_INTERVAL_SECONDS,
                        },
                    )
                }
            },
            Err(err) => (
                OrchState::Failed { error: RunError::Poll(err) },
                Action::Abort { error: RunError::Poll(err) },
            ),
        },
        (OrchState::Downloading { .. }, Event::Downloaded { ok }) => {
            if ok {
                (OrchState::Done, Action::Report)
            } else {
                (
                    OrchState::Failed { error: RunError::Download },
                    Action::Abort { error: RunError::Download },
                )
            }
        },
        _ => vstd::pervasive::unreached(),
    }
}

/// The run has moved past authentication: a token is trusted, or the run is
/// over.
pub open spec fn authentication_settled(s: OrchState) -> bool {
    match s {
        OrchState::Enqueueing { .. } => true,
        OrchState::Polling { .. } => true,
        OrchState::Downloading { .. } => true,
        OrchState::Done => true,
        OrchState::Failed { .. } => true,
        _ => false,
    }
}

/// Completion has been observed, or the run is over: no state from here on
/// polls.
pub open spec fn polling_finished(s: OrchState) -> bool {
    match s {
        OrchState::Downloading { .. } => true,
        OrchState::Done => true,
        OrchState::Failed { .. } => true,
        _ => false,
    }
}

/// An unauthorized validation verdict triggers exactly one re-authentication:
/// the machine asks for one authentication, a successful login hands the
/// freshly issued token to the enqueue step with the order to overwrite the
/// stored record — and from there on (`lemma_no_authentication_after_settled`)
/// no transition ever asks for authentication again.
pub proof fn lemma_unauthorized_validation_reauthenticates_once(stale: String, fresh: String)
    ensures
        spec_step(
            OrchState::Validating { token: stale },
            Event::Validated { result: Err(ValidationError::Unauthorized) },
        ) == (OrchState::Authenticating, Action::Authenticate),
        spec_step(
            OrchState::Authenticating,
            Event::Authenticated { result: Ok(fresh) },
        ) == (
            OrchState::Enqueueing { token: fresh },
            Action::Enqueue { token: fresh, persist: true },
        ),
{
}

/// Once the run has moved past authentication, no reachable transition asks
/// for authentication again: the one re-authentication path cannot repeat.
pub proof fn lemma_no_authentication_after_settled(s: OrchState, e: Event)
    requires
        authentication_settled(s),
        expects(s, e),
    ensures
        authentication_settled(spec_step(s, e).0),
        !(spec_step(s, e).1 is Authenticate),
{
}

/// A validation verdict other than unauthorized aborts the run at once: the
/// machine lands in the terminal failed state — which awaits no further event,
/// so no authentication is ever asked for.
pub proof fn lemma_validation_transport_aborts(token: String)
    ensures
        spec_step(
            OrchState::Validating { token },
            Event::Validated { result: Err(ValidationError::Transport) },
        ) == (
            OrchState::Failed { error: RunError::Validation(ValidationError::Transport) },
            Action::Abort { error: RunError::Validation(ValidationError::Transport) },
        ),
        forall|e: Event|
            !(#[trigger] expects(
                OrchState::Failed { error: RunError::Validation(ValidationError::Transport) },
                e,
            )),
{
}

/// The poll loop repeats with the fixed wait of five seconds until completion
/// is first observed, and on that first completion stops polling and moves to
/// the download — from there on (`lemma_no_poll_after_complete`) no transition
/// ever polls again.
pub proof fn lemma_poll_until_complete(token: String, task_id: String, st: TaskStatus)
    ensures
        st.value@ != complete_status() ==> spec_step(
            OrchState::Polling { token, task_id },
            Event::Polled { result: Ok(st) },
        ) == (
            OrchState::Polling { token, task_id },
            Action::Poll { token, task_id, delay_seconds: POLL_INTERVAL_SECONDS },
        ),
        st.value@ == complete_status() ==> spec_step(
            OrchState::Polling { token, task_id },
            Event::Polled { result: Ok(st) },
        ) == (
            OrchState::Downloading { url: st.export_url },
            Action::Download { url: st.export_url },
        ),
        POLL_INTERVAL_SECONDS == 5,
{
}

/// Once completion is observed — or the run is over — no reachable transition
/// ever asks for another poll.
pub proof fn lemma_no_poll_after_complete(s: OrchState, e: Event)
    requires
        polling_finished(s),
        expects(s, e),
    ensures
        polling_finished(spec_step(s, e).0),
        !(spec_step(s, e).1 is Poll),
{
}

/// The actions a run asks for, one per event, from a given state onwards.
pub open spec fn run_actions(s: OrchState, events: Seq<Event>) -> Seq<Action>
    decreases events.len(),
{
    if events.len() == 0 {
        Seq::empty()
    } else {
        seq![spec_step(s, events[0]).1] + run_actions(
            spec_step(s, events[0]).0,
            events.subrange(1, events.len() as int),
        )
    }
}

/// Every event draws exactly one action.
pub proof fn lemma_run_actions_len(s: OrchState, events: Seq<Event>)
    ensures
        run_actions(s, events).len() == events.len(),
    decreases events.len(),
{
    if events.len() > 0 {
        lemma_run_actions_len(spec_step(s, events[0]).0, events.subrange(1, events.len() as int));
    }
}

/// No action of the list asks for authentication.
pub open spec fn no_authenticate(actions: Seq<Action>) -> bool {
    forall|i: int| 0 <= i < actions.len() ==> !((#[trigger] actions[i]) is Authenticate)
}

/// No action of the list asks for a poll.
pub open spec fn no_poll(actions: Seq<Action>) -> bool {
    forall|i: int| 0 <= i < actions.len() ==> !((#[trigger] actions[i]) is Poll)
}

/// Over a whole run: once the run has moved past authentication, no sequence
/// of events — however long — ever draws another authentication request.
pub proof fn lemma_trace_no_authentication_after_settled(s: OrchState, events: Seq<Event>)
    requires
        authentication_settled(s),
    ensures
        no_authenticate(run_actions(s, events)),
    decreases events.len(),
{
    if events.len() > 0 {
        let next = spec_step(s, events[0]).0;
        assert(authentication_settled(next));
        lemma_trace_no_authentication_after_settled(next, events.subrange(1, events.len() as int));
    }
}

/// Over a whole run: once completion is observed, no sequence of events —
/// however long — ever draws another poll.
pub proof fn lemma_trace_no_poll_after_complete(s: OrchState, events: Seq<Event>)
    requires
        polling_finished(s),
    ensures
        no_poll(run_actions(s, events)),
    decreases events.len(),
{
    if events.len() > 0 {
        let next = spec_step(s, events[0]).0;
        assert(polling_finished(next));
        lemma_trace_no_poll_after_complete(next, events.subrange(1, events.len() as int));
    }
}

/// The whole of the self-healing path, over a full run: after an unauthorized
/// validation verdict the machine asks for authentication once; the successful
/// login hands the fresh token to the enqueue step with the order to
/// overwrite the stored record; and whatever events follow, no action of the
/// rest of the run asks for authentication again.
pub proof fn lemma_unauthorized_draws_exactly_one_authentication(
    stale: String,
    fresh: String,
    rest: Seq<Event>,
)
    ensures
        ({
            let events = seq![
                Event::Validated { result: Err(ValidationError::Unauthorized) },
                Event::Authenticated { result: Ok(fresh) },
            ] + rest;
            let actions = run_actions(OrchState::Validating { token: stale }, events);
            &&& actions.len() == events.len()
            &&& actions[0] == Action::Authenticate
            &&& actions[1] == (Action::Enqueue { token: fresh, persist: true })
            &&& no_authenticate(actions.subrange(2, actions.len() as int))
        }),
{
    let e0 = Event::Validated { result: Err(ValidationError::Unauthorized) };
    let e1 = Event::Authenticated { result: Ok(fresh) };
    let events = seq![e0, e1] + rest;
    let s0 = OrchState::Validating { token: stale };
    let actions = run_actions(s0, events);
    lemma_run_actions_len(s0, events);
    assert(events[0] == e0);
    let tail1 = events.subrange(1, events.len() as int);
    assert(spec_step(s0, e0) == (OrchState::Authenticating, Action::Authenticate));
    assert(tail1[0] == e1);
    let tail2 = tail1.subrange(1, tail1.len() as int);
    assert(tail2 =~= rest);
    let s2 = OrchState::Enqueueing { token: fresh };
    assert(spec_step(OrchState::Authenticating, e1) == (
        s2,
        Action::Enqueue { token: fresh, persist: true },
    ));
    lemma_trace_no_authentication_after_settled(s2, rest);
    lemma_run_actions_len(s2, rest);
    assert(run_actions(s0, events) == seq![Action::Authenticate] + run_actions(
        OrchState::Authenticating,
        tail1,
    ));
    assert(run_actions(OrchState::Authenticating, tail1) == seq![
        Action::Enqueue { token: fresh, persist: true },
    ] + run_actions(s2, tail2));
    assert(actions =~= seq![Action::Authenticate, Action::Enqueue { token: fresh, persist: true }]
        + run_actions(s2, rest));
    assert(actions.subrange(2, actions.len() as int) =~= run_actions(s2, rest));
}

} // verus!
