//! Decisions of the server-side procedure runtime: how executor history
//! entries are stored, how a run's outcome is reported, how the runtime is
//! configured from its environment, what the stub backend answers, and how
//! the HTTP backend reads the replies it gets.
use vstd::prelude::*;

use crate::json::{JsonModel, JsonValue};
use crate::records::{ProcedureRunStatus, StateHistoryEntry as StoredEntry, StateOutcome};
use crate::state_machine::{
    BackendError, ExecutionId, ExecutionOutput, ExecutorError, MergeOutcome, RunOutcome, SessionId,
    StateEvent, StateHistoryEntry, opt_str,
};
use crate::text::{chars_of, decimal, extend_chars, extend_str, push_decimal, string_from, string_of};
use crate::uuids::{is_random_uuid, new_uuid, parse_uuid, uuid_parsed, uuid_string, uuid_text};

verus! {

broadcast use vstd::std_specs::vec::group_vec_axioms;

/// `chrono::Utc::now()`, as milliseconds since the Unix epoch. Nothing is
/// stated of the result: it is the clock's reading.
#[verifier::external_body]
fn now_millis() -> (r: i64) {
    chrono::Utc::now().timestamp_millis()
}

// ---------------------------------------------------------------------------
// History entries
// ---------------------------------------------------------------------------

/// How a stored entry records the state's outcome: a gate by its verdict,
/// an action by whether the run moved on, an exhausted retry budget as a
/// failure.
pub open spec fn entry_outcome(from: Seq<char>, to: Seq<char>, ev: StateEvent) -> StateOutcome {
    match ev {
        StateEvent::GateEvaluated { passed, .. } => if passed {
            StateOutcome::Success
        } else {
            StateOutcome::Failure
        },
        StateEvent::ActionCompleted { .. } => if from == to {
            StateOutcome::Failure
        } else {
            StateOutcome::Success
        },
        StateEvent::MaxAttemptsExhausted { .. } => StateOutcome::Failure,
    }
}

/// The summary a stored entry carries.
pub open spec fn entry_summary(ev: StateEvent) -> Seq<char> {
    match ev {
        StateEvent::GateEvaluated { summary, .. } => summary@,
        StateEvent::ActionCompleted { action_kind, .. } => "action: "@ + action_kind@,
        StateEvent::MaxAttemptsExhausted { attempts } => "max_attempts exhausted after "@ + decimal(
            attempts as nat,
        ) + " tries"@,
    }
}

/// The session a stored entry names: the action's session, if any.
pub open spec fn entry_session(ev: StateEvent) -> Option<Seq<char>> {
    match ev {
        StateEvent::ActionCompleted { session_id, .. } => opt_str(session_id),
        _ => None,
    }
}

/// Whether a stored entry records the executor's entry for a transition
/// from `from` to `to`, at any time.
pub open spec fn converted(from: Seq<char>, to: Seq<char>, orch: StateHistoryEntry, e: StoredEntry) -> bool {
    &&& e.state@ == orch.state@
    &&& e.attempt == orch.attempt
    &&& e.outcome == Some(entry_outcome(from, to, orch.event))
    &&& opt_str(e.gate_summary) == Some(entry_summary(orch.event))
    &&& opt_str(e.session_id) == entry_session(orch.event)
}

/// The stored form of an executor history entry for the transition from
/// `from` to `to`, entered and exited at `now`.
pub fn convert_entry_at(from: &str, to: &str, orch: &StateHistoryEntry, now: i64) -> (r: StoredEntry)
    ensures
        converted(from@, to@, *orch, r),
        r.entered_at == now,
        r.exited_at == Some(now),
{
    let (outcome, summary, session_id) = match &orch.event {
        StateEvent::GateEvaluated { passed, summary } => (
            if *passed {
                StateOutcome::Success
            } else {
                StateOutcome::Failure
            },
            summary.clone(),
            None,
        ),
        StateEvent::ActionCompleted { action_kind, session_id, .. } => {
            let mut m: Vec<char> = Vec::new();
            extend_str(&mut m, "action: ");
            extend_str(&mut m, action_kind.as_str());
            let same = crate::text::str_eq(from, to);
            (
                if same {
                    StateOutcome::Failure
                } else {
                    StateOutcome::Success
                },
                string_of(&m),
                match session_id {
                    Some(s) => Some(s.clone()),
                    None => None,
                },
            )
        },
        StateEvent::MaxAttemptsExhausted { attempts } => {
            let mut m: Vec<char> = Vec::new();
            extend_str(&mut m, "max_attempts exhausted after ");
            push_decimal(&mut m, *attempts as u64);
            extend_str(&mut m, " tries");
            (StateOutcome::Failure, string_of(&m), None)
        },
    };
    StoredEntry {
        state: orch.state.clone(),
        entered_at: now,
        exited_at: Some(now),
        outcome: Some(outcome),
        gate_summary: Some(summary),
        attempt: orch.attempt,
        session_id,
    }
}

/// The stored form of an executor history entry for the transition from
/// `from` to `to`, stamped with the current time.
pub fn convert_entry(from: &str, to: &str, orch: &StateHistoryEntry) -> (r: StoredEntry)
    ensures
        converted(from@, to@, *orch, r),
        r.exited_at == Some(r.entered_at),
{
    let now = now_millis();
    convert_entry_at(from, to, orch, now)
}

// ---------------------------------------------------------------------------
// Run outcomes
// ---------------------------------------------------------------------------

/// The stored status of a run that ended with `outcome`.
pub fn run_status_for(outcome: RunOutcome) -> (r: ProcedureRunStatus)
    ensures
        outcome == RunOutcome::Success ==> r == ProcedureRunStatus::Succeeded,
        outcome == RunOutcome::Failure ==> r == ProcedureRunStatus::Failed,
{
    match outcome {
        RunOutcome::Success => ProcedureRunStatus::Succeeded,
        RunOutcome::Failure => ProcedureRunStatus::Failed,
    }
}

/// The label of a finished run, as the lead agent is told it: a run that
/// stopped on an executor error counts as failed.
pub fn terminal_label(outcome: &Result<RunOutcome, ExecutorError>) -> (r: &'static str)
    ensures
        r@ == match outcome {
            Ok(RunOutcome::Success) => "succeeded"@,
            _ => "failed"@,
        },
{
    match outcome {
        Ok(RunOutcome::Success) => "succeeded",
        _ => "failed",
    }
}

// ---------------------------------------------------------------------------
// Configuration
// ---------------------------------------------------------------------------

/// The code of a character with ASCII upper case folded to lower case.
pub open spec fn ascii_fold(c: char) -> u32 {
    let u = c as u32;
    if 65 <= u <= 90 {
        (u + 32) as u32
    } else {
        u
    }
}

/// Equality of two texts ignoring ASCII case.
pub open spec fn ascii_eq(a: Seq<char>, b: Seq<char>) -> bool {
    a.len() == b.len() && forall|i: int| 0 <= i < a.len() ==> ascii_fold(#[trigger] a[i]) == ascii_fold(b[i])
}

/// Whether two texts are equal ignoring ASCII case.
pub fn eq_ignore_ascii_case(a: &str, b: &str) -> (r: bool)
    ensures
        r == ascii_eq(a@, b@),
{
    let av = chars_of(a);
    let bv = chars_of(b);
    if av.len() != bv.len() {
        return false;
    }
    let mut i: usize = 0;
    while i < av.len()
        invariant
            av@ == a@,
            bv@ == b@,
            av.len() == bv.len(),
            i <= av.len(),
            forall|j: int| 0 <= j < i ==> ascii_fold(#[trigger] av@[j]) == ascii_fold(bv@[j]),
        decreases av.len() - i,
    {
        let x = av[i] as u32;
        let y = bv[i] as u32;
        let fx = if 65 <= x && x <= 90 {
            x + 32
        } else {
            x
        };
        let fy = if 65 <= y && y <= 90 {
            y + 32
        } else {
            y
        };
        if fx != fy {
            return false;
        }
        i += 1;
    }
    true
}

/// Whether a flag's value turns it on: `1`, `true` or `yes`, in any ASCII
/// case.
pub fn is_truthy_flag(value: &str) -> (r: bool)
    ensures
        r == (ascii_eq(value@, "1"@) || ascii_eq(value@, "true"@) || ascii_eq(value@, "yes"@)),
{
    eq_ignore_ascii_case(value, "1") || eq_ignore_ascii_case(value, "true") || eq_ignore_ascii_case(
        value,
        "yes",
    )
}

/// Whether the configured backend kind selects the stub backend.
pub fn uses_stub_backend(kind: &str) -> (r: bool)
    ensures
        r == ascii_eq(kind@, "stub"@),
{
    eq_ignore_ascii_case(kind, "stub")
}

/// The base URL the HTTP backend talks to, from the environment's
/// `VIBE_BACKEND_URL`, `HOST`, `BACKEND_PORT` and `PORT`.
pub open spec fn base_url_spec(
    url: Option<Seq<char>>,
    host: Option<Seq<char>>,
    backend_port: Option<Seq<char>>,
    port: Option<Seq<char>>,
) -> Result<Seq<char>, Seq<char>> {
    match url {
        Some(u) => Ok(u),
        None => {
            let h = match host {
                Some(h) => h,
                None => "127.0.0.1"@,
            };
            let p = match backend_port {
                Some(p) => Some(p),
                None => port,
            };
            match p {
                Some(p) => Ok("http://"@ + h + ":"@ + p),
                None => Err("neither VIBE_BACKEND_URL nor BACKEND_PORT is set"@),
            }
        },
    }
}

pub open spec fn opt_slice(o: Option<&str>) -> Option<Seq<char>> {
    match o {
        Some(s) => Some(s@),
        None => None,
    }
}

pub open spec fn text_result(r: Result<String, String>) -> Result<Seq<char>, Seq<char>> {
    match r {
        Ok(s) => Ok(s@),
        Err(e) => Err(e@),
    }
}

/// Resolves the backend's base URL from the values of the environment
/// variables that are set.
pub fn base_url_from(url: Option<&str>, host: Option<&str>, backend_port: Option<&str>, port: Option<&str>) -> (r:
    Result<String, String>)
    ensures
        text_result(r) == base_url_spec(opt_slice(url), opt_slice(host), opt_slice(backend_port), opt_slice(port)),
{
    if let Some(u) = url {
        return Ok(string_from(u));
    }
    let h = match host {
        Some(h) => h,
        None => "127.0.0.1",
    };
    let p = match backend_port {
        Some(p) => p,
        None => match port {
            Some(p) => p,
            None => {
                return Err(string_from("neither VIBE_BACKEND_URL nor BACKEND_PORT is set"));
            },
        },
    };
    let mut out: Vec<char> = Vec::new();
    extend_str(&mut out, "http://");
    extend_str(&mut out, h);
    extend_str(&mut out, ":");
    extend_str(&mut out, p);
    Ok(string_of(&out))
}

/// `s` without its trailing `/` characters.
pub open spec fn without_trailing_slashes(s: Seq<char>) -> Seq<char>
    decreases s.len(),
{
    if s.len() > 0 && s.last() == '/' {
        without_trailing_slashes(s.drop_last())
    } else {
        s
    }
}

/// Where the HTTP backend sends its requests.
pub struct BackendUrl {
    pub base_url: String,
}

impl BackendUrl {
    /// The base URL without trailing slashes.
    pub fn new(base_url: &str) -> (r: BackendUrl)
        ensures
            r.base_url@ == without_trailing_slashes(base_url@),
    {
        let v = chars_of(base_url);
        let mut n = v.len();
        proof {
            assert(v@.take(n as int) =~= v@);
        }
        while n > 0 && v[n - 1] == '/'
            invariant
                n <= v.len(),
                v@ == base_url@,
                without_trailing_slashes(v@.take(n as int)) == without_trailing_slashes(base_url@),
            decreases n,
        {
            proof {
                assert(v@.take(n as int).drop_last() =~= v@.take(n - 1));
            }
            n -= 1;
        }
        let s = crate::text::slice_chars(&v, 0, n);
        proof {
            assert(s@ =~= v@.take(n as int));
        }
        BackendUrl { base_url: string_of(&s) }
    }

    /// The URL of an API path.
    pub fn url(&self, path: &str) -> (r: String)
        ensures
            r@ == self.base_url@ + path@,
    {
        let mut out = chars_of(self.base_url.as_str());
        extend_str(&mut out, path);
        string_of(&out)
    }
}

// ---------------------------------------------------------------------------
// The stub backend
// ---------------------------------------------------------------------------

/// The commit the stub backend reports for every merge.
pub open spec fn stub_commit() -> Seq<char> {
    "stub-merge-commit"@
}

/// The reply the stub backend's review gives: valid JSON that passes a
/// `response.verdict == 'pass'` gate.
pub open spec fn stub_reply() -> Seq<char> {
    "{\"verdict\":\"pass\",\"feedback\":\"stub approved\"}"@
}

/// A backend that does nothing and succeeds at everything.
pub struct StubBackend;

impl StubBackend {
    /// A new session with a fresh random id (the text of a random UUID).
    pub fn create_session(&self) -> (r: SessionId)
        ensures
            exists|id: u128| is_random_uuid(id) && r.0@ == uuid_text(id),
    {
        let id = new_uuid();
        SessionId(uuid_string(id))
    }

    /// A follow-up execution with a fresh random id.
    pub fn follow_up(&self) -> (r: ExecutionId)
        ensures
            exists|id: u128| is_random_uuid(id) && r.0@ == uuid_text(id),
    {
        let id = new_uuid();
        ExecutionId(uuid_string(id))
    }

    /// A review execution with a fresh random id.
    pub fn start_review(&self) -> (r: ExecutionId)
        ensures
            exists|id: u128| is_random_uuid(id) && r.0@ == uuid_text(id),
    {
        let id = new_uuid();
        ExecutionId(uuid_string(id))
    }

    /// Every merge succeeds.
    pub fn merge(&self) -> (r: MergeOutcome)
        ensures
            r matches MergeOutcome::Merged { commit_sha } && commit_sha@ == stub_commit(),
    {
        MergeOutcome::Merged { commit_sha: string_from("stub-merge-commit") }
    }

    /// Every execution completes with exit code 0 and an approving review.
    pub fn completion(&self) -> (r: ExecutionOutput)
        ensures
            r.stdout@ == "stub"@,
            r.stderr@ == Seq::<char>::empty(),
            r.exit_code == Some(0i32),
            opt_str(r.last_assistant_message) == Some(stub_reply()),
    {
        ExecutionOutput {
            stdout: string_from("stub"),
            stderr: String::new(),
            exit_code: Some(0),
            last_assistant_message: Some(string_from("{\"verdict\":\"pass\",\"feedback\":\"stub approved\"}")),
        }
    }
}

// ---------------------------------------------------------------------------
// Reading the HTTP backend's replies
// ---------------------------------------------------------------------------

pub open spec fn backend_text(e: BackendError) -> Seq<char> {
    match e {
        BackendError::Generic(m) => m@,
    }
}

/// The message for a workspace with no repository to merge.
pub open spec fn no_repos_text(workspace: Seq<char>) -> Seq<char> {
    "workspace "@ + workspace + " has no repos to merge"@
}

/// The message for a workspace with several repositories.
pub open spec fn many_repos_text(workspace: Seq<char>, n: nat) -> Seq<char> {
    "workspace "@ + workspace + " has "@ + decimal(n)
        + " repos; merge expects exactly one. Multi-repo merge is not yet supported."@
}

/// The repository a merge applies to: the workspace's only one.
pub fn merge_repo(workspace: &str, repo_ids: &Vec<String>) -> (r: Result<String, BackendError>)
    ensures
        repo_ids.len() == 1 ==> (r matches Ok(id) && id@ == repo_ids@[0]@),
        repo_ids.len() == 0 ==> (r matches Err(e) && backend_text(e) == no_repos_text(workspace@)),
        repo_ids.len() > 1 ==> (r matches Err(e) && backend_text(e) == many_repos_text(
            workspace@,
            repo_ids.len() as nat,
        )),
{
    if repo_ids.len() == 1 {
        return Ok(repo_ids[0].clone());
    }
    let mut m: Vec<char> = Vec::new();
    extend_str(&mut m, "workspace ");
    extend_str(&mut m, workspace);
    if repo_ids.len() == 0 {
        extend_str(&mut m, " has no repos to merge");
    } else {
        extend_str(&mut m, " has ");
        push_decimal(&mut m, repo_ids.len() as u64);
        extend_str(&mut m, " repos; merge expects exactly one. Multi-repo merge is not yet supported.");
    }
    Err(BackendError::Generic(string_of(&m)))
}

/// What a merge into a workspace's repository reports.
pub fn merged(workspace: &str, repo: &str) -> (r: MergeOutcome)
    ensures
        r matches MergeOutcome::Merged { commit_sha } && commit_sha@ == "workspace:"@ + workspace@ + "/repo:"@
            + repo@,
{
    let mut m: Vec<char> = Vec::new();
    extend_str(&mut m, "workspace:");
    extend_str(&mut m, workspace);
    extend_str(&mut m, "/repo:");
    extend_str(&mut m, repo);
    MergeOutcome::Merged { commit_sha: string_of(&m) }
}

/// What one poll of an execution's status tells.
pub enum Poll {
    /// Still running: poll again after the interval.
    Pending,
    /// Completed, with its exit code.
    Completed { exit_code: Option<i32> },
    /// Ended otherwise.
    Failed(BackendError),
}

/// The message for an execution that ended with another status.
pub open spec fn ended_text(execution: Seq<char>, status: Seq<char>) -> Seq<char> {
    "execution "@ + execution + " ended with status `"@ + status + "`"@
}

/// Reads one poll of an execution: `running` waits, `completed` finishes
/// with the exit code (as an `i32`), anything else fails.
pub fn poll_status(execution: &str, status: &str, exit_code: Option<i64>) -> (r: Poll)
    ensures
        status@ == "running"@ ==> r is Pending,
        status@ == "completed"@ ==> (r matches Poll::Completed { exit_code: c } && c == match exit_code {
            Some(x) => Some(#[verifier::truncate] (x as i32)),
            None => None,
        }),
        status@ != "running"@ && status@ != "completed"@ ==> (r matches Poll::Failed(e) && backend_text(e)
            == ended_text(execution@, status@)),
{
    proof {
        reveal_strlit("running");
        reveal_strlit("completed");
        assert("running"@.len() == 7);
        assert("completed"@.len() == 9);
    }
    if crate::text::str_eq(status, "running") {
        Poll::Pending
    } else if crate::text::str_eq(status, "completed") {
        let c: Option<i32> = match exit_code {
            Some(x) => Some(#[verifier::truncate] (x as i32)),
            None => None,
        };
        Poll::Completed { exit_code: c }
    } else {
        let mut m: Vec<char> = Vec::new();
        extend_str(&mut m, "execution ");
        extend_str(&mut m, execution);
        extend_str(&mut m, " ended with status `");
        extend_str(&mut m, status);
        extend_str(&mut m, "`");
        Poll::Failed(BackendError::Generic(string_of(&m)))
    }
}

/// The additional prompt of a review request: none when the prompt is empty.
pub fn review_prompt(prompt: &str) -> (r: Option<String>)
    ensures
        prompt@.len() == 0 ==> r is None,
        prompt@.len() > 0 ==> (r matches Some(p) && p@ == prompt@),
{
    let v = chars_of(prompt);
    if v.len() == 0 {
        None
    } else {
        Some(string_of(&v))
    }
}

/// The executor a follow-up runs with: the one asked for, else the
/// session's own.
pub fn follow_up_executor(requested: Option<&str>, session: &str, session_executor: Option<String>) -> (r:
    Result<String, BackendError>)
    ensures
        match requested {
            Some(e) => r matches Ok(x) && x@ == e@,
            None => match session_executor {
                Some(e) => r == Ok::<String, BackendError>(e),
                None => r matches Err(e) && backend_text(e) == "session "@ + session@ + " has no executor set"@,
            },
        },
{
    match requested {
        Some(e) => Ok(string_from(e)),
        None => match session_executor {
            Some(e) => Ok(e),
            None => {
                let mut m: Vec<char> = Vec::new();
                extend_str(&mut m, "session ");
                extend_str(&mut m, session);
                extend_str(&mut m, " has no executor set");
                Err(BackendError::Generic(string_of(&m)))
            },
        },
    }
}

/// The workspace a new session is created in: the `workspace_id` string of
/// the run's params, read as a UUID.
pub open spec fn workspace_param(params: JsonModel) -> Result<u128, Seq<char>> {
    match params.get("workspace_id"@) {
        Some(JsonModel::Str(s)) => match uuid_parsed(s) {
            Ok(v) => Ok(v),
            Err(m) => Err("invalid workspace_id `"@ + s + "`: "@ + m),
        },
        _ => Err("params.workspace_id is required for VkApiBackend create_session"@),
    }
}

pub open spec fn id_result(r: Result<u128, BackendError>) -> Result<u128, Seq<char>> {
    match r {
        Ok(v) => Ok(v),
        Err(e) => Err(backend_text(e)),
    }
}

/// Reads the workspace of a new session from the run's params.
pub fn workspace_id_param(params: &JsonValue) -> (r: Result<u128, BackendError>)
    ensures
        id_result(r) == workspace_param(params.model()),
{
    let key = chars_of("workspace_id");
    let s = match params.get(&key) {
        Some(v) => match v.as_str() {
            Some(s) => s,
            None => {
                return Err(
                    BackendError::Generic(
                        string_from("params.workspace_id is required for VkApiBackend create_session"),
                    ),
                );
            },
        },
        None => {
            return Err(
                BackendError::Generic(
                    string_from("params.workspace_id is required for VkApiBackend create_session"),
                ),
            );
        },
    };
    match parse_uuid(s.as_str()) {
        Ok(v) => Ok(v),
        Err(e) => {
            let mut m: Vec<char> = Vec::new();
            extend_str(&mut m, "invalid workspace_id `");
            extend_str(&mut m, s.as_str());
            extend_str(&mut m, "`: ");
            extend_str(&mut m, e.as_str());
            Err(BackendError::Generic(string_of(&m)))
        },
    }
}

// ---------------------------------------------------------------------------
// Notices to the lead agent
// ---------------------------------------------------------------------------

/// The first eight characters of a run's id, as notices show it.
pub open spec fn short_id(run: u128) -> Seq<char> {
    uuid_text(run).take(8)
}

/// The notice of a finished run.
pub open spec fn terminal_notice_text(run: u128, procedure: Seq<char>, label: Seq<char>, final_state: Seq<char>) -> Seq<
    char,
> {
    "[procedure-runtime] Run "@ + short_id(run) + " ("@ + procedure + ") finished: "@ + label
        + ". final_state="@ + final_state
        + ". (System event from the runtime — surface to the user as a brief notification.)"@
}

/// The notice of a run that waits for a human's approval.
pub open spec fn awaiting_notice_text(run: u128, procedure: Seq<char>, state: Seq<char>, gate_prompt: Seq<char>) -> Seq<
    char,
> {
    "[procedure-runtime] Run "@ + short_id(run) + " ("@ + procedure + ") is awaiting human approval at state `"@
        + state + "`. Gate prompt: \""@ + gate_prompt
        + "\". You can call `approve_procedure_run` or `reject_procedure_run` with run_id="@ + uuid_text(run)
        + " once the user gives the go-ahead. Surface this to the user."@
}

fn push_short_id(out: &mut Vec<char>, run: u128) -> (text: Vec<char>)
    ensures
        final(out)@ == old(out)@ + short_id(run),
        text@ == uuid_text(run),
{
    let t = chars_of(uuid_string(run).as_str());
    let head = crate::text::slice_chars(&t, 0, 8);
    extend_chars(out, &head);
    proof {
        assert(head@ =~= short_id(run));
    }
    t
}

/// Tells the lead agent that a run finished.
pub fn terminal_notice(run: u128, procedure: &str, label: &str, final_state: &str) -> (r: String)
    ensures
        r@ == terminal_notice_text(run, procedure@, label@, final_state@),
{
    let mut m: Vec<char> = Vec::new();
    extend_str(&mut m, "[procedure-runtime] Run ");
    let _ = push_short_id(&mut m, run);
    extend_str(&mut m, " (");
    extend_str(&mut m, procedure);
    extend_str(&mut m, ") finished: ");
    extend_str(&mut m, label);
    extend_str(&mut m, ". final_state=");
    extend_str(&mut m, final_state);
    extend_str(&mut m, ". (System event from the runtime — surface to the user as a brief notification.)");
    proof {
        assert(m@ =~= terminal_notice_text(run, procedure@, label@, final_state@));
    }
    string_of(&m)
}

/// Tells the lead agent that a run waits for a human's approval.
pub fn awaiting_notice(run: u128, procedure: &str, state: &str, gate_prompt: &str) -> (r: String)
    ensures
        r@ == awaiting_notice_text(run, procedure@, state@, gate_prompt@),
{
    let mut m: Vec<char> = Vec::new();
    extend_str(&mut m, "[procedure-runtime] Run ");
    let full = push_short_id(&mut m, run);
    extend_str(&mut m, " (");
    extend_str(&mut m, procedure);
    extend_str(&mut m, ") is awaiting human approval at state `");
    extend_str(&mut m, state);
    extend_str(&mut m, "`. Gate prompt: \"");
    extend_str(&mut m, gate_prompt);
    extend_str(&mut m, "\". You can call `approve_procedure_run` or `reject_procedure_run` with run_id=");
    extend_chars(&mut m, &full);
    extend_str(&mut m, " once the user gives the go-ahead. Surface this to the user.");
    proof {
        assert(m@ =~= awaiting_notice_text(run, procedure@, state@, gate_prompt@));
    }
    string_of(&m)
}

} // verus!
