//! Procedure runtime: the decisions of a procedure run.
//!
//! A run starts in the procedure's initial state and repeatedly executes the
//! current state: its action (a call into the execution backend), then its
//! gate (a check of the action's result), and finally follows `on_success`
//! or `on_failure`. A failing state is retried up to `max_attempts` times
//! (default 1) before falling through to `on_failure`. A terminal state ends
//! the run with its outcome.
//!
//! Template interpolation in prompts and gate commands supports `{{name}}`
//! and `{{path.to.field}}` over the run context: initial trigger params at
//! the root, plus, once a gate has run, `gate.output`, `gate.response`, and
//! `gate.<state>.output` / `gate.<state>.response`.
//!
//! The backend calls, gate evaluations and persistence are performed by the
//! caller, which hands each result back to the `RunMachine`; this module
//! decides what to do next.
use vstd::prelude::*;

use crate::gates::{GateError, GateFault, GateOutcome};
use crate::json::{
    JsonModel, JsonValue, entries_model, entries_well_formed, lemma_obj_insert_well_formed, obj_insert, object_insert,
};
use crate::procedure::{
    Action, Gate, Procedure, State, Terminal, ValidationError, ValidationFault, state_contains,
    state_entries, state_get, state_lookup,
};
use crate::template::{render, render_template};
use crate::text::{chars_eq, chars_of, string_from};

verus! {

broadcast use vstd::std_specs::vec::group_vec_axioms;

#[derive(Debug, PartialEq, Eq, Hash)]
pub struct SessionId(pub String);

#[derive(Debug, PartialEq, Eq, Hash)]
pub struct ExecutionId(pub String);

#[derive(Debug, PartialEq, Eq)]
pub struct ExecutionOutput {
    pub stdout: String,
    pub stderr: String,
    pub exit_code: Option<i32>,
    pub last_assistant_message: Option<String>,
}

#[derive(Debug, PartialEq, Eq)]
pub enum MergeOutcome {
    Merged { commit_sha: String },
    Conflict { detail: String },
}

#[derive(Debug)]
pub enum BackendError {
    Generic(String),
}

#[derive(Debug, PartialEq, Eq)]
pub enum StateEvent {
    ActionCompleted { action_kind: String, session_id: Option<String>, execution_id: Option<String> },
    GateEvaluated { passed: bool, summary: String },
    MaxAttemptsExhausted { attempts: u32 },
}

#[derive(Debug, PartialEq, Eq)]
pub struct StateHistoryEntry {
    pub state: String,
    pub attempt: u32,
    pub event: StateEvent,
}

#[derive(Debug, Clone, Copy, PartialEq, Eq)]
pub enum RunOutcome {
    Success,
    Failure,
}

#[derive(Debug)]
pub enum ExecutorError {
    Validation(ValidationError),
    UnknownState(String),
    MissingTransition(String, &'static str),
    MaxAttemptsExhausted { state: String, attempts: u32 },
    UnknownSessionRef(String),
    Backend(BackendError),
    Gate(GateError),
}

// ---------------------------------------------------------------------------
// Models
// ---------------------------------------------------------------------------

pub ghost struct OutputModel {
    pub stdout: Seq<char>,
    pub stderr: Seq<char>,
    pub exit_code: Option<i32>,
    pub last_assistant_message: Option<Seq<char>>,
}

pub ghost enum EventModel {
    ActionCompleted { kind: Seq<char>, session: Option<Seq<char>>, execution: Option<Seq<char>> },
    GateEvaluated { passed: bool, summary: Seq<char> },
    MaxAttemptsExhausted { attempts: u32 },
}

pub ghost struct EntryModel {
    pub state: Seq<char>,
    pub attempt: u32,
    pub event: EventModel,
}

pub ghost enum ExecFault {
    Validation(ValidationFault),
    UnknownState(Seq<char>),
    MissingTransition(Seq<char>, Seq<char>),
    MaxAttemptsExhausted { state: Seq<char>, attempts: u32 },
    UnknownSessionRef(Seq<char>),
    Backend(Seq<char>),
    Gate(GateFault),
}

pub open spec fn opt_str(o: Option<String>) -> Option<Seq<char>> {
    match o {
        Some(s) => Some(s@),
        None => None,
    }
}

impl ExecutionOutput {
    pub open spec fn model(self) -> OutputModel {
        OutputModel {
            stdout: self.stdout@,
            stderr: self.stderr@,
            exit_code: self.exit_code,
            last_assistant_message: opt_str(self.last_assistant_message),
        }
    }
}

impl BackendError {
    pub open spec fn message(self) -> Seq<char> {
        match self {
            BackendError::Generic(s) => s@,
        }
    }
}

impl StateEvent {
    pub open spec fn model(self) -> EventModel {
        match self {
            StateEvent::ActionCompleted { action_kind, session_id, execution_id } => EventModel::ActionCompleted {
                kind: action_kind@,
                session: opt_str(session_id),
                execution: opt_str(execution_id),
            },
            StateEvent::GateEvaluated { passed, summary } => EventModel::GateEvaluated {
                passed,
                summary: summary@,
            },
            StateEvent::MaxAttemptsExhausted { attempts } => EventModel::MaxAttemptsExhausted { attempts },
        }
    }
}

impl StateEvent {
    pub fn copy(&self) -> (r: StateEvent)
        ensures
            r.model() == self.model(),
    {
        match self {
            StateEvent::ActionCompleted { action_kind, session_id, execution_id } => StateEvent::ActionCompleted {
                action_kind: action_kind.clone(),
                session_id: match session_id {
                    Some(x) => Some(x.clone()),
                    None => None,
                },
                execution_id: match execution_id {
                    Some(x) => Some(x.clone()),
                    None => None,
                },
            },
            StateEvent::GateEvaluated { passed, summary } => StateEvent::GateEvaluated {
                passed: *passed,
                summary: summary.clone(),
            },
            StateEvent::MaxAttemptsExhausted { attempts } => StateEvent::MaxAttemptsExhausted {
                attempts: *attempts,
            },
        }
    }
}

impl StateHistoryEntry {
    pub open spec fn model(self) -> EntryModel {
        EntryModel { state: self.state@, attempt: self.attempt, event: self.event.model() }
    }
}

impl ExecutorError {
    pub open spec fn fault(self) -> ExecFault {
        match self {
            ExecutorError::Validation(e) => ExecFault::Validation(e.fault()),
            ExecutorError::UnknownState(s) => ExecFault::UnknownState(s@),
            ExecutorError::MissingTransition(s, f) => ExecFault::MissingTransition(s@, f@),
            ExecutorError::MaxAttemptsExhausted { state, attempts } => ExecFault::MaxAttemptsExhausted {
                state: state@,
                attempts,
            },
            ExecutorError::UnknownSessionRef(s) => ExecFault::UnknownSessionRef(s@),
            ExecutorError::Backend(e) => ExecFault::Backend(e.message()),
            ExecutorError::Gate(e) => ExecFault::Gate(e.fault()),
        }
    }
}

// ---------------------------------------------------------------------------
// Association lists (ordered maps with unique keys)
// ---------------------------------------------------------------------------

/// The value of the first entry with key `k`.
pub open spec fn assoc_get<V>(s: Seq<(Seq<char>, V)>, k: Seq<char>) -> Option<V>
    decreases s.len(),
{
    if s.len() == 0 {
        None
    } else if s[0].0 == k {
        Some(s[0].1)
    } else {
        assoc_get(s.drop_first(), k)
    }
}

/// Sets key `k` to `v`: the first entry with that key is replaced, or a new
/// entry is appended.
pub open spec fn assoc_put<V>(s: Seq<(Seq<char>, V)>, k: Seq<char>, v: V) -> Seq<(Seq<char>, V)>
    decreases s.len(),
{
    if s.len() == 0 {
        seq![(k, v)]
    } else if s[0].0 == k {
        seq![(k, v)] + s.drop_first()
    } else {
        seq![s[0]] + assoc_put(s.drop_first(), k, v)
    }
}

pub proof fn lemma_assoc_get_prefix<V>(s: Seq<(Seq<char>, V)>, k: Seq<char>, i: int)
    requires
        0 <= i <= s.len(),
        forall|j: int| 0 <= j < i ==> (#[trigger] s[j]).0 != k,
    ensures
        assoc_get(s, k) == assoc_get(s.skip(i), k),
    decreases i,
{
    if i > 0 {
        lemma_assoc_get_prefix(s.drop_first(), k, i - 1);
        assert(s.drop_first().skip(i - 1) =~= s.skip(i));
    } else {
        assert(s.skip(0) =~= s);
    }
}

pub proof fn lemma_assoc_put_prefix<V>(s: Seq<(Seq<char>, V)>, k: Seq<char>, v: V, i: int)
    requires
        0 <= i <= s.len(),
        forall|j: int| 0 <= j < i ==> (#[trigger] s[j]).0 != k,
    ensures
        assoc_put(s, k, v) == s.take(i) + assoc_put(s.skip(i), k, v),
    decreases i,
{
    if i > 0 {
        lemma_assoc_put_prefix(s.drop_first(), k, v, i - 1);
        assert(s.drop_first().skip(i - 1) =~= s.skip(i));
        assert(s.take(i) =~= seq![s[0]] + s.drop_first().take(i - 1));
        assert(assoc_put(s, k, v) =~= s.take(i) + assoc_put(s.skip(i), k, v));
    } else {
        assert(s.skip(0) =~= s);
        assert(s.take(0) + assoc_put(s, k, v) =~= assoc_put(s, k, v));
    }
}

/// Reading a key right after setting it gives the value set.
pub proof fn lemma_assoc_put_get<V>(s: Seq<(Seq<char>, V)>, k: Seq<char>, v: V)
    ensures
        assoc_get(assoc_put(s, k, v), k) == Some(v),
    decreases s.len(),
{
    if s.len() > 0 && s[0].0 != k {
        lemma_assoc_put_get(s.drop_first(), k, v);
        assert(assoc_put(s, k, v).drop_first() =~= assoc_put(s.drop_first(), k, v));
    }
}


// ---------------------------------------------------------------------------
// Run context
// ---------------------------------------------------------------------------

/// What a gate left behind for later templates.
pub struct GateSnapshot {
    output: Option<String>,
    response: Option<JsonValue>,
}

pub ghost struct SnapModel {
    pub output: Option<Seq<char>>,
    pub response: Option<JsonModel>,
}

impl GateSnapshot {
    pub closed spec fn model(self) -> SnapModel {
        SnapModel {
            output: opt_str(self.output),
            response: match self.response {
                Some(v) => Some(v.model()),
                None => None,
            },
        }
    }

    fn copy(&self) -> (r: GateSnapshot)
        ensures
            r.model() == self.model(),
    {
        GateSnapshot {
            output: match &self.output {
                Some(o) => Some(o.clone()),
                None => None,
            },
            response: match &self.response {
                Some(v) => Some(v.deep_clone()),
                None => None,
            },
        }
    }
}

/// The state a run accumulates: the initial params, the session created by
/// each state, the last action output and each state's gate snapshot.
pub struct RunContext {
    initial: JsonValue,
    sessions: Vec<(String, SessionId)>,
    last_action_output: Option<ExecutionOutput>,
    last_gate: Option<GateSnapshot>,
    gates_by_state: Vec<(String, GateSnapshot)>,
}

pub ghost struct ContextModel {
    pub initial: JsonModel,
    pub sessions: Seq<(Seq<char>, Seq<char>)>,
    pub last_output: Option<OutputModel>,
    pub last_gate: Option<SnapModel>,
    pub gates: Seq<(Seq<char>, SnapModel)>,
}

pub open spec fn sessions_model(v: Seq<(String, SessionId)>) -> Seq<(Seq<char>, Seq<char>)> {
    Seq::new(v.len(), |i: int| (v[i].0@, v[i].1.0@))
}

pub closed spec fn snaps_model(v: Seq<(String, GateSnapshot)>) -> Seq<(Seq<char>, SnapModel)> {
    Seq::new(v.len(), |i: int| (v[i].0@, v[i].1.model()))
}

/// The object built from a gate snapshot: `output` and `response` when present.
pub open spec fn snap_object(s: SnapModel) -> Seq<(Seq<char>, JsonModel)> {
    let a = match s.output {
        Some(o) => obj_insert(seq![], "output"@, JsonModel::Str(o)),
        None => seq![],
    };
    match s.response {
        Some(r) => obj_insert(a, "response"@, r),
        None => a,
    }
}

/// Adds one member per state snapshot to a `gate` object.
pub open spec fn add_snaps(obj: Seq<(Seq<char>, JsonModel)>, snaps: Seq<(Seq<char>, SnapModel)>) -> Seq<
    (Seq<char>, JsonModel),
>
    decreases snaps.len(),
{
    if snaps.len() == 0 {
        obj
    } else {
        add_snaps(
            obj_insert(obj, snaps[0].0, JsonModel::Object(snap_object(snaps[0].1))),
            snaps.drop_first(),
        )
    }
}

/// The JSON object templates are rendered against: the initial params (or
/// `{"value": params}` when they are not an object), plus a `gate` member
/// once a gate has run.
pub open spec fn context_view(c: ContextModel) -> JsonModel {
    let root = match c.initial {
        JsonModel::Object(es) => es,
        other => seq![("value"@, other)],
    };
    match c.last_gate {
        None => JsonModel::Object(root),
        Some(l) => JsonModel::Object(
            obj_insert(root, "gate"@, JsonModel::Object(add_snaps(snap_object(l), c.gates))),
        ),
    }
}

/// A gate snapshot whose response, if any, is well-formed JSON.
pub open spec fn snap_well_formed(s: SnapModel) -> bool {
    s.response matches Some(r) ==> r.well_formed()
}

/// A run context whose JSON is well-formed: the initial params and every
/// gate response it keeps.
pub open spec fn context_well_formed(c: ContextModel) -> bool {
    &&& c.initial.well_formed()
    &&& (c.last_gate matches Some(l) ==> snap_well_formed(l))
    &&& forall|i: int| 0 <= i < c.gates.len() ==> snap_well_formed(#[trigger] c.gates[i].1)
}

proof fn lemma_snap_object_well_formed(s: SnapModel)
    requires
        snap_well_formed(s),
    ensures
        entries_well_formed(snap_object(s)),
{
    let e = Seq::<(Seq<char>, JsonModel)>::empty();
    let a = match s.output {
        Some(o) => obj_insert(e, "output"@, JsonModel::Str(o)),
        None => e,
    };
    if let Some(o) = s.output {
        lemma_obj_insert_well_formed(e, "output"@, JsonModel::Str(o));
    }
    if let Some(r) = s.response {
        lemma_obj_insert_well_formed(a, "response"@, r);
    }
}

proof fn lemma_add_snaps_well_formed(obj: Seq<(Seq<char>, JsonModel)>, snaps: Seq<(Seq<char>, SnapModel)>)
    requires
        entries_well_formed(obj),
        forall|i: int| 0 <= i < snaps.len() ==> snap_well_formed(#[trigger] snaps[i].1),
    ensures
        entries_well_formed(add_snaps(obj, snaps)),
    decreases snaps.len(),
{
    if snaps.len() > 0 {
        assert(snap_well_formed(snaps[0].1));
        lemma_snap_object_well_formed(snaps[0].1);
        let v = JsonModel::Object(snap_object(snaps[0].1));
        lemma_obj_insert_well_formed(obj, snaps[0].0, v);
        let rest = snaps.drop_first();
        assert forall|i: int| 0 <= i < rest.len() implies snap_well_formed(#[trigger] rest[i].1) by {
            assert(rest[i] == snaps[i + 1]);
        }
        lemma_add_snaps_well_formed(obj_insert(obj, snaps[0].0, v), rest);
    }
}

/// The view of a well-formed context is well-formed JSON.
pub proof fn lemma_context_view_well_formed(c: ContextModel)
    requires
        context_well_formed(c),
    ensures
        context_view(c).well_formed(),
{
    let root = match c.initial {
        JsonModel::Object(es) => es,
        other => seq![("value"@, other)],
    };
    assert(entries_well_formed(root)) by {
        if !(c.initial is Object) {
            assert(root[0].1 == c.initial);
        }
    }
    if let Some(l) = c.last_gate {
        lemma_snap_object_well_formed(l);
        lemma_add_snaps_well_formed(snap_object(l), c.gates);
        lemma_obj_insert_well_formed(root, "gate"@, JsonModel::Object(add_snaps(snap_object(l), c.gates)));
    }
}

/// Index of the first entry whose key is `k`.
fn key_index<T>(v: &Vec<(String, T)>, k: &String) -> (r: Option<usize>)
    ensures
        match r {
            Some(i) => i < v.len() && v@[i as int].0@ == k@ && forall|j: int|
                0 <= j < i ==> (#[trigger] v@[j]).0@ != k@,
            None => forall|j: int| 0 <= j < v.len() ==> (#[trigger] v@[j]).0@ != k@,
        },
{
    let kv = chars_of(k.as_str());
    let mut i: usize = 0;
    while i < v.len()
        invariant
            i <= v.len(),
            kv@ == k@,
            forall|j: int| 0 <= j < i ==> (#[trigger] v@[j]).0@ != k@,
        decreases v.len() - i,
    {
        let ev = chars_of(v[i].0.as_str());
        if chars_eq(&ev, &kv) {
            return Some(i);
        }
        i += 1;
    }
    None
}

impl RunContext {
    pub closed spec fn model(self) -> ContextModel {
        ContextModel {
            initial: self.initial.model(),
            sessions: sessions_model(self.sessions@),
            last_output: match self.last_action_output {
                Some(o) => Some(o.model()),
                None => None,
            },
            last_gate: match self.last_gate {
                Some(g) => Some(g.model()),
                None => None,
            },
            gates: snaps_model(self.gates_by_state@),
        }
    }

    pub fn new(initial: JsonValue) -> (r: RunContext)
        ensures
            r.model() == (ContextModel {
                initial: initial.model(),
                sessions: seq![],
                last_output: None,
                last_gate: None,
                gates: seq![],
            }),
    {
        let r = RunContext {
            initial,
            sessions: Vec::new(),
            last_action_output: None,
            last_gate: None,
            gates_by_state: Vec::new(),
        };
        proof {
            assert(sessions_model(r.sessions@) =~= seq![]);
            assert(snaps_model(r.gates_by_state@) =~= seq![]);
        }
        r
    }

    /// The session created by state `name`.
    fn session(&self, name: &String) -> (r: Option<String>)
        ensures
            opt_str(r) == assoc_get(self.model().sessions, name@),
    {
        let ghost m = sessions_model(self.sessions@);
        match key_index(&self.sessions, name) {
            Some(i) => {
                proof {
                    assert forall|j: int| 0 <= j < i implies (#[trigger] m[j]).0 != name@ by {
                        assert(m[j].0 == self.sessions@[j].0@);
                    }
                    lemma_assoc_get_prefix(m, name@, i as int);
                    assert(m.skip(i as int)[0] == m[i as int]);
                }
                Some(self.sessions[i].1.0.clone())
            },
            None => {
                proof {
                    assert forall|j: int| 0 <= j < m.len() implies (#[trigger] m[j]).0 != name@ by {
                        assert(m[j].0 == self.sessions@[j].0@);
                    }
                    lemma_assoc_get_prefix(m, name@, m.len() as int);
                }
                None
            },
        }
    }

    fn put_session(&mut self, name: String, sid: SessionId)
        ensures
            final(self).model() == (ContextModel {
                sessions: assoc_put(old(self).model().sessions, name@, sid.0@),
                ..old(self).model()
            }),
    {
        let ghost m = sessions_model(self.sessions@);
        let ghost nm = name@;
        let ghost sm = sid.0@;
        match key_index(&self.sessions, &name) {
            Some(i) => {
                proof {
                    assert forall|j: int| 0 <= j < i implies (#[trigger] m[j]).0 != nm by {
                        assert(m[j].0 == self.sessions@[j].0@);
                    }
                    lemma_assoc_put_prefix(m, nm, sm, i as int);
                    assert(m.skip(i as int)[0] == m[i as int]);
                    assert(m.skip(i as int).drop_first() =~= m.skip(i + 1));
                }
                self.sessions.set(i, (name, sid));
                proof {
                    assert(sessions_model(self.sessions@) =~= m.take(i as int) + assoc_put(m.skip(i as int), nm, sm));
                }
            },
            None => {
                proof {
                    assert forall|j: int| 0 <= j < m.len() implies (#[trigger] m[j]).0 != nm by {
                        assert(m[j].0 == self.sessions@[j].0@);
                    }
                    lemma_assoc_put_prefix(m, nm, sm, m.len() as int);
                    assert(m.skip(m.len() as int).len() == 0);
                }
                self.sessions.push((name, sid));
                proof {
                    assert(sessions_model(self.sessions@) =~= m.take(m.len() as int) + assoc_put(m.skip(m.len() as int), nm, sm));
                }
            },
        }
    }

    fn set_output(&mut self, output: ExecutionOutput)
        ensures
            final(self).model() == (ContextModel { last_output: Some(output.model()), ..old(self).model() }),
    {
        self.last_action_output = Some(output);
    }

    /// Records a gate's outcome for state `state_name`.
    fn update_gate(&mut self, state_name: &String, outcome: &GateOutcome)
        ensures
            final(self).model() == (ContextModel {
                last_gate: Some(gate_snap(outcome.model())),
                gates: assoc_put(old(self).model().gates, state_name@, gate_snap(outcome.model())),
                ..old(self).model()
            }),
    {
        let snap = GateSnapshot {
            output: match &outcome.output {
                Some(o) => Some(o.clone()),
                None => None,
            },
            response: match &outcome.response {
                Some(v) => Some(v.deep_clone()),
                None => None,
            },
        };
        let ghost m = snaps_model(self.gates_by_state@);
        let ghost nm = state_name@;
        let ghost sm = snap.model();
        assert(sm == gate_snap(outcome.model()));
        let copy = snap.copy();
        match key_index(&self.gates_by_state, state_name) {
            Some(i) => {
                proof {
                    assert forall|j: int| 0 <= j < i implies (#[trigger] m[j]).0 != nm by {
                        assert(m[j].0 == self.gates_by_state@[j].0@);
                    }
                    lemma_assoc_put_prefix(m, nm, sm, i as int);
                    assert(m.skip(i as int)[0] == m[i as int]);
                    assert(m.skip(i as int).drop_first() =~= m.skip(i + 1));
                }
                self.gates_by_state.set(i, (state_name.clone(), snap));
                proof {
                    assert(snaps_model(self.gates_by_state@) =~= m.take(i as int) + assoc_put(m.skip(i as int), nm, sm));
                }
            },
            None => {
                proof {
                    assert forall|j: int| 0 <= j < m.len() implies (#[trigger] m[j]).0 != nm by {
                        assert(m[j].0 == self.gates_by_state@[j].0@);
                    }
                    lemma_assoc_put_prefix(m, nm, sm, m.len() as int);
                    assert(m.skip(m.len() as int).len() == 0);
                }
                self.gates_by_state.push((state_name.clone(), snap));
                proof {
                    assert(snaps_model(self.gates_by_state@) =~= m.take(m.len() as int) + assoc_put(m.skip(m.len() as int), nm, sm));
                }
            },
        }
        self.last_gate = Some(copy);
    }

    /// The JSON object templates are rendered against.
    #[verifier::loop_isolation(false)]
    pub fn view(&self) -> (r: JsonValue)
        ensures
            r.model() == context_view(self.model()),
            context_well_formed(self.model()) ==> r.model().well_formed(),
    {
        proof {
            if context_well_formed(self.model()) {
                lemma_context_view_well_formed(self.model());
            }
        }
        let mut root: Vec<(String, JsonValue)> = match &self.initial {
            JsonValue::Object(map) => {
                match self.initial.deep_clone() {
                    JsonValue::Object(m2) => m2,
                    _ => Vec::new(),
                }
            },
            other => {
                let mut m: Vec<(String, JsonValue)> = Vec::new();
                object_insert(&mut m, string_from("value"), other.deep_clone());
                proof {
                    reveal_strlit("value");
                    assert(entries_model(Seq::<(String, JsonValue)>::empty()) =~= Seq::<(Seq<char>, JsonModel)>::empty());
                }
                m
            },
        };
        let ghost rm = match self.initial.model() {
            JsonModel::Object(es) => es,
            other => seq![("value"@, other)],
        };
        assert(entries_model(root@) == rm);
        match &self.last_gate {
            None => JsonValue::Object(root),
            Some(last) => {
                let mut gate_obj = snapshot_object(last);
                let ghost gm = snaps_model(self.gates_by_state@);
                let mut i: usize = 0;
                proof {
                    assert(gm.skip(0) =~= gm);
                }
                while i < self.gates_by_state.len()
                    invariant
                        i <= self.gates_by_state.len(),
                        gm == snaps_model(self.gates_by_state@),
                        add_snaps(snap_object(last.model()), gm) == add_snaps(entries_model(gate_obj@), gm.skip(i as int)),
                    decreases self.gates_by_state.len() - i,
                {
                    let sub = snapshot_object(&self.gates_by_state[i].1);
                    proof {
                        assert(gm.skip(i as int)[0] == gm[i as int]);
                        assert(gm.skip(i as int).drop_first() =~= gm.skip(i + 1));
                    }
                    object_insert(&mut gate_obj, self.gates_by_state[i].0.clone(), JsonValue::Object(sub));
                    i += 1;
                }
                proof {
                    assert(gm.skip(i as int).len() == 0);
                }
                object_insert(&mut root, string_from("gate"), JsonValue::Object(gate_obj));
                proof {
                    reveal_strlit("gate");
                }
                JsonValue::Object(root)
            },
        }
    }
}

/// The snapshot a gate outcome leaves.
pub open spec fn gate_snap(o: GateOutcomeModel) -> SnapModel {
    SnapModel { output: o.output, response: o.response }
}

pub ghost struct GateOutcomeModel {
    pub passed: bool,
    pub output: Option<Seq<char>>,
    pub response: Option<JsonModel>,
    pub summary: Seq<char>,
}

impl GateOutcome {
    pub open spec fn model(self) -> GateOutcomeModel {
        GateOutcomeModel {
            passed: self.passed,
            output: opt_str(self.output),
            response: match self.response {
                Some(v) => Some(v.model()),
                None => None,
            },
            summary: self.summary@,
        }
    }
}

/// The object a snapshot contributes.
fn snapshot_object(s: &GateSnapshot) -> (r: Vec<(String, JsonValue)>)
    ensures
        entries_model(r@) == snap_object(s.model()),
{
    let mut obj: Vec<(String, JsonValue)> = Vec::new();
    proof {
        assert(entries_model(obj@) =~= Seq::<(Seq<char>, JsonModel)>::empty());
        reveal_strlit("output");
        reveal_strlit("response");
    }
    match &s.output {
        Some(o) => {
            object_insert(&mut obj, string_from("output"), JsonValue::String(o.clone()));
        },
        None => {},
    }
    match &s.response {
        Some(r) => {
            object_insert(&mut obj, string_from("response"), r.deep_clone());
        },
        None => {},
    }
    obj
}


// ---------------------------------------------------------------------------
// Actions and gates to perform
// ---------------------------------------------------------------------------

/// An action with its prompt rendered against the run context.
pub enum RenderedAction {
    CreateSession { executor: String, prompt: String },
    FollowUp { session_ref: String, executor: Option<String>, prompt: String },
    StartReview { session_ref: String, executor: String, prompt: String },
    Merge { session_ref: String },
}

pub ghost enum RenderedModel {
    CreateSession { executor: Seq<char>, prompt: Seq<char> },
    FollowUp { session_ref: Seq<char>, executor: Option<Seq<char>>, prompt: Seq<char> },
    StartReview { session_ref: Seq<char>, executor: Seq<char>, prompt: Seq<char> },
    Merge { session_ref: Seq<char> },
}

impl RenderedAction {
    pub open spec fn model(self) -> RenderedModel {
        match self {
            RenderedAction::CreateSession { executor, prompt } => RenderedModel::CreateSession {
                executor: executor@,
                prompt: prompt@,
            },
            RenderedAction::FollowUp { session_ref, executor, prompt } => RenderedModel::FollowUp {
                session_ref: session_ref@,
                executor: opt_str(executor),
                prompt: prompt@,
            },
            RenderedAction::StartReview { session_ref, executor, prompt } => RenderedModel::StartReview {
                session_ref: session_ref@,
                executor: executor@,
                prompt: prompt@,
            },
            RenderedAction::Merge { session_ref } => RenderedModel::Merge { session_ref: session_ref@ },
        }
    }
}

/// An action whose prompt is rendered against `view`.
pub open spec fn rendered(a: Action, view: JsonModel) -> RenderedModel {
    match a {
        Action::CreateSession { executor, prompt } => RenderedModel::CreateSession {
            executor: executor@,
            prompt: render(prompt@, view),
        },
        Action::FollowUp { session_ref, executor, prompt } => RenderedModel::FollowUp {
            session_ref: session_ref@,
            executor: opt_str(executor),
            prompt: render(prompt@, view),
        },
        Action::StartReview { session_ref, executor, prompt } => RenderedModel::StartReview {
            session_ref: session_ref@,
            executor: executor@,
            prompt: render(prompt@, view),
        },
        Action::Merge { session_ref } => RenderedModel::Merge { session_ref: session_ref@ },
    }
}

fn copy_opt(o: &Option<String>) -> (r: Option<String>)
    ensures
        opt_str(r) == opt_str(*o),
{
    match o {
        Some(s) => Some(s.clone()),
        None => None,
    }
}

/// Renders an action's prompt against the run context.
pub fn render_action(action: &Action, context: &RunContext) -> (r: RenderedAction)
    ensures
        r.model() == rendered(*action, context_view(context.model())),
{
    let view = context.view();
    match action {
        Action::CreateSession { executor, prompt } => RenderedAction::CreateSession {
            executor: executor.clone(),
            prompt: render_template(prompt.as_str(), &view),
        },
        Action::FollowUp { session_ref, executor, prompt } => RenderedAction::FollowUp {
            session_ref: session_ref.clone(),
            executor: copy_opt(executor),
            prompt: render_template(prompt.as_str(), &view),
        },
        Action::StartReview { session_ref, executor, prompt } => RenderedAction::StartReview {
            session_ref: session_ref.clone(),
            executor: executor.clone(),
            prompt: render_template(prompt.as_str(), &view),
        },
        Action::Merge { session_ref } => RenderedAction::Merge { session_ref: session_ref.clone() },
    }
}

/// Which gate evaluator a gate goes to.
#[derive(Debug, Clone, Copy, PartialEq, Eq)]
pub enum GateKind {
    Deterministic,
    LlmJudge,
    Human,
}

/// A gate evaluation to perform: the evaluator and what it is given.
pub struct GateCall {
    pub kind: GateKind,
    pub run: Option<String>,
    pub pass_when: String,
    pub prompt: Option<String>,
    pub last_assistant_message: Option<String>,
}

pub ghost struct GateCallModel {
    pub kind: GateKind,
    pub run: Option<Seq<char>>,
    pub pass_when: Seq<char>,
    pub prompt: Option<Seq<char>>,
    pub last_assistant_message: Option<Seq<char>>,
}

impl GateCall {
    pub open spec fn model(self) -> GateCallModel {
        GateCallModel {
            kind: self.kind,
            run: opt_str(self.run),
            pass_when: self.pass_when@,
            prompt: opt_str(self.prompt),
            last_assistant_message: opt_str(self.last_assistant_message),
        }
    }
}

/// What a gate asks to have evaluated in a context: a deterministic gate's
/// command and a human gate's prompt are rendered against the context; every
/// gate sees the last action's final assistant message.
pub open spec fn gate_call(g: Gate, c: ContextModel) -> GateCallModel {
    let lam = match c.last_output {
        Some(o) => o.last_assistant_message,
        None => None,
    };
    let view = context_view(c);
    match g {
        Gate::Deterministic { run, pass_when } => GateCallModel {
            kind: GateKind::Deterministic,
            run: Some(render(run@, view)),
            pass_when: pass_when@,
            prompt: None,
            last_assistant_message: lam,
        },
        Gate::LlmJudge { pass_when } => GateCallModel {
            kind: GateKind::LlmJudge,
            run: None,
            pass_when: pass_when@,
            prompt: None,
            last_assistant_message: lam,
        },
        Gate::Human { prompt } => GateCallModel {
            kind: GateKind::Human,
            run: None,
            pass_when: seq![],
            prompt: Some(render(prompt@, view)),
            last_assistant_message: lam,
        },
    }
}

/// Builds what evaluating a gate takes.
pub fn prepare_gate(gate: &Gate, context: &RunContext) -> (r: GateCall)
    ensures
        r.model() == gate_call(*gate, context.model()),
{
    let lam = match &context.last_action_output {
        Some(o) => copy_opt(&o.last_assistant_message),
        None => None,
    };
    let view = context.view();
    match gate {
        Gate::Deterministic { run, pass_when } => GateCall {
            kind: GateKind::Deterministic,
            run: Some(render_template(run.as_str(), &view)),
            pass_when: pass_when.clone(),
            prompt: None,
            last_assistant_message: lam,
        },
        Gate::LlmJudge { pass_when } => GateCall {
            kind: GateKind::LlmJudge,
            run: None,
            pass_when: pass_when.clone(),
            prompt: None,
            last_assistant_message: lam,
        },
        Gate::Human { prompt } => {
            let empty = String::new();
            GateCall {
                kind: GateKind::Human,
                run: None,
                pass_when: empty,
                prompt: Some(render_template(prompt.as_str(), &view)),
                last_assistant_message: lam,
            }
        },
    }
}


// ---------------------------------------------------------------------------
// The run machine
// ---------------------------------------------------------------------------

/// A call into the execution backend.
pub enum BackendCall {
    CreateSession { executor: String, prompt: String, params: JsonValue },
    FollowUp { session_id: SessionId, executor: Option<String>, prompt: String },
    StartReview { session_id: SessionId, executor: String, prompt: String },
    Merge { session_id: SessionId },
    AwaitCompletion { execution_id: ExecutionId },
}

pub ghost enum CallModel {
    CreateSession { executor: Seq<char>, prompt: Seq<char>, params: JsonModel },
    FollowUp { session: Seq<char>, executor: Option<Seq<char>>, prompt: Seq<char> },
    StartReview { session: Seq<char>, executor: Seq<char>, prompt: Seq<char> },
    Merge { session: Seq<char> },
    AwaitCompletion { execution: Seq<char> },
}

impl BackendCall {
    pub open spec fn model(self) -> CallModel {
        match self {
            BackendCall::CreateSession { executor, prompt, params } => CallModel::CreateSession {
                executor: executor@,
                prompt: prompt@,
                params: params.model(),
            },
            BackendCall::FollowUp { session_id, executor, prompt } => CallModel::FollowUp {
                session: session_id.0@,
                executor: opt_str(executor),
                prompt: prompt@,
            },
            BackendCall::StartReview { session_id, executor, prompt } => CallModel::StartReview {
                session: session_id.0@,
                executor: executor@,
                prompt: prompt@,
            },
            BackendCall::Merge { session_id } => CallModel::Merge { session: session_id.0@ },
            BackendCall::AwaitCompletion { execution_id } => CallModel::AwaitCompletion {
                execution: execution_id.0@,
            },
        }
    }
}

/// What the machine asks for next while executing a state.
pub enum Step {
    /// Make this backend call and hand the reply to `resume`.
    Call(BackendCall),
    /// Evaluate this gate and hand the outcome to `resume`.
    Gate(GateCall),
    /// The state's execution is over: pass `passed` and `event` to `conclude`.
    Settled { passed: bool, event: StateEvent },
    /// The run fails with this error.
    Failed(ExecutorError),
}

pub ghost enum StepModel {
    Call(CallModel),
    Gate(GateCallModel),
    Settled { passed: bool, event: EventModel },
    Failed(ExecFault),
}

impl Step {
    pub open spec fn model(self) -> StepModel {
        match self {
            Step::Call(c) => StepModel::Call(c.model()),
            Step::Gate(g) => StepModel::Gate(g.model()),
            Step::Settled { passed, event } => StepModel::Settled { passed, event: event.model() },
            Step::Failed(e) => StepModel::Failed(e.fault()),
        }
    }
}

/// The result of a backend call or gate evaluation.
pub enum Reply {
    Session(Result<SessionId, BackendError>),
    Execution(Result<ExecutionId, BackendError>),
    Output(Result<ExecutionOutput, BackendError>),
    Merge(Result<MergeOutcome, BackendError>),
    Gate(Result<GateOutcome, GateError>),
}

pub ghost enum ReplyModel {
    Session(Result<Seq<char>, Seq<char>>),
    Execution(Result<Seq<char>, Seq<char>>),
    Output(Result<OutputModel, Seq<char>>),
    /// `true` when the merge went through.
    Merge(Result<bool, Seq<char>>),
    Gate(Result<GateOutcomeModel, GateFault>),
}

impl Reply {
    pub open spec fn model(self) -> ReplyModel {
        match self {
            Reply::Session(r) => ReplyModel::Session(
                match r {
                    Ok(s) => Ok(s.0@),
                    Err(e) => Err(e.message()),
                },
            ),
            Reply::Execution(r) => ReplyModel::Execution(
                match r {
                    Ok(x) => Ok(x.0@),
                    Err(e) => Err(e.message()),
                },
            ),
            Reply::Output(r) => ReplyModel::Output(
                match r {
                    Ok(o) => Ok(o.model()),
                    Err(e) => Err(e.message()),
                },
            ),
            Reply::Merge(r) => ReplyModel::Merge(
                match r {
                    Ok(m) => Ok(m is Merged),
                    Err(e) => Err(e.message()),
                },
            ),
            Reply::Gate(r) => ReplyModel::Gate(
                match r {
                    Ok(o) => Ok(o.model()),
                    Err(e) => Err(e.fault()),
                },
            ),
        }
    }
}

/// Where a state's execution stands.
enum Phase {
    Idle,
    AwaitSession,
    AwaitExecution { kind: &'static str, session: String },
    AwaitOutput { kind: &'static str, session: String, execution: String },
    AwaitMerge { session: String },
    AwaitGate,
}

pub ghost enum PhaseModel {
    Idle,
    AwaitSession,
    AwaitExecution { kind: Seq<char>, session: Seq<char> },
    AwaitOutput { kind: Seq<char>, session: Seq<char>, execution: Seq<char> },
    AwaitMerge { session: Seq<char> },
    AwaitGate,
}

impl Phase {
    closed spec fn model(self) -> PhaseModel {
        match self {
            Phase::Idle => PhaseModel::Idle,
            Phase::AwaitSession => PhaseModel::AwaitSession,
            Phase::AwaitExecution { kind, session } => PhaseModel::AwaitExecution {
                kind: kind@,
                session: session@,
            },
            Phase::AwaitOutput { kind, session, execution } => PhaseModel::AwaitOutput {
                kind: kind@,
                session: session@,
                execution: execution@,
            },
            Phase::AwaitMerge { session } => PhaseModel::AwaitMerge { session: session@ },
            Phase::AwaitGate => PhaseModel::AwaitGate,
        }
    }
}

/// What entering the current state gives.
pub enum Entry {
    /// The state is terminal: record the outcome and end the run with it.
    Terminal(RunOutcome),
    /// Execute the state; this is its `attempt`-th execution in the run.
    Execute { attempt: u32 },
    /// The run fails with this error.
    Failed(ExecutorError),
}

pub ghost enum EntryStep {
    Terminal(RunOutcome),
    Execute(u32),
    Failed(ExecFault),
}

impl Entry {
    pub open spec fn model(self) -> EntryStep {
        match self {
            Entry::Terminal(o) => EntryStep::Terminal(o),
            Entry::Execute { attempt } => EntryStep::Execute(attempt),
            Entry::Failed(e) => EntryStep::Failed(e.fault()),
        }
    }
}

/// What concluding a state's execution gives: transitions to record, in
/// order, and then whether the run goes on (`Ok`) or fails.
pub struct Conclusion {
    pub transitions: Vec<(String, String, StateHistoryEntry)>,
    pub next: Result<(), ExecutorError>,
}

pub open spec fn transitions_model(v: Seq<(String, String, StateHistoryEntry)>) -> Seq<
    (Seq<char>, Seq<char>, EntryModel),
> {
    Seq::new(v.len(), |i: int| (v[i].0@, v[i].1@, v[i].2.model()))
}

impl Conclusion {
    pub open spec fn transitions_model(self) -> Seq<(Seq<char>, Seq<char>, EntryModel)> {
        transitions_model(self.transitions@)
    }

    pub open spec fn next_model(self) -> Result<(), ExecFault> {
        match self.next {
            Ok(()) => Ok(()),
            Err(e) => Err(e.fault()),
        }
    }
}

pub ghost struct MachineModel {
    pub current: Seq<char>,
    pub attempts: Seq<(Seq<char>, u32)>,
    pub attempt: u32,
    pub context: ContextModel,
    pub phase: PhaseModel,
    pub action_event: Option<EventModel>,
}

/// A procedure run in progress.
pub struct RunMachine {
    current: String,
    attempts: Vec<(String, u32)>,
    attempt: u32,
    context: RunContext,
    phase: Phase,
    action_event: Option<StateEvent>,
}

pub open spec fn outcome_of(t: Terminal) -> RunOutcome {
    match t {
        Terminal::Success => RunOutcome::Success,
        Terminal::Failure => RunOutcome::Failure,
    }
}

/// How many times a state has been executed so far in the run.
pub open spec fn attempts_of(a: Seq<(Seq<char>, u32)>, k: Seq<char>) -> u32 {
    match assoc_get(a, k) {
        Some(n) => n,
        None => 0,
    }
}

/// Entering the current state: a terminal state gives its outcome; any
/// other state counts one more execution.
pub open spec fn enter_spec(m: MachineModel, p: Procedure) -> (MachineModel, EntryStep) {
    match state_lookup(state_entries(p.states), m.current) {
        None => (m, EntryStep::Failed(ExecFault::UnknownState(m.current))),
        Some(st) => match st.terminal {
            Some(t) => (m, EntryStep::Terminal(outcome_of(t))),
            None => {
                let n = (attempts_of(m.attempts, m.current) + 1) as u32;
                (
                    MachineModel { attempts: assoc_put(m.attempts, m.current, n), attempt: n, ..m },
                    EntryStep::Execute(n),
                )
            },
        },
    }
}

/// After the action (if any): evaluate its gate, or settle as passed.
pub open spec fn gate_step(m: MachineModel, st: State) -> (MachineModel, StepModel) {
    match st.gate {
        Some(g) => (MachineModel { phase: PhaseModel::AwaitGate, ..m }, StepModel::Gate(gate_call(g, m.context))),
        None => (
            MachineModel { phase: PhaseModel::Idle, ..m },
            StepModel::Settled {
                passed: true,
                event: match m.action_event {
                    Some(e) => e,
                    None => EventModel::GateEvaluated { passed: true, summary: "no-op"@ },
                },
            },
        ),
    }
}

/// Beginning the execution of the current state: its action's backend
/// call, or directly its gate.
pub open spec fn begin_spec(m: MachineModel, p: Procedure) -> (MachineModel, StepModel) {
    match state_lookup(state_entries(p.states), m.current) {
        None => (MachineModel { phase: PhaseModel::Idle, ..m }, StepModel::Failed(ExecFault::UnknownState(m.current))),
        Some(st) => {
            let m0 = MachineModel { phase: PhaseModel::Idle, action_event: None, ..m };
            match st.action {
                None => gate_step(m0, st),
                Some(a) => match rendered(a, context_view(m.context)) {
                    RenderedModel::CreateSession { executor, prompt } => (
                        MachineModel { phase: PhaseModel::AwaitSession, ..m0 },
                        StepModel::Call(
                            CallModel::CreateSession { executor, prompt, params: m.context.initial },
                        ),
                    ),
                    RenderedModel::FollowUp { session_ref, executor, prompt } => match assoc_get(
                        m.context.sessions,
                        session_ref,
                    ) {
                        None => (m0, StepModel::Failed(ExecFault::UnknownSessionRef(session_ref))),
                        Some(sid) => (
                            MachineModel {
                                phase: PhaseModel::AwaitExecution { kind: "follow_up"@, session: sid },
                                ..m0
                            },
                            StepModel::Call(CallModel::FollowUp { session: sid, executor, prompt }),
                        ),
                    },
                    RenderedModel::StartReview { session_ref, executor, prompt } => match assoc_get(
                        m.context.sessions,
                        session_ref,
                    ) {
                        None => (m0, StepModel::Failed(ExecFault::UnknownSessionRef(session_ref))),
                        Some(sid) => (
                            MachineModel {
                                phase: PhaseModel::AwaitExecution { kind: "start_review"@, session: sid },
                                ..m0
                            },
                            StepModel::Call(CallModel::StartReview { session: sid, executor, prompt }),
                        ),
                    },
                    RenderedModel::Merge { session_ref } => match assoc_get(m.context.sessions, session_ref) {
                        None => (m0, StepModel::Failed(ExecFault::UnknownSessionRef(session_ref))),
                        Some(sid) => (
                            MachineModel { phase: PhaseModel::AwaitMerge { session: sid }, ..m0 },
                            StepModel::Call(CallModel::Merge { session: sid }),
                        ),
                    },
                },
            }
        },
    }
}

/// Whether a reply is the kind the machine waits for.
pub open spec fn reply_fits(ph: PhaseModel, r: ReplyModel) -> bool {
    match ph {
        PhaseModel::AwaitSession => r is Session,
        PhaseModel::AwaitExecution { .. } => r is Execution,
        PhaseModel::AwaitOutput { .. } => r is Output,
        PhaseModel::AwaitMerge { .. } => r is Merge,
        PhaseModel::AwaitGate => r is Gate,
        PhaseModel::Idle => false,
    }
}

/// Handing the reply of the awaited call back to the machine.
pub open spec fn resume_spec(m: MachineModel, p: Procedure, r: ReplyModel) -> (MachineModel, StepModel) {
    let idle = MachineModel { phase: PhaseModel::Idle, ..m };
    match state_lookup(state_entries(p.states), m.current) {
        None => (idle, StepModel::Failed(ExecFault::UnknownState(m.current))),
        Some(st) => match (m.phase, r) {
            (PhaseModel::AwaitSession, ReplyModel::Session(Err(e))) => (idle, StepModel::Failed(ExecFault::Backend(e))),
            (PhaseModel::AwaitSession, ReplyModel::Session(Ok(sid))) => gate_step(
                MachineModel {
                    context: ContextModel {
                        sessions: assoc_put(m.context.sessions, m.current, sid),
                        ..m.context
                    },
                    action_event: Some(
                        EventModel::ActionCompleted {
                            kind: "create_session"@,
                            session: Some(sid),
                            execution: None,
                        },
                    ),
                    ..m
                },
                st,
            ),
            (PhaseModel::AwaitExecution { .. }, ReplyModel::Execution(Err(e))) => (idle, StepModel::Failed(ExecFault::Backend(e))),
            (PhaseModel::AwaitExecution { kind, session }, ReplyModel::Execution(Ok(eid))) => (
                MachineModel { phase: PhaseModel::AwaitOutput { kind, session, execution: eid }, ..m },
                StepModel::Call(CallModel::AwaitCompletion { execution: eid }),
            ),
            (PhaseModel::AwaitOutput { .. }, ReplyModel::Output(Err(e))) => (idle, StepModel::Failed(ExecFault::Backend(e))),
            (PhaseModel::AwaitOutput { kind, session, execution }, ReplyModel::Output(Ok(o))) => gate_step(
                MachineModel {
                    context: ContextModel { last_output: Some(o), ..m.context },
                    action_event: Some(
                        EventModel::ActionCompleted { kind, session: Some(session), execution: Some(execution) },
                    ),
                    ..m
                },
                st,
            ),
            (PhaseModel::AwaitMerge { .. }, ReplyModel::Merge(Err(e))) => (idle, StepModel::Failed(ExecFault::Backend(e))),
            (PhaseModel::AwaitMerge { session }, ReplyModel::Merge(Ok(merged))) => {
                let ev = EventModel::ActionCompleted { kind: "merge"@, session: Some(session), execution: None };
                let m1 = MachineModel { action_event: Some(ev), ..m };
                if !merged {
                    (MachineModel { phase: PhaseModel::Idle, ..m1 }, StepModel::Settled { passed: false, event: ev })
                } else {
                    gate_step(m1, st)
                }
            },
            (PhaseModel::AwaitGate, ReplyModel::Gate(Err(f))) => (idle, StepModel::Failed(ExecFault::Gate(f))),
            (PhaseModel::AwaitGate, ReplyModel::Gate(Ok(o))) => (
                MachineModel {
                    phase: PhaseModel::Idle,
                    context: ContextModel {
                        last_gate: Some(gate_snap(o)),
                        gates: assoc_put(m.context.gates, m.current, gate_snap(o)),
                        ..m.context
                    },
                    ..m
                },
                StepModel::Settled {
                    passed: o.passed,
                    event: EventModel::GateEvaluated { passed: o.passed, summary: o.summary },
                },
            ),
            _ => (idle, StepModel::Failed(ExecFault::UnknownState(m.current))),
        },
    }
}

/// Concluding a state's execution: a failure with attempts left retries the
/// state; otherwise the run follows `on_success` / `on_failure`, recording
/// an exhaustion entry first when a retried state fails for the last time.
pub open spec fn conclude_spec(m: MachineModel, p: Procedure, passed: bool, event: EventModel) -> (
    MachineModel,
    Seq<(Seq<char>, Seq<char>, EntryModel)>,
    Result<(), ExecFault>,
) {
    let es = state_entries(p.states);
    let cur = m.current;
    let a = m.attempt;
    match state_lookup(es, cur) {
        None => (m, seq![], Err(ExecFault::UnknownState(cur))),
        Some(st) => {
            let max = match st.max_attempts {
                Some(x) => x,
                None => 1,
            };
            if !passed && a < max {
                (m, seq![(cur, cur, EntryModel { state: cur, attempt: a, event })], Ok(()))
            } else {
                let exhaust = if !passed && a > 1 {
                    seq![(cur, cur, EntryModel { state: cur, attempt: a, event: EventModel::MaxAttemptsExhausted { attempts: a } })]
                } else {
                    seq![]
                };
                let target: Result<Seq<char>, ExecFault> = if passed {
                    match st.on_success {
                        Some(t) => Ok(t@),
                        None => Err(ExecFault::MissingTransition(cur, "on_success"@)),
                    }
                } else {
                    match st.on_failure {
                        Some(t) => Ok(t@),
                        None => Err(ExecFault::MaxAttemptsExhausted { state: cur, attempts: a }),
                    }
                };
                match target {
                    Err(f) => (m, exhaust, Err(f)),
                    Ok(t) => if state_lookup(es, t) is None {
                        (m, exhaust, Err(ExecFault::UnknownState(t)))
                    } else {
                        (
                            MachineModel { current: t, ..m },
                            exhaust.push((cur, t, EntryModel { state: cur, attempt: a, event })),
                            Ok(()),
                        )
                    },
                }
            }
        },
    }
}

pub open spec fn attempts_model(v: Seq<(String, u32)>) -> Seq<(Seq<char>, u32)> {
    Seq::new(v.len(), |i: int| (v[i].0@, v[i].1))
}

/// Starting a run: a procedure that does not validate gives its validation
/// fault and no run; otherwise the run begins in the initial state, with no
/// attempts counted and the given params as its context.
pub open spec fn start_spec(p: Procedure, params: JsonModel) -> Result<MachineModel, ExecFault> {
    match crate::procedure::validation_fault(p) {
        Some(f) => Err(ExecFault::Validation(f)),
        None => Ok(
            MachineModel {
                current: p.initial_state@,
                attempts: seq![],
                attempt: 0,
                context: ContextModel {
                    initial: params,
                    sessions: seq![],
                    last_output: None,
                    last_gate: None,
                    gates: seq![],
                },
                phase: PhaseModel::Idle,
                action_event: None,
            },
        ),
    }
}

impl RunMachine {
    pub closed spec fn model(self) -> MachineModel {
        MachineModel {
            current: self.current@,
            attempts: attempts_model(self.attempts@),
            attempt: self.attempt,
            context: self.context.model(),
            phase: self.phase.model(),
            action_event: match self.action_event {
                Some(e) => Some(e.model()),
                None => None,
            },
        }
    }

    /// Starts a run of `procedure`: the procedure must validate; the run
    /// begins in the initial state with the given params as its context.
    pub fn start(procedure: &Procedure, initial_params: JsonValue) -> (r: Result<RunMachine, ExecutorError>)
        ensures
            match r {
                Ok(m) => start_spec(*procedure, initial_params.model()) == Ok::<MachineModel, ExecFault>(m.model()),
                Err(e) => start_spec(*procedure, initial_params.model()) == Err::<MachineModel, ExecFault>(e.fault()),
            },
    {
        match procedure.validate() {
            Err(e) => Err(ExecutorError::Validation(e)),
            Ok(()) => {
                let m = RunMachine {
                    current: procedure.initial_state.clone(),
                    attempts: Vec::new(),
                    attempt: 0,
                    context: RunContext::new(initial_params),
                    phase: Phase::Idle,
                    action_event: None,
                };
                proof {
                    assert(attempts_model(m.attempts@) =~= seq![]);
                }
                Ok(m)
            },
        }
    }

    /// The state the run is in.
    pub fn current(&self) -> (r: &String)
        ensures
            r@ == self.model().current,
    {
        &self.current
    }

    /// Whether the run may count one more execution of its current state.
    pub fn can_enter(&self) -> (r: bool)
        ensures
            r == (attempts_of(self.model().attempts, self.model().current) < u32::MAX),
    {
        match self.attempt_count() {
            n => n < u32::MAX,
        }
    }

    fn attempt_count(&self) -> (r: u32)
        ensures
            r == attempts_of(self.model().attempts, self.model().current),
    {
        let ghost am = attempts_model(self.attempts@);
        match key_index(&self.attempts, &self.current) {
            Some(i) => {
                proof {
                    assert forall|j: int| 0 <= j < i implies (#[trigger] am[j]).0 != self.current@ by {
                        assert(am[j].0 == self.attempts@[j].0@);
                    }
                    lemma_assoc_get_prefix(am, self.current@, i as int);
                    assert(am.skip(i as int)[0] == am[i as int]);
                }
                self.attempts[i].1
            },
            None => {
                proof {
                    assert forall|j: int| 0 <= j < am.len() implies (#[trigger] am[j]).0 != self.current@ by {
                        assert(am[j].0 == self.attempts@[j].0@);
                    }
                    lemma_assoc_get_prefix(am, self.current@, am.len() as int);
                }
                0
            },
        }
    }

    /// Enters the current state.
    pub fn enter(&mut self, procedure: &Procedure) -> (r: Entry)
        requires
            attempts_of(old(self).model().attempts, old(self).model().current) < u32::MAX,
        ensures
            (final(self).model(), r.model()) == enter_spec(old(self).model(), *procedure),
    {
        let state = match state_get(&procedure.states, self.current.as_str()) {
            None => {
                return Entry::Failed(ExecutorError::UnknownState(self.current.clone()));
            },
            Some(s) => s,
        };
        match state.terminal {
            Some(Terminal::Success) => {
                return Entry::Terminal(RunOutcome::Success);
            },
            Some(Terminal::Failure) => {
                return Entry::Terminal(RunOutcome::Failure);
            },
            None => {},
        }
        let n = self.attempt_count() + 1;
        let ghost am = attempts_model(self.attempts@);
        let ghost cm = self.current@;
        match key_index(&self.attempts, &self.current) {
            Some(i) => {
                proof {
                    assert forall|j: int| 0 <= j < i implies (#[trigger] am[j]).0 != cm by {
                        assert(am[j].0 == self.attempts@[j].0@);
                    }
                    lemma_assoc_put_prefix(am, cm, n, i as int);
                    assert(am.skip(i as int)[0] == am[i as int]);
                    assert(am.skip(i as int).drop_first() =~= am.skip(i + 1));
                }
                let k = self.current.clone();
                self.attempts.set(i, (k, n));
                proof {
                    assert(attempts_model(self.attempts@) =~= am.take(i as int) + assoc_put(am.skip(i as int), cm, n));
                }
            },
            None => {
                proof {
                    assert forall|j: int| 0 <= j < am.len() implies (#[trigger] am[j]).0 != cm by {
                        assert(am[j].0 == self.attempts@[j].0@);
                    }
                    lemma_assoc_put_prefix(am, cm, n, am.len() as int);
                    assert(am.skip(am.len() as int).len() == 0);
                }
                let k = self.current.clone();
                self.attempts.push((k, n));
                proof {
                    assert(attempts_model(self.attempts@) =~= am.take(am.len() as int) + assoc_put(am.skip(am.len() as int), cm, n));
                }
            },
        }
        self.attempt = n;
        Entry::Execute { attempt: n }
    }

    /// Begins executing the current state (after `enter` gave `Execute`).
    pub fn begin_state(&mut self, procedure: &Procedure) -> (r: Step)
        ensures
            (final(self).model(), r.model()) == begin_spec(old(self).model(), *procedure),
    {
        self.phase = Phase::Idle;
        let state = match state_get(&procedure.states, self.current.as_str()) {
            None => {
                return Step::Failed(ExecutorError::UnknownState(self.current.clone()));
            },
            Some(s) => s,
        };
        self.action_event = None;
        let action = match &state.action {
            None => {
                return self.gate_or_settle(state);
            },
            Some(a) => a,
        };
        let rendered = render_action(action, &self.context);
        match rendered {
            RenderedAction::CreateSession { executor, prompt } => {
                self.phase = Phase::AwaitSession;
                let params = self.context.initial.deep_clone();
                Step::Call(BackendCall::CreateSession { executor, prompt, params })
            },
            RenderedAction::FollowUp { session_ref, executor, prompt } => {
                match self.context.session(&session_ref) {
                    None => Step::Failed(ExecutorError::UnknownSessionRef(session_ref)),
                    Some(sid) => {
                        self.phase = Phase::AwaitExecution { kind: "follow_up", session: sid.clone() };
                        Step::Call(BackendCall::FollowUp { session_id: SessionId(sid), executor, prompt })
                    },
                }
            },
            RenderedAction::StartReview { session_ref, executor, prompt } => {
                match self.context.session(&session_ref) {
                    None => Step::Failed(ExecutorError::UnknownSessionRef(session_ref)),
                    Some(sid) => {
                        self.phase = Phase::AwaitExecution { kind: "start_review", session: sid.clone() };
                        Step::Call(BackendCall::StartReview { session_id: SessionId(sid), executor, prompt })
                    },
                }
            },
            RenderedAction::Merge { session_ref } => {
                match self.context.session(&session_ref) {
                    None => Step::Failed(ExecutorError::UnknownSessionRef(session_ref)),
                    Some(sid) => {
                        self.phase = Phase::AwaitMerge { session: sid.clone() };
                        Step::Call(BackendCall::Merge { session_id: SessionId(sid) })
                    },
                }
            },
        }
    }

    /// Whether `reply` is the kind of reply the machine waits for.
    pub fn expects(&self, reply: &Reply) -> (r: bool)
        ensures
            r == reply_fits(self.model().phase, reply.model()),
    {
        match (&self.phase, reply) {
            (Phase::AwaitSession, Reply::Session(_)) => true,
            (Phase::AwaitExecution { .. }, Reply::Execution(_)) => true,
            (Phase::AwaitOutput { .. }, Reply::Output(_)) => true,
            (Phase::AwaitMerge { .. }, Reply::Merge(_)) => true,
            (Phase::AwaitGate, Reply::Gate(_)) => true,
            _ => false,
        }
    }

    /// Hands the reply of the awaited call or gate back to the machine.
    pub fn resume(&mut self, procedure: &Procedure, reply: Reply) -> (r: Step)
        requires
            reply_fits(old(self).model().phase, reply.model()),
        ensures
            (final(self).model(), r.model()) == resume_spec(old(self).model(), *procedure, reply.model()),
    {
        let ghost m = self.model();
        let ghost rm = reply.model();
        let state = match state_get(&procedure.states, self.current.as_str()) {
            None => {
                self.phase = Phase::Idle;
                return Step::Failed(ExecutorError::UnknownState(self.current.clone()));
            },
            Some(s) => s,
        };
        let mut phase = Phase::Idle;
        std::mem::swap(&mut phase, &mut self.phase);
        match (phase, reply) {
            (Phase::AwaitSession, Reply::Session(Err(e))) => Step::Failed(ExecutorError::Backend(e)),
            (Phase::AwaitSession, Reply::Session(Ok(sid))) => {
                let ghost sm = sid.0@;
                let sid_text = sid.0.clone();
                let name = self.current.clone();
                self.context.put_session(name, sid);
                self.action_event = Some(
                    StateEvent::ActionCompleted {
                        action_kind: string_from("create_session"),
                        session_id: Some(sid_text),
                        execution_id: None,
                    },
                );
                proof {
                    reveal_strlit("create_session");
                }
                self.phase = Phase::AwaitSession;
                self.gate_or_settle(state)
            },
            (Phase::AwaitExecution { .. }, Reply::Execution(Err(e))) => Step::Failed(ExecutorError::Backend(e)),
            (Phase::AwaitExecution { kind, session }, Reply::Execution(Ok(eid))) => {
                let e2 = eid.0.clone();
                self.phase = Phase::AwaitOutput { kind, session, execution: e2 };
                Step::Call(BackendCall::AwaitCompletion { execution_id: eid })
            },
            (Phase::AwaitOutput { .. }, Reply::Output(Err(e))) => Step::Failed(ExecutorError::Backend(e)),
            (Phase::AwaitOutput { kind, session, execution }, Reply::Output(Ok(o))) => {
                self.context.set_output(o);
                self.action_event = Some(
                    StateEvent::ActionCompleted {
                        action_kind: string_from(kind),
                        session_id: Some(session),
                        execution_id: Some(execution),
                    },
                );
                self.gate_or_settle(state)
            },
            (Phase::AwaitMerge { .. }, Reply::Merge(Err(e))) => Step::Failed(ExecutorError::Backend(e)),
            (Phase::AwaitMerge { session }, Reply::Merge(Ok(outcome))) => {
                let merged = matches!(outcome, MergeOutcome::Merged { .. });
                let ev = StateEvent::ActionCompleted {
                    action_kind: string_from("merge"),
                    session_id: Some(session),
                    execution_id: None,
                };
                proof {
                    reveal_strlit("merge");
                }
                let ev2 = ev.copy();
                self.action_event = Some(ev);
                if !merged {
                    Step::Settled { passed: false, event: ev2 }
                } else {
                    self.gate_or_settle(state)
                }
            },
            (Phase::AwaitGate, Reply::Gate(Err(e))) => Step::Failed(ExecutorError::Gate(e)),
            (Phase::AwaitGate, Reply::Gate(Ok(o))) => {
                let name = self.current.clone();
                self.context.update_gate(&name, &o);
                let passed = o.passed;
                Step::Settled {
                    passed,
                    event: StateEvent::GateEvaluated { passed, summary: o.summary },
                }
            },
            (_, _) => Step::Failed(ExecutorError::UnknownState(self.current.clone())),
        }
    }

    /// Concludes the execution of the current state with the given result.
    pub fn conclude(&mut self, procedure: &Procedure, passed: bool, event: StateEvent) -> (r: Conclusion)
        ensures
            (final(self).model(), r.transitions_model(), r.next_model()) == conclude_spec(
                old(self).model(),
                *procedure,
                passed,
                event.model(),
            ),
    {
        let mut out: Vec<(String, String, StateHistoryEntry)> = Vec::new();
        let state = match state_get(&procedure.states, self.current.as_str()) {
            None => {
                proof {
                    assert(transitions_model(out@) =~= seq![]);
                }
                return Conclusion {
                    transitions: out,
                    next: Err(ExecutorError::UnknownState(self.current.clone())),
                };
            },
            Some(s) => s,
        };
        let attempt = self.attempt;
        let max_attempts = match state.max_attempts {
            Some(x) => x,
            None => 1,
        };
        if !passed && attempt < max_attempts {
            let entry = StateHistoryEntry { state: self.current.clone(), attempt, event };
            out.push((self.current.clone(), self.current.clone(), entry));
            proof {
                assert(transitions_model(out@) =~= seq![(self.current@, self.current@, entry.model())]);
            }
            return Conclusion { transitions: out, next: Ok(()) };
        }
        if !passed && attempt > 1 {
            let exhaust = StateHistoryEntry {
                state: self.current.clone(),
                attempt,
                event: StateEvent::MaxAttemptsExhausted { attempts: attempt },
            };
            out.push((self.current.clone(), self.current.clone(), exhaust));
        }
        let ghost ex = transitions_model(out@);
        proof {
            if !passed && attempt > 1 {
                assert(ex =~= seq![(self.current@, self.current@, EntryModel { state: self.current@, attempt, event: EventModel::MaxAttemptsExhausted { attempts: attempt } })]);
            } else {
                assert(ex =~= seq![]);
            }
        }
        let next = if passed {
            match &state.on_success {
                Some(t) => t.clone(),
                None => {
                    proof {
                        reveal_strlit("on_success");
                    }
                    return Conclusion {
                        transitions: out,
                        next: Err(ExecutorError::MissingTransition(self.current.clone(), "on_success")),
                    };
                },
            }
        } else {
            match &state.on_failure {
                Some(t) => t.clone(),
                None => {
                    return Conclusion {
                        transitions: out,
                        next: Err(
                            ExecutorError::MaxAttemptsExhausted { state: self.current.clone(), attempts: attempt },
                        ),
                    };
                },
            }
        };
        if !state_contains(&procedure.states, next.as_str()) {
            return Conclusion { transitions: out, next: Err(ExecutorError::UnknownState(next)) };
        }
        let entry = StateHistoryEntry { state: self.current.clone(), attempt, event };
        let from = self.current.clone();
        let ghost em = entry.model();
        out.push((from, next.clone(), entry));
        proof {
            assert(transitions_model(out@) =~= ex.push((self.current@, next@, em)));
        }
        self.current = next;
        Conclusion { transitions: out, next: Ok(()) }
    }

    /// After the action: ask for its gate, or settle.
    fn gate_or_settle(&mut self, state: &State) -> (r: Step)
        ensures
            (final(self).model(), r.model()) == gate_step(old(self).model(), *state),
    {
        match &state.gate {
            Some(g) => {
                let call = prepare_gate(g, &self.context);
                self.phase = Phase::AwaitGate;
                Step::Gate(call)
            },
            None => {
                self.phase = Phase::Idle;
                let event = match &self.action_event {
                    Some(e) => e.copy(),
                    None => StateEvent::GateEvaluated { passed: true, summary: string_from("no-op") },
                };
                proof {
                    reveal_strlit("no-op");
                }
                let r = Step::Settled { passed: true, event };
                r
            },
        }
    }
}

} // verus!
