//! A project's procedure catalog: built-in procedures (always available and
//! immutable) together with the project-local ones, the labels and views the
//! UI shows for them, and the graph of a procedure's states.
use vstd::prelude::*;

use crate::json::JsonValue;
use crate::lead_agent::ApiError;
use crate::loader::{builtin_procedure_yaml, builtin_yaml};
use crate::procedure::{Action, Gate, Procedure, State, Terminal, state_at, state_entries, states_len};
use crate::records::{CreateProcedureRun, ProcedureRecord, ProcedureSource};
use crate::text::{chars_of, extend_str, str_eq, string_from, string_of};

verus! {

broadcast use vstd::std_specs::vec::group_vec_axioms;

/// Where a procedure of the catalog comes from.
#[derive(Debug, Clone, Copy, PartialEq, Eq)]
pub enum ProcedureSourceLabel {
    Builtin,
    User,
    LeadAgent,
}

/// The first stored record with the given name.
pub open spec fn first_named(stored: Seq<ProcedureRecord>, name: Seq<char>) -> Option<ProcedureRecord>
    decreases stored.len(),
{
    if stored.len() == 0 {
        None
    } else if stored[0].name@ == name {
        Some(stored[0])
    } else {
        first_named(stored.drop_first(), name)
    }
}

/// The label of a stored source: `lead_agent`, else a user's.
pub open spec fn label_of_source(source: Seq<char>) -> ProcedureSourceLabel {
    if source == "lead_agent"@ {
        ProcedureSourceLabel::LeadAgent
    } else {
        ProcedureSourceLabel::User
    }
}

/// The label of a catalog entry: built-ins always win, then the stored
/// record's source; a name known to neither counts as a user's.
pub open spec fn label_spec(name: Seq<char>, stored: Seq<ProcedureRecord>) -> ProcedureSourceLabel {
    if builtin_yaml(name) is Some {
        ProcedureSourceLabel::Builtin
    } else {
        match first_named(stored, name) {
            Some(r) => label_of_source(r.source@),
            None => ProcedureSourceLabel::User,
        }
    }
}

/// The label for a stored source string.
pub fn source_label(source: &str) -> (r: ProcedureSourceLabel)
    ensures
        r == label_of_source(source@),
{
    if str_eq(source, "lead_agent") {
        ProcedureSourceLabel::LeadAgent
    } else {
        ProcedureSourceLabel::User
    }
}

/// The label of the catalog entry named `name`, given the project's stored
/// records.
pub fn label_for(name: &str, stored: &[ProcedureRecord]) -> (r: ProcedureSourceLabel)
    ensures
        r == label_spec(name@, stored@),
{
    if builtin_procedure_yaml(name).is_some() {
        return ProcedureSourceLabel::Builtin;
    }
    proof {
        assert(stored@.skip(0) =~= stored@);
    }
    let mut i: usize = 0;
    while i < stored.len()
        invariant
            i <= stored.len(),
            builtin_yaml(name@) is None,
            first_named(stored@, name@) == first_named(stored@.skip(i as int), name@),
        decreases stored.len() - i,
    {
        proof {
            assert(stored@.skip(i as int)[0] == stored@[i as int]);
            assert(stored@.skip(i as int).drop_first() =~= stored@.skip(i + 1));
        }
        if str_eq(stored[i].name.as_str(), name) {
            proof {
                assert(first_named(stored@.skip(i as int), name@) == Some(stored@[i as int]));
            }
            return source_label(stored[i].source.as_str());
        }
        i += 1;
    }
    ProcedureSourceLabel::User
}

/// What the procedure editor shows of one procedure.
pub struct ProcedureSourceView {
    pub name: String,
    pub yaml: String,
    pub source: ProcedureSourceLabel,
    /// True when this procedure is bundled with the binary and cannot be
    /// edited or deleted via the API. UIs should disable Save/Delete.
    pub read_only: bool,
}

/// The editor view of a built-in procedure, if `name` is one.
pub fn builtin_source_view(name: String) -> (r: Option<ProcedureSourceView>)
    ensures
        match builtin_yaml(name@) {
            Some(y) => r matches Some(v) && v.name == name && v.yaml@ == y && v.source
                == ProcedureSourceLabel::Builtin && v.read_only,
            None => r is None,
        },
{
    match builtin_procedure_yaml(name.as_str()) {
        Some(y) => Some(
            ProcedureSourceView {
                name,
                yaml: string_from(y),
                source: ProcedureSourceLabel::Builtin,
                read_only: true,
            },
        ),
        None => None,
    }
}

/// The editor view of a stored project-local procedure.
pub fn stored_source_view(record: ProcedureRecord) -> (r: ProcedureSourceView)
    ensures
        r.name == record.name,
        r.yaml == record.yaml,
        r.source == label_of_source(record.source@),
        !r.read_only,
{
    let source = source_label(record.source.as_str());
    ProcedureSourceView { name: record.name, yaml: record.yaml, source, read_only: false }
}

/// One line of the procedure list.
pub struct ProcedureSummary {
    pub name: String,
    pub version: u32,
    pub description: String,
    pub initial_state: String,
    pub source: ProcedureSourceLabel,
}

/// Whether a summary describes a procedure with the given label.
pub open spec fn summarizes(s: ProcedureSummary, p: Procedure, label: ProcedureSourceLabel) -> bool {
    &&& s.name@ == p.name@
    &&& s.version == p.version
    &&& s.description@ == p.description@
    &&& s.initial_state@ == p.initial_state@
    &&& s.source == label
}

impl ProcedureSummary {
    pub fn from_procedure(p: &Procedure, source: ProcedureSourceLabel) -> (r: ProcedureSummary)
        ensures
            summarizes(r, *p, source),
    {
        ProcedureSummary {
            name: string_from(p.name.as_str()),
            version: p.version,
            description: string_from(p.description.as_str()),
            initial_state: string_from(p.initial_state.as_str()),
            source,
        }
    }
}

/// The summaries of a project's catalog, each labelled by where it comes
/// from.
pub fn summaries(procedures: &[Procedure], stored: &[ProcedureRecord]) -> (r: Vec<ProcedureSummary>)
    ensures
        r.len() == procedures.len(),
        forall|i: int|
            0 <= i < r.len() ==> summarizes(
                #[trigger] r@[i],
                procedures@[i],
                label_spec(procedures@[i].name@, stored@),
            ),
{
    let mut out: Vec<ProcedureSummary> = Vec::new();
    let mut i: usize = 0;
    while i < procedures.len()
        invariant
            i <= procedures.len(),
            out.len() == i,
            forall|j: int|
                0 <= j < i ==> summarizes(
                    #[trigger] out@[j],
                    procedures@[j],
                    label_spec(procedures@[j].name@, stored@),
                ),
        decreases procedures.len() - i,
    {
        let label = label_for(procedures[i].name.as_str(), stored);
        out.push(ProcedureSummary::from_procedure(&procedures[i], label));
        i += 1;
    }
    out
}

/// Whether one of the procedures has the given name.
pub open spec fn named_in(ps: Seq<Procedure>, name: Seq<char>) -> bool {
    exists|i: int| 0 <= i < ps.len() && (#[trigger] ps[i]).name@ == name
}

/// The catalog after adding stored records in order: a record whose name is
/// already in the catalog is skipped (built-ins win), and so is one whose
/// YAML did not parse; the others join at the end.
pub open spec fn merged(base: Seq<Procedure>, stored: Seq<(String, Option<Procedure>)>) -> Seq<Procedure>
    decreases stored.len(),
{
    if stored.len() == 0 {
        base
    } else {
        let acc = merged(base, stored.drop_last());
        let (name, parsed) = stored.last();
        if named_in(acc, name@) {
            acc
        } else {
            match parsed {
                Some(p) => acc.push(p),
                None => acc,
            }
        }
    }
}

/// Built-ins followed by the project-local procedures, given each stored
/// record's name and its parsed procedure (`None` when its YAML fails to
/// load), with built-in names winning on conflict.
#[verifier::loop_isolation(false)]
pub fn merge_catalog(builtins: Vec<Procedure>, stored: Vec<(String, Option<Procedure>)>) -> (r: Vec<Procedure>)
    ensures
        r@ == merged(builtins@, stored@),
{
    let ghost all = stored@;
    let mut procs = builtins;
    let mut rest = stored;
    let ghost mut i: int = 0;
    while rest.len() > 0
        invariant
            0 <= i <= all.len(),
            rest@ == all.subrange(i, all.len() as int),
            procs@ == merged(builtins@, all.take(i)),
        decreases rest.len(),
    {
        let (name, parsed) = rest.remove(0);
        proof {
            assert(all[i] == (name, parsed));
            assert(all.take(i + 1).drop_last() =~= all.take(i));
            assert(all.take(i + 1).last() == all[i]);
        }
        let nv = chars_of(name.as_str());
        let mut k: usize = 0;
        let mut seen = false;
        while k < procs.len()
            invariant
                k <= procs.len(),
                nv@ == name@,
                seen ==> named_in(procs@, name@),
                !seen ==> forall|j: int| 0 <= j < k ==> (#[trigger] procs@[j]).name@ != name@,
            decreases procs.len() - k,
        {
            let pv = chars_of(procs[k].name.as_str());
            if crate::text::chars_eq(&pv, &nv) {
                seen = true;
            }
            k += 1;
        }
        if !seen {
            match parsed {
                Some(p) => procs.push(p),
                None => {},
            }
        }
        proof {
            i = i + 1;
            assert(rest@ =~= all.subrange(i, all.len() as int));
        }
    }
    proof {
        assert(all.take(i) =~= all);
    }
    procs
}

/// The first procedure with the given name.
pub open spec fn first_procedure(ps: Seq<Procedure>, name: Seq<char>) -> Option<Procedure>
    decreases ps.len(),
{
    if ps.len() == 0 {
        None
    } else if ps[0].name@ == name {
        Some(ps[0])
    } else {
        first_procedure(ps.drop_first(), name)
    }
}

/// The message for an unknown procedure.
pub open spec fn unknown_procedure_text(name: Seq<char>) -> Seq<char> {
    "unknown procedure `"@ + name + "`"@
}

/// The procedure a run is started for, found by name.
#[verifier::loop_isolation(false)]
pub fn find_procedure(procedures: Vec<Procedure>, name: &str) -> (r: Result<Procedure, ApiError>)
    ensures
        match first_procedure(procedures@, name@) {
            Some(p) => r == Ok::<Procedure, ApiError>(p),
            None => r matches Err(ApiError::BadRequest(m)) && m@ == unknown_procedure_text(name@),
        },
{
    let ghost all = procedures@;
    let mut rest = procedures;
    let ghost mut i: int = 0;
    proof {
        assert(all.subrange(0, all.len() as int) =~= all);
    }
    while rest.len() > 0
        invariant
            0 <= i <= all.len(),
            rest@ == all.subrange(i, all.len() as int),
            first_procedure(all, name@) == first_procedure(all.subrange(i, all.len() as int), name@),
        decreases rest.len(),
    {
        let p = rest.remove(0);
        proof {
            assert(all.subrange(i, all.len() as int)[0] == p);
            assert(all.subrange(i, all.len() as int).drop_first() =~= all.subrange(i + 1, all.len() as int));
        }
        if str_eq(p.name.as_str(), name) {
            proof {
                assert(first_procedure(all.subrange(i, all.len() as int), name@) == Some(p));
            }
            return Ok(p);
        }
        proof {
            i = i + 1;
            assert(rest@ =~= all.subrange(i, all.len() as int));
        }
    }
    let mut m: Vec<char> = Vec::new();
    extend_str(&mut m, "unknown procedure `");
    extend_str(&mut m, name);
    extend_str(&mut m, "`");
    Err(ApiError::BadRequest(string_of(&m)))
}

/// The row a new run of `procedure` is created from.
pub fn run_request(procedure: &Procedure, params: JsonValue, workspace_id: Option<u128>) -> (r: CreateProcedureRun)
    ensures
        r.procedure_name@ == procedure.name@,
        r.procedure_version == procedure.version as i64,
        r.initial_state@ == procedure.initial_state@,
        r.params == params,
        r.workspace_id == workspace_id,
{
    CreateProcedureRun {
        procedure_name: string_from(procedure.name.as_str()),
        procedure_version: procedure.version as i64,
        initial_state: string_from(procedure.initial_state.as_str()),
        params,
        workspace_id,
    }
}

/// A request to save a project-local procedure.
pub struct UpsertProcedureRequest {
    pub yaml: String,
    /// Either `user` or `lead_agent`. Defaults to `user`.
    pub source: Option<String>,
}

impl UpsertProcedureRequest {
    /// The source the saved record gets: `lead_agent` when asked for,
    /// otherwise a user's.
    pub fn requested_source(&self) -> (r: ProcedureSource)
        ensures
            r == (match self.source {
                Some(s) => if s@ == "lead_agent"@ {
                    ProcedureSource::LeadAgent
                } else {
                    ProcedureSource::User
                },
                None => ProcedureSource::User,
            }),
    {
        match &self.source {
            Some(s) => if str_eq(s.as_str(), "lead_agent") {
                ProcedureSource::LeadAgent
            } else {
                ProcedureSource::User
            },
            None => ProcedureSource::User,
        }
    }
}

/// The message for a save that would override a built-in.
pub open spec fn builtin_conflict_text(name: Seq<char>) -> Seq<char> {
    "procedure name `"@ + name + "` is a built-in and cannot be overridden"@
}

/// Built-in names are immutable: a save under one of them is a conflict.
pub fn check_not_builtin(name: &str, builtins: &[Procedure]) -> (r: Result<(), ApiError>)
    ensures
        named_in(builtins@, name@) ==> (r matches Err(ApiError::Conflict(m)) && m@ == builtin_conflict_text(name@)),
        !named_in(builtins@, name@) ==> r is Ok,
{
    let mut i: usize = 0;
    while i < builtins.len()
        invariant
            i <= builtins.len(),
            forall|j: int| 0 <= j < i ==> (#[trigger] builtins@[j]).name@ != name@,
        decreases builtins.len() - i,
    {
        if str_eq(builtins[i].name.as_str(), name) {
            let mut m: Vec<char> = Vec::new();
            extend_str(&mut m, "procedure name `");
            extend_str(&mut m, name);
            extend_str(&mut m, "` is a built-in and cannot be overridden");
            return Err(ApiError::Conflict(string_of(&m)));
        }
        i += 1;
    }
    Ok(())
}

/// The message for a delete that removed nothing.
pub open spec fn nothing_deleted_text(name: Seq<char>) -> Seq<char> {
    "no project-local procedure named `"@ + name + "` (built-ins cannot be deleted)"@
}

/// The answer to a delete: an error when no stored procedure was removed.
pub fn delete_result(removed: bool, name: &str) -> (r: Result<(), ApiError>)
    ensures
        removed ==> r is Ok,
        !removed ==> (r matches Err(ApiError::BadRequest(m)) && m@ == nothing_deleted_text(name@)),
{
    if removed {
        Ok(())
    } else {
        let mut m: Vec<char> = Vec::new();
        extend_str(&mut m, "no project-local procedure named `");
        extend_str(&mut m, name);
        extend_str(&mut m, "` (built-ins cannot be deleted)");
        Err(ApiError::BadRequest(string_of(&m)))
    }
}

// ---------------------------------------------------------------------------
// The graph of a procedure
// ---------------------------------------------------------------------------

/// How the graph view draws a state.
#[derive(Debug, Clone, Copy, PartialEq, Eq)]
pub enum ProcedureNodeKind {
    /// A working state with at least one of an action or a gate.
    Step,
    /// `terminal: success`.
    TerminalSuccess,
    /// `terminal: failure`.
    TerminalFailure,
}

/// Which transition an edge stands for.
#[derive(Debug, Clone, Copy, PartialEq, Eq)]
pub enum ProcedureEdgeKind {
    /// `on_success` transition.
    Success,
    /// `on_failure` transition.
    Failure,
}

pub struct ProcedureGraphNode {
    pub id: String,
    pub kind: ProcedureNodeKind,
    /// Action kind (`create_session`, `follow_up`, `start_review`, `merge`)
    /// when the state has an action.
    pub action_kind: Option<String>,
    /// Gate kind (`deterministic`, `llm_judge`, `human`) when the state has a
    /// gate.
    pub gate_kind: Option<String>,
}

pub struct ProcedureGraphEdge {
    pub from: String,
    pub to: String,
    pub kind: ProcedureEdgeKind,
}

/// What the graph view needs to render a procedure: each state as a node,
/// and the directed edges of its `on_success` / `on_failure` transitions.
pub struct ProcedureGraphView {
    pub name: String,
    pub initial_state: String,
    pub nodes: Vec<ProcedureGraphNode>,
    pub edges: Vec<ProcedureGraphEdge>,
}

pub ghost struct EdgeModel {
    pub from: Seq<char>,
    pub to: Seq<char>,
    pub kind: ProcedureEdgeKind,
}

impl ProcedureGraphEdge {
    pub open spec fn model(self) -> EdgeModel {
        EdgeModel { from: self.from@, to: self.to@, kind: self.kind }
    }
}

pub open spec fn edges_model(es: Seq<ProcedureGraphEdge>) -> Seq<EdgeModel> {
    es.map_values(|e: ProcedureGraphEdge| e.model())
}

/// The node kind of a state.
pub open spec fn node_kind(st: State) -> ProcedureNodeKind {
    match st.terminal {
        Some(Terminal::Success) => ProcedureNodeKind::TerminalSuccess,
        Some(Terminal::Failure) => ProcedureNodeKind::TerminalFailure,
        None => ProcedureNodeKind::Step,
    }
}

/// The name of an action's kind.
pub open spec fn action_kind_name(a: Action) -> Seq<char> {
    match a {
        Action::CreateSession { .. } => "create_session"@,
        Action::FollowUp { .. } => "follow_up"@,
        Action::StartReview { .. } => "start_review"@,
        Action::Merge { .. } => "merge"@,
    }
}

/// The name of a gate's kind.
pub open spec fn gate_kind_name(g: Gate) -> Seq<char> {
    match g {
        Gate::Deterministic { .. } => "deterministic"@,
        Gate::LlmJudge { .. } => "llm_judge"@,
        Gate::Human { .. } => "human"@,
    }
}

pub open spec fn opt_text(o: Option<String>) -> Option<Seq<char>> {
    match o {
        Some(s) => Some(s@),
        None => None,
    }
}

/// Whether a node shows the state `st` named `name`.
pub open spec fn node_shows(n: ProcedureGraphNode, name: Seq<char>, st: State) -> bool {
    &&& n.id@ == name
    &&& n.kind == node_kind(st)
    &&& opt_text(n.action_kind) == match st.action {
        Some(a) => Some(action_kind_name(a)),
        None => None,
    }
    &&& opt_text(n.gate_kind) == match st.gate {
        Some(g) => Some(gate_kind_name(g)),
        None => None,
    }
}

/// The edges leaving the state `st` named `name`: success first.
pub open spec fn state_edges(name: Seq<char>, st: State) -> Seq<EdgeModel> {
    (match st.on_success {
        Some(t) => seq![EdgeModel { from: name, to: t@, kind: ProcedureEdgeKind::Success }],
        None => Seq::empty(),
    }) + (match st.on_failure {
        Some(t) => seq![EdgeModel { from: name, to: t@, kind: ProcedureEdgeKind::Failure }],
        None => Seq::empty(),
    })
}

/// The edges of a sequence of states, in order.
pub open spec fn graph_edges(es: Seq<(Seq<char>, State)>) -> Seq<EdgeModel>
    decreases es.len(),
{
    if es.len() == 0 {
        Seq::empty()
    } else {
        graph_edges(es.drop_last()) + state_edges(es.last().0, es.last().1)
    }
}

fn action_kind_text(a: &Action) -> (r: String)
    ensures
        r@ == action_kind_name(*a),
{
    match a {
        Action::CreateSession { .. } => string_from("create_session"),
        Action::FollowUp { .. } => string_from("follow_up"),
        Action::StartReview { .. } => string_from("start_review"),
        Action::Merge { .. } => string_from("merge"),
    }
}

fn gate_kind_text(g: &Gate) -> (r: String)
    ensures
        r@ == gate_kind_name(*g),
{
    match g {
        Gate::Deterministic { .. } => string_from("deterministic"),
        Gate::LlmJudge { .. } => string_from("llm_judge"),
        Gate::Human { .. } => string_from("human"),
    }
}

fn node_for(name: &String, st: &State) -> (r: ProcedureGraphNode)
    ensures
        node_shows(r, name@, *st),
{
    let kind = match st.terminal {
        Some(Terminal::Success) => ProcedureNodeKind::TerminalSuccess,
        Some(Terminal::Failure) => ProcedureNodeKind::TerminalFailure,
        None => ProcedureNodeKind::Step,
    };
    let action_kind = match &st.action {
        Some(a) => Some(action_kind_text(a)),
        None => None,
    };
    let gate_kind = match &st.gate {
        Some(g) => Some(gate_kind_text(g)),
        None => None,
    };
    ProcedureGraphNode { id: string_from(name.as_str()), kind, action_kind, gate_kind }
}

/// The graph of a procedure: one node per state, in the procedure's order,
/// and the edges of every state's transitions, in the same order.
pub fn graph_from_procedure(p: &Procedure) -> (r: ProcedureGraphView)
    ensures
        r.name@ == p.name@,
        r.initial_state@ == p.initial_state@,
        r.nodes.len() == state_entries(p.states).len(),
        forall|i: int|
            0 <= i < r.nodes.len() ==> node_shows(
                #[trigger] r.nodes@[i],
                state_entries(p.states)[i].0,
                state_entries(p.states)[i].1,
            ),
        edges_model(r.edges@) == graph_edges(state_entries(p.states)),
{
    let ghost es = state_entries(p.states);
    let n = states_len(&p.states);
    let mut nodes: Vec<ProcedureGraphNode> = Vec::new();
    let mut edges: Vec<ProcedureGraphEdge> = Vec::new();
    let mut i: usize = 0;
    proof {
        assert(edges_model(edges@) =~= graph_edges(es.take(0)));
    }
    while i < n
        invariant
            es == state_entries(p.states),
            n == es.len(),
            i <= n,
            nodes.len() == i,
            forall|j: int| 0 <= j < i ==> node_shows(#[trigger] nodes@[j], es[j].0, es[j].1),
            edges_model(edges@) == graph_edges(es.take(i as int)),
        decreases n - i,
    {
        let (name, st) = state_at(&p.states, i).unwrap();
        nodes.push(node_for(name, st));
        let ghost before = edges@;
        if let Some(target) = &st.on_success {
            edges.push(
                ProcedureGraphEdge {
                    from: string_from(name.as_str()),
                    to: string_from(target.as_str()),
                    kind: ProcedureEdgeKind::Success,
                },
            );
        }
        if let Some(target) = &st.on_failure {
            edges.push(
                ProcedureGraphEdge {
                    from: string_from(name.as_str()),
                    to: string_from(target.as_str()),
                    kind: ProcedureEdgeKind::Failure,
                },
            );
        }
        proof {
            assert(es.take(i + 1).drop_last() =~= es.take(i as int));
            assert(es.take(i + 1).last() == es[i as int]);
            assert(edges_model(edges@) =~= edges_model(before) + state_edges(es[i as int].0, es[i as int].1));
        }
        i += 1;
    }
    proof {
        assert(es.take(n as int) =~= es);
    }
    ProcedureGraphView {
        name: string_from(p.name.as_str()),
        initial_state: string_from(p.initial_state.as_str()),
        nodes,
        edges,
    }
}

} // verus!
