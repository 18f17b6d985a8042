//! Properties of the library as a whole: how a run moves between states,
//! what a gate leaves for the next state, how trigger parameters are
//! checked and defaulted, how templates treat plain text, how the catalog
//! and labels treat built-ins, and what enriching params keeps.
use vstd::prelude::*;

use crate::catalog::{ProcedureSourceLabel, label_spec, merged, named_in};
use crate::gates::{GateFault, exit_code_verdict, join_words, llm_verdict, unquote};
use crate::json::{JsonModel, lemma_obj_insert_get, lemma_obj_insert_get_other, obj_get, obj_insert};
use crate::loader::builtin_yaml;
use crate::procedure::{
    Gate, ParamType, json_kind_name, type_matches,
    ParamSpec, Procedure, State, Terminal, fill_params, first_state_fault, state_entries, state_fault,
    state_lookup, validation_fault,
};
use crate::records::{ProcedureRunStatus, ProcedureSource, source_text, status_text};
use crate::state_machine::{
    ContextModel, EntryModel, EntryStep, EventModel, ExecFault, GateOutcomeModel, MachineModel,
    ReplyModel, StepModel, add_snaps, assoc_put, attempts_of, begin_spec, conclude_spec,
    context_view, enter_spec, gate_snap, lemma_assoc_put_get, outcome_of, reply_fits, resume_spec,
    snap_object, start_spec, gate_call,
};
use crate::template::{lookup_segments, render, render_from};
use crate::text::{is_white_space, lemma_word_len_bounds, parse_i32, trim, word_len, words};
use crate::workspaces::{RepoInfo, WorkspaceInfo, base_entries, enriched, primary_path, workspace_entries, workspace_root};

verus! {

// ---------------------------------------------------------------------------
// Runs
// ---------------------------------------------------------------------------

/// The retry budget of a state: `max_attempts`, 1 when not given.
pub open spec fn budget(st: State) -> u32 {
    match st.max_attempts {
        Some(x) => x,
        None => 1,
    }
}

/// Entering a terminal state ends the run with the state's outcome and
/// changes nothing else.
pub proof fn law_terminal_state_ends_run(m: MachineModel, p: Procedure, st: State, t: Terminal)
    requires
        state_lookup(state_entries(p.states), m.current) == Some(st),
        st.terminal == Some(t),
    ensures
        enter_spec(m, p) == (m, EntryStep::Terminal(outcome_of(t))),
{
}

/// Entering a working state counts one more execution of it: the attempt
/// number is the number of earlier entries plus one, and it is what the run
/// remembers for that state.
pub proof fn law_entering_counts_attempts(m: MachineModel, p: Procedure, st: State)
    requires
        state_lookup(state_entries(p.states), m.current) == Some(st),
        st.terminal is None,
        attempts_of(m.attempts, m.current) < u32::MAX,
    ensures
        enter_spec(m, p).1 == EntryStep::Execute((attempts_of(m.attempts, m.current) + 1) as u32),
        enter_spec(m, p).0.attempt == attempts_of(m.attempts, m.current) + 1,
        attempts_of(enter_spec(m, p).0.attempts, m.current) == attempts_of(m.attempts, m.current) + 1,
        enter_spec(m, p).0.current == m.current,
{
    let n = (attempts_of(m.attempts, m.current) + 1) as u32;
    lemma_assoc_put_get(m.attempts, m.current, n);
}

/// A failed execution with attempts left retries the state: the run stays
/// where it is, goes on, and records one transition from the state to itself.
pub proof fn law_failure_with_attempts_left_retries(m: MachineModel, p: Procedure, st: State, event: EventModel)
    requires
        state_lookup(state_entries(p.states), m.current) == Some(st),
        m.attempt < budget(st),
    ensures
        conclude_spec(m, p, false, event) == (
            m,
            seq![(m.current, m.current, EntryModel { state: m.current, attempt: m.attempt, event })],
            Ok::<(), ExecFault>(()),
        ),
{
}

/// A failed execution with no attempt left falls through to `on_failure`:
/// the run moves there and records the transition last, preceded by an
/// exhaustion entry when the state had been retried.
pub proof fn law_exhausted_failure_follows_on_failure(
    m: MachineModel,
    p: Procedure,
    st: State,
    event: EventModel,
    target: Seq<char>,
)
    requires
        state_lookup(state_entries(p.states), m.current) == Some(st),
        m.attempt >= budget(st),
        st.on_failure matches Some(t) && t@ == target,
        state_lookup(state_entries(p.states), target) is Some,
    ensures
        ({
            let (m2, ts, next) = conclude_spec(m, p, false, event);
            &&& next == Ok::<(), ExecFault>(())
            &&& m2.current == target
            &&& ts.last() == (m.current, target, EntryModel { state: m.current, attempt: m.attempt, event })
            &&& ts.len() == if m.attempt > 1 {
                2int
            } else {
                1int
            }
            &&& m.attempt > 1 ==> ts[0] == (
                m.current,
                m.current,
                EntryModel {
                    state: m.current,
                    attempt: m.attempt,
                    event: EventModel::MaxAttemptsExhausted { attempts: m.attempt },
                },
            )
        }),
{
}

/// A failed execution with no attempt left and no `on_failure` fails the
/// run with the exhaustion of that state.
pub proof fn law_exhausted_failure_without_on_failure_fails(m: MachineModel, p: Procedure, st: State, event: EventModel)
    requires
        state_lookup(state_entries(p.states), m.current) == Some(st),
        m.attempt >= budget(st),
        st.on_failure is None,
    ensures
        conclude_spec(m, p, false, event).2 == Err::<(), ExecFault>(
            ExecFault::MaxAttemptsExhausted { state: m.current, attempts: m.attempt },
        ),
        conclude_spec(m, p, false, event).0 == m,
{
}

/// A passed execution follows `on_success` and records that one transition.
pub proof fn law_success_follows_on_success(m: MachineModel, p: Procedure, st: State, event: EventModel, target: Seq<char>)
    requires
        state_lookup(state_entries(p.states), m.current) == Some(st),
        st.on_success matches Some(t) && t@ == target,
        state_lookup(state_entries(p.states), target) is Some,
    ensures
        conclude_spec(m, p, true, event) == (
            MachineModel { current: target, ..m },
            seq![(m.current, target, EntryModel { state: m.current, attempt: m.attempt, event })],
            Ok::<(), ExecFault>(()),
        ),
{
    assert(seq![(m.current, target, EntryModel { state: m.current, attempt: m.attempt, event })] =~= Seq::<
        (Seq<char>, Seq<char>, EntryModel),
    >::empty().push((m.current, target, EntryModel { state: m.current, attempt: m.attempt, event })));
}

/// A run only ever moves to a declared state: whenever concluding a state
/// lets the run go on, the state it is in next is one of the procedure's.
pub proof fn law_runs_stay_within_declared_states(m: MachineModel, p: Procedure, passed: bool, event: EventModel)
    requires
        state_lookup(state_entries(p.states), m.current) is Some,
        conclude_spec(m, p, passed, event).2 is Ok,
    ensures
        state_lookup(state_entries(p.states), conclude_spec(m, p, passed, event).0.current) is Some,
{
}

/// Whether `name` is one of the procedure's states.
pub open spec fn declared(p: Procedure, name: Seq<char>) -> bool {
    state_lookup(state_entries(p.states), name) is Some
}

/// A run of a valid procedure never meets an unknown state: while the run
/// is in a declared state, no step fails with `UnknownState`, every step but
/// concluding keeps the run where it is, and concluding a working state
/// moves it to a declared state.
pub proof fn law_valid_run_meets_no_unknown_state(
    m: MachineModel,
    p: Procedure,
    reply: ReplyModel,
    passed: bool,
    event: EventModel,
)
    requires
        validation_fault(p) is None,
        declared(p, m.current),
    ensures
        !(enter_spec(m, p).1 is Failed),
        enter_spec(m, p).0.current == m.current,
        !(begin_spec(m, p).1 matches StepModel::Failed(ExecFault::UnknownState(_))),
        begin_spec(m, p).0.current == m.current,
        reply_fits(m.phase, reply) ==> !(resume_spec(m, p, reply).1 matches StepModel::Failed(
            ExecFault::UnknownState(_),
        )),
        resume_spec(m, p, reply).0.current == m.current,
        state_lookup(state_entries(p.states), m.current)->0.terminal is None ==> {
            &&& !(conclude_spec(m, p, passed, event).2 matches Err(ExecFault::UnknownState(_)))
            &&& declared(p, conclude_spec(m, p, passed, event).0.current)
        },
{
    let i = lemma_lookup_index(state_entries(p.states), m.current);
    law_valid_procedure_is_closed(p, i);
}

/// The entry that `state_lookup` finds is at some position of the entries.
proof fn lemma_lookup_index(es: Seq<(Seq<char>, State)>, name: Seq<char>) -> (i: int)
    requires
        state_lookup(es, name) is Some,
    ensures
        0 <= i < es.len(),
        es[i].0 == name,
        es[i].1 == state_lookup(es, name)->0,
    decreases es.len(),
{
    if es[0].0 == name {
        0
    } else {
        let j = lemma_lookup_index(es.drop_first(), name);
        j + 1
    }
}

/// Every transition that concluding a state records leaves the run's
/// current state (its entry names that state) for a declared state.
pub proof fn law_recorded_transitions_leave_current_state(m: MachineModel, p: Procedure, passed: bool, event: EventModel)
    requires
        declared(p, m.current),
    ensures
        forall|i: int|
            0 <= i < conclude_spec(m, p, passed, event).1.len() ==> {
                let t = #[trigger] conclude_spec(m, p, passed, event).1[i];
                &&& t.0 == m.current
                &&& t.2.state == m.current
                &&& declared(p, t.1)
            },
{
}

/// A run produces an outcome exactly when it enters a terminal state, and
/// the outcome is that state's.
pub proof fn law_outcome_only_from_terminal_state(m: MachineModel, p: Procedure)
    ensures
        enter_spec(m, p).1 is Terminal <==> (declared(p, m.current) && state_lookup(
            state_entries(p.states),
            m.current,
        )->0.terminal is Some),
        enter_spec(m, p).1 is Terminal ==> enter_spec(m, p).1 == EntryStep::Terminal(
            outcome_of(state_lookup(state_entries(p.states), m.current)->0.terminal->0),
        ),
{
}

/// Starting a run of a procedure that does not validate gives exactly its
/// validation fault: no run exists, so no state is entered and nothing is
/// recorded.
pub proof fn law_invalid_procedure_only_validation_fault(p: Procedure, params: JsonModel)
    requires
        validation_fault(p) is Some,
    ensures
        start_spec(p, params) == Err::<crate::state_machine::MachineModel, ExecFault>(
            ExecFault::Validation(validation_fault(p)->0),
        ),
{
}

/// One step of a run as the machine allows it, from `m` to `m2`, with the
/// transitions that the step records: entering the current state, beginning
/// its execution, taking a reply that fits what the run awaits, or
/// concluding the execution so that the run goes on.
pub open spec fn run_step(
    p: Procedure,
    m: MachineModel,
    m2: MachineModel,
    recorded: Seq<(Seq<char>, Seq<char>, EntryModel)>,
) -> bool {
    ||| m2 == enter_spec(m, p).0 && recorded.len() == 0
    ||| m2 == begin_spec(m, p).0 && recorded.len() == 0
    ||| exists|reply: ReplyModel| reply_fits(m.phase, reply) && m2 == #[trigger] resume_spec(m, p, reply).0 && recorded.len() == 0
    ||| exists|passed: bool, event: EventModel|
        #![trigger conclude_spec(m, p, passed, event)]
        conclude_spec(m, p, passed, event).2 is Ok && m2 == conclude_spec(m, p, passed, event).0 && recorded
            == conclude_spec(m, p, passed, event).1
}

/// A whole run of a valid procedure, from its start through any sequence of
/// steps: the run is always in a declared state; every transition it
/// records leaves the state the run is in (and names it in its entry) for a
/// declared state; no step fails with `UnknownState`; and entering a state
/// gives an outcome exactly when the state is terminal, that state's outcome.
pub proof fn law_whole_run(
    p: Procedure,
    params: JsonModel,
    ms: Seq<MachineModel>,
    recs: Seq<Seq<(Seq<char>, Seq<char>, EntryModel)>>,
)
    requires
        ms.len() == recs.len() + 1,
        start_spec(p, params) == Ok::<MachineModel, ExecFault>(ms[0]),
        forall|i: int| 0 <= i < recs.len() ==> run_step(p, #[trigger] ms[i], ms[i + 1], recs[i]),
    ensures
        forall|i: int| 0 <= i < ms.len() ==> declared(p, (#[trigger] ms[i]).current),
        forall|i: int, j: int|
            0 <= i < recs.len() && 0 <= j < recs[i].len() ==> {
                let t = #[trigger] recs[i][j];
                &&& t.0 == ms[i].current
                &&& t.2.state == ms[i].current
                &&& declared(p, t.1)
            },
        forall|i: int|
            0 <= i < ms.len() ==> {
                &&& !(enter_spec(#[trigger] ms[i], p).1 is Failed)
                &&& !(begin_spec(ms[i], p).1 matches StepModel::Failed(ExecFault::UnknownState(_)))
                &&& (enter_spec(ms[i], p).1 is Terminal <==> state_lookup(state_entries(p.states), ms[i].current)->0.terminal is Some)
                &&& enter_spec(ms[i], p).1 is Terminal ==> enter_spec(ms[i], p).1 == EntryStep::Terminal(
                    outcome_of(state_lookup(state_entries(p.states), ms[i].current)->0.terminal->0),
                )
            },
        forall|i: int, reply: ReplyModel|
            0 <= i < ms.len() && reply_fits(ms[i].phase, reply) ==> !(#[trigger] resume_spec(ms[i], p, reply).1 matches StepModel::Failed(
                ExecFault::UnknownState(_),
            )),
        forall|i: int, passed: bool, event: EventModel|
            0 <= i < ms.len() && state_lookup(state_entries(p.states), ms[i].current)->0.terminal is None ==> !(
            #[trigger] conclude_spec(ms[i], p, passed, event).2 matches Err(ExecFault::UnknownState(_))),
{
    let r0 = ReplyModel::Gate(Err(GateFault::Spawn));
    let e0 = EventModel::GateEvaluated { passed: true, summary: seq![] };
    lemma_run_declared(p, params, ms, recs);
    assert forall|i: int| 0 <= i < ms.len() implies {
        &&& !(enter_spec(#[trigger] ms[i], p).1 is Failed)
        &&& !(begin_spec(ms[i], p).1 matches StepModel::Failed(ExecFault::UnknownState(_)))
        &&& (enter_spec(ms[i], p).1 is Terminal <==> state_lookup(state_entries(p.states), ms[i].current)->0.terminal is Some)
        &&& enter_spec(ms[i], p).1 is Terminal ==> enter_spec(ms[i], p).1 == EntryStep::Terminal(
            outcome_of(state_lookup(state_entries(p.states), ms[i].current)->0.terminal->0),
        )
    } by {
        law_valid_run_meets_no_unknown_state(ms[i], p, r0, true, e0);
        law_outcome_only_from_terminal_state(ms[i], p);
    }
    assert forall|i: int, reply: ReplyModel| 0 <= i < ms.len() && reply_fits(ms[i].phase, reply) implies !(
    #[trigger] resume_spec(ms[i], p, reply).1 matches StepModel::Failed(ExecFault::UnknownState(_))) by {
        law_valid_run_meets_no_unknown_state(ms[i], p, reply, true, e0);
    }
    assert forall|i: int, passed: bool, event: EventModel|
        0 <= i < ms.len() && state_lookup(state_entries(p.states), ms[i].current)->0.terminal is None implies !(
    #[trigger] conclude_spec(ms[i], p, passed, event).2 matches Err(ExecFault::UnknownState(_))) by {
        law_valid_run_meets_no_unknown_state(ms[i], p, r0, passed, event);
    }
}

/// Along a run of a valid procedure every state the run is in is declared,
/// and every recorded transition leaves that state for a declared one.
proof fn lemma_run_declared(
    p: Procedure,
    params: JsonModel,
    ms: Seq<MachineModel>,
    recs: Seq<Seq<(Seq<char>, Seq<char>, EntryModel)>>,
)
    requires
        ms.len() == recs.len() + 1,
        start_spec(p, params) == Ok::<MachineModel, ExecFault>(ms[0]),
        forall|i: int| 0 <= i < recs.len() ==> run_step(p, #[trigger] ms[i], ms[i + 1], recs[i]),
    ensures
        validation_fault(p) is None,
        forall|i: int| 0 <= i < ms.len() ==> declared(p, (#[trigger] ms[i]).current),
        forall|i: int, j: int|
            0 <= i < recs.len() && 0 <= j < recs[i].len() ==> {
                let t = #[trigger] recs[i][j];
                &&& t.0 == ms[i].current
                &&& t.2.state == ms[i].current
                &&& declared(p, t.1)
            },
    decreases recs.len(),
{
    if recs.len() > 0 {
        let r0 = ReplyModel::Gate(Err(GateFault::Spawn));
        let e0 = EventModel::GateEvaluated { passed: true, summary: seq![] };
        let n = recs.len() - 1;
        lemma_run_declared(p, params, ms.drop_last(), recs.drop_last());
        assert(ms.drop_last()[n] == ms[n]);
        let m = ms[n];
        assert(run_step(p, ms[n], ms[n + 1], recs[n]));
        law_valid_run_meets_no_unknown_state(m, p, r0, true, e0);
        if exists|reply: ReplyModel| reply_fits(m.phase, reply) && ms[n + 1] == #[trigger] resume_spec(m, p, reply).0 && recs[n].len() == 0 {
            let reply = choose|reply: ReplyModel| reply_fits(m.phase, reply) && ms[n + 1] == #[trigger] resume_spec(m, p, reply).0 && recs[n].len() == 0;
            law_valid_run_meets_no_unknown_state(m, p, reply, true, e0);
        }
        if exists|passed: bool, event: EventModel|
            #![trigger conclude_spec(m, p, passed, event)]
            conclude_spec(m, p, passed, event).2 is Ok && ms[n + 1] == conclude_spec(m, p, passed, event).0 && recs[n]
                == conclude_spec(m, p, passed, event).1 {
            let (passed, event) = choose|passed: bool, event: EventModel|
                #![trigger conclude_spec(m, p, passed, event)]
                conclude_spec(m, p, passed, event).2 is Ok && ms[n + 1] == conclude_spec(m, p, passed, event).0 && recs[n]
                    == conclude_spec(m, p, passed, event).1;
            law_runs_stay_within_declared_states(m, p, passed, event);
            law_recorded_transitions_leave_current_state(m, p, passed, event);
        }
        assert forall|i: int| 0 <= i < ms.len() implies declared(p, (#[trigger] ms[i]).current) by {
            if i <= n {
                assert(ms.drop_last()[i] == ms[i]);
            }
        }
        assert forall|i: int, j: int| 0 <= i < recs.len() && 0 <= j < recs[i].len() implies {
            let t = #[trigger] recs[i][j];
            &&& t.0 == ms[i].current
            &&& t.2.state == ms[i].current
            &&& declared(p, t.1)
        } by {
            if i < n {
                assert(recs.drop_last()[i] == recs[i]);
                assert(ms.drop_last()[i] == ms[i]);
            }
        }
    }
}

proof fn lemma_add_snaps_keeps(obj: Seq<(Seq<char>, JsonModel)>, snaps: Seq<(Seq<char>, crate::state_machine::SnapModel)>, k: Seq<char>)
    requires
        forall|i: int| 0 <= i < snaps.len() ==> (#[trigger] snaps[i]).0 != k,
    ensures
        obj_get(add_snaps(obj, snaps), k) == obj_get(obj, k),
    decreases snaps.len(),
{
    if snaps.len() > 0 {
        let o2 = obj_insert(obj, snaps[0].0, JsonModel::Object(snap_object(snaps[0].1)));
        lemma_obj_insert_get_other(obj, snaps[0].0, JsonModel::Object(snap_object(snaps[0].1)), k);
        assert forall|i: int| 0 <= i < snaps.drop_first().len() implies (#[trigger] snaps.drop_first()[i]).0 != k by {
            assert(snaps.drop_first()[i] == snaps[i + 1]);
        }
        lemma_add_snaps_keeps(o2, snaps.drop_first(), k);
    }
}

proof fn lemma_assoc_put_keys<V>(s: Seq<(Seq<char>, V)>, k: Seq<char>, v: V, avoid: Seq<char>)
    requires
        k != avoid,
        forall|i: int| 0 <= i < s.len() ==> (#[trigger] s[i]).0 != avoid,
    ensures
        forall|i: int| 0 <= i < assoc_put(s, k, v).len() ==> (#[trigger] assoc_put(s, k, v)[i]).0 != avoid,
    decreases s.len(),
{
    if s.len() > 0 && s[0].0 != k {
        assert forall|i: int| 0 <= i < s.drop_first().len() implies (#[trigger] s.drop_first()[i]).0 != avoid by {
            assert(s.drop_first()[i] == s[i + 1]);
        }
        lemma_assoc_put_keys(s.drop_first(), k, v, avoid);
        let r = assoc_put(s, k, v);
        assert forall|i: int| 0 <= i < r.len() implies (#[trigger] r[i]).0 != avoid by {
            if i > 0 {
                assert(r[i] == assoc_put(s.drop_first(), k, v)[i - 1]);
            }
        }
    } else if s.len() > 0 {
        let r = assoc_put(s, k, v);
        assert forall|i: int| 0 <= i < r.len() implies (#[trigger] r[i]).0 != avoid by {
            if i > 0 {
                assert(r[i] == s[i]);
            }
        }
    }
}

/// What a gate answered is what the next state's templates see under
/// `gate.response` (unless a state itself is named `response`, whose
/// snapshot would take that member's place).
pub proof fn law_gate_response_visible_to_next_state(c: ContextModel, state: Seq<char>, o: GateOutcomeModel, response: JsonModel)
    requires
        o.response == Some(response),
        state != "response"@,
        forall|i: int| 0 <= i < c.gates.len() ==> (#[trigger] c.gates[i]).0 != "response"@,
    ensures
        ({
            let c2 = ContextModel {
                last_gate: Some(gate_snap(o)),
                gates: assoc_put(c.gates, state, gate_snap(o)),
                ..c
            };
            lookup_segments(context_view(c2), seq!["gate"@, "response"@]) == Some(response)
        }),
{
    let snap = gate_snap(o);
    let gates2 = assoc_put(c.gates, state, snap);
    lemma_assoc_put_keys(c.gates, state, snap, "response"@);
    let a = match snap.output {
        Some(out) => obj_insert(seq![], "output"@, JsonModel::Str(out)),
        None => seq![],
    };
    lemma_obj_insert_get(a, "response"@, response);
    lemma_add_snaps_keeps(snap_object(snap), gates2, "response"@);
    let root = match c.initial {
        JsonModel::Object(es) => es,
        other => seq![("value"@, other)],
    };
    let g = JsonModel::Object(add_snaps(snap_object(snap), gates2));
    lemma_obj_insert_get(root, "gate"@, g);
    let c2 = ContextModel { last_gate: Some(snap), gates: gates2, ..c };
    let segs = seq!["gate"@, "response"@];
    assert(segs.drop_first() =~= seq!["response"@]);
    assert(seq!["response"@].drop_first() =~= Seq::<Seq<char>>::empty());
    assert(context_view(c2).get("gate"@) == Some(g));
    assert(g.get("response"@) == Some(response));
    assert(lookup_segments(response, Seq::<Seq<char>>::empty()) == Some(response));
    assert(lookup_segments(g, seq!["response"@]) == Some(response));
    assert(lookup_segments(context_view(c2), segs) == Some(response));
}

proof fn lemma_no_state_fault(es: Seq<(Seq<char>, State)>, todo: Seq<(Seq<char>, State)>, i: int)
    requires
        first_state_fault(es, todo) is None,
        0 <= i < todo.len(),
    ensures
        state_fault(es, todo[i].0, todo[i].1) is None,
    decreases todo.len(),
{
    if i > 0 {
        assert(todo.drop_first()[i - 1] == todo[i]);
        lemma_no_state_fault(es, todo.drop_first(), i - 1);
    }
}

/// A procedure that validates is closed: its initial state is declared; a
/// terminal state has no transitions; every other state has an action or a
/// gate, and its transitions lead to declared states.
pub proof fn law_valid_procedure_is_closed(p: Procedure, i: int)
    requires
        validation_fault(p) is None,
        0 <= i < state_entries(p.states).len(),
    ensures
        state_lookup(state_entries(p.states), p.initial_state@) is Some,
        ({
            let st = state_entries(p.states)[i].1;
            &&& st.terminal is Some ==> st.on_success is None && st.on_failure is None
            &&& st.terminal is None ==> st.action is Some || st.gate is Some
            &&& st.terminal is None && st.on_success is Some ==> state_lookup(
                state_entries(p.states),
                st.on_success->0@,
            ) is Some
            &&& st.terminal is None && st.on_failure is Some ==> state_lookup(
                state_entries(p.states),
                st.on_failure->0@,
            ) is Some
        }),
{
    let es = state_entries(p.states);
    lemma_no_state_fault(es, es, i);
}

/// What a gate wrote is what the next state's templates see under
/// `gate.output` (unless a state itself is named `output`, whose snapshot
/// would take that member's place).
pub proof fn law_gate_output_visible_to_next_state(c: ContextModel, state: Seq<char>, o: GateOutcomeModel, output: Seq<char>)
    requires
        o.output == Some(output),
        state != "output"@,
        forall|i: int| 0 <= i < c.gates.len() ==> (#[trigger] c.gates[i]).0 != "output"@,
    ensures
        ({
            let c2 = ContextModel {
                last_gate: Some(gate_snap(o)),
                gates: assoc_put(c.gates, state, gate_snap(o)),
                ..c
            };
            lookup_segments(context_view(c2), seq!["gate"@, "output"@]) == Some(JsonModel::Str(output))
        }),
{
    reveal_strlit("output");
    reveal_strlit("response");
    assert("output"@ != "response"@) by {
        assert("output"@[0] != "response"@[0]);
    }
    let snap = gate_snap(o);
    let gates2 = assoc_put(c.gates, state, snap);
    lemma_assoc_put_keys(c.gates, state, snap, "output"@);
    let a = obj_insert(seq![], "output"@, JsonModel::Str(output));
    lemma_obj_insert_get(seq![], "output"@, JsonModel::Str(output));
    if let Some(r) = snap.response {
        lemma_obj_insert_get_other(a, "response"@, r, "output"@);
    }
    lemma_add_snaps_keeps(snap_object(snap), gates2, "output"@);
    let root = match c.initial {
        JsonModel::Object(es) => es,
        other => seq![("value"@, other)],
    };
    let g = JsonModel::Object(add_snaps(snap_object(snap), gates2));
    lemma_obj_insert_get(root, "gate"@, g);
    let c2 = ContextModel { last_gate: Some(snap), gates: gates2, ..c };
    let segs = seq!["gate"@, "output"@];
    let v = JsonModel::Str(output);
    assert(segs.drop_first() =~= seq!["output"@]);
    assert(seq!["output"@].drop_first() =~= Seq::<Seq<char>>::empty());
    assert(context_view(c2).get("gate"@) == Some(g));
    assert(g.get("output"@) == Some(v));
    assert(lookup_segments(v, Seq::<Seq<char>>::empty()) == Some(v));
    assert(lookup_segments(g, seq!["output"@]) == Some(v));
    assert(lookup_segments(context_view(c2), segs) == Some(v));
}

// ---------------------------------------------------------------------------
// Trigger parameters
// ---------------------------------------------------------------------------

/// The lower-case name of a declared parameter type, as procedures write it.
pub open spec fn type_label(ty: ParamType) -> Seq<char> {
    match ty {
        ParamType::String => "string"@,
        ParamType::Integer => "integer"@,
        ParamType::Boolean => "boolean"@,
        ParamType::Array => "array"@,
    }
}

/// A value whose JSON kind is the declared type is accepted for it, `null`
/// is accepted for every type, and a value of any other kind is refused.
pub proof fn law_declared_kind_is_accepted(ty: ParamType, items: Option<ParamType>, v: JsonModel)
    ensures
        json_kind_name(v) == type_label(ty) ==> type_matches(ty, None, v),
        type_matches(ty, items, JsonModel::Null),
        !(v is Null) && type_matches(ty, items, v) ==> json_kind_name(v) == type_label(ty),
{
    reveal_strlit("string");
    reveal_strlit("integer");
    reveal_strlit("boolean");
    reveal_strlit("array");
    reveal_strlit("null");
    reveal_strlit("number");
    reveal_strlit("object");
    assert("string"@ != "integer"@ && "string"@ != "boolean"@ && "string"@ != "array"@ && "integer"@ != "boolean"@
        && "integer"@ != "array"@ && "boolean"@ != "array"@) by {
        assert("string"@[0] != "integer"@[0] && "string"@[0] != "boolean"@[0] && "string"@[0] != "array"@[0]
            && "integer"@[0] != "boolean"@[0] && "integer"@[0] != "array"@[0] && "boolean"@[0] != "array"@[0]);
    }
    assert("number"@ != "integer"@ && "number"@ != "string"@ && "number"@ != "boolean"@ && "number"@ != "array"@) by {
        assert("number"@[0] != "integer"@[0] && "number"@[0] != "string"@[0] && "number"@[0] != "boolean"@[0]
            && "number"@[0] != "array"@[0]);
    }
    assert("object"@ != "integer"@ && "object"@ != "string"@ && "object"@ != "boolean"@ && "object"@ != "array"@) by {
        assert("object"@[0] != "integer"@[0] && "object"@[0] != "string"@[0] && "object"@[0] != "boolean"@[0]
            && "object"@[0] != "array"@[0]);
    }
    assert("null"@ != "integer"@ && "null"@ != "string"@ && "null"@ != "boolean"@ && "null"@ != "array"@) by {
        assert("null"@[0] != "integer"@[0] && "null"@[0] != "string"@[0] && "null"@[0] != "boolean"@[0]
            && "null"@[0] != "array"@[0]);
    }
}

/// Parameters that the caller gave, each with a value of its declared
/// type, are accepted and left as they are: filling gives back the object
/// unchanged.
pub proof fn law_params_of_declared_kind_are_kept(obj: Seq<(Seq<char>, JsonModel)>, ps: Seq<(Seq<char>, ParamSpec)>)
    requires
        forall|i: int|
            0 <= i < ps.len() ==> {
                &&& obj_get(obj, (#[trigger] ps[i]).0) matches Some(v)
                &&& json_kind_name(v) == type_label(ps[i].1.ty)
                &&& ps[i].1.items is None
            },
    ensures
        fill_params(obj, ps) == Ok::<Seq<(Seq<char>, JsonModel)>, crate::procedure::ParamFault>(obj),
    decreases ps.len(),
{
    if ps.len() > 0 {
        let v = obj_get(obj, ps[0].0)->0;
        law_declared_kind_is_accepted(ps[0].1.ty, None, v);
        reveal_strlit("null");
        reveal_strlit("string");
        reveal_strlit("integer");
        reveal_strlit("boolean");
        reveal_strlit("array");
        assert(!(v is Null)) by {
            if v is Null {
                assert(json_kind_name(v) == "null"@);
                assert("null"@[0] != type_label(ps[0].1.ty)[0]);
            }
        }
        let rest = ps.drop_first();
        assert forall|i: int| 0 <= i < rest.len() implies {
            &&& obj_get(obj, (#[trigger] rest[i]).0) matches Some(v)
            &&& json_kind_name(v) == type_label(rest[i].1.ty)
            &&& rest[i].1.items is None
        } by {
            assert(rest[i] == ps[i + 1]);
        }
        law_params_of_declared_kind_are_kept(obj, rest);
    }
}

/// A value the caller gave (other than `null`) is never replaced by
/// parameter filling.
pub proof fn law_caller_value_wins(obj: Seq<(Seq<char>, JsonModel)>, ps: Seq<(Seq<char>, ParamSpec)>, k: Seq<char>, v: JsonModel)
    requires
        obj_get(obj, k) == Some(v),
        !(v is Null),
        fill_params(obj, ps) is Ok,
    ensures
        obj_get(fill_params(obj, ps)->Ok_0, k) == Some(v),
    decreases ps.len(),
{
    if ps.len() > 0 {
        let name = ps[0].0;
        let spec = ps[0].1;
        let found = obj_get(obj, name);
        let present = found is Some && !(found->0 is Null);
        if !present && spec.default is Some {
            let d = spec.default->0.model();
            assert(name != k);
            lemma_obj_insert_get_other(obj, name, d, k);
            law_caller_value_wins(obj_insert(obj, name, d), ps.drop_first(), k, v);
        } else {
            law_caller_value_wins(obj, ps.drop_first(), k, v);
        }
    }
}

/// A key that no parameter declares passes through parameter filling
/// unchanged.
pub proof fn law_undeclared_keys_pass_through(obj: Seq<(Seq<char>, JsonModel)>, ps: Seq<(Seq<char>, ParamSpec)>, k: Seq<char>)
    requires
        forall|i: int| 0 <= i < ps.len() ==> (#[trigger] ps[i]).0 != k,
        fill_params(obj, ps) is Ok,
    ensures
        obj_get(fill_params(obj, ps)->Ok_0, k) == obj_get(obj, k),
    decreases ps.len(),
{
    if ps.len() > 0 {
        let name = ps[0].0;
        let spec = ps[0].1;
        let found = obj_get(obj, name);
        let present = found is Some && !(found->0 is Null);
        assert(ps[0].0 != k);
        assert forall|i: int| 0 <= i < ps.drop_first().len() implies (#[trigger] ps.drop_first()[i]).0 != k by {
            assert(ps.drop_first()[i] == ps[i + 1]);
        }
        if !present && spec.default is Some {
            let d = spec.default->0.model();
            lemma_obj_insert_get_other(obj, name, d, k);
            law_undeclared_keys_pass_through(obj_insert(obj, name, d), ps.drop_first(), k);
        } else {
            law_undeclared_keys_pass_through(obj, ps.drop_first(), k);
        }
    }
}

/// A declared parameter that the caller left out (or gave as `null`) gets
/// its default, when it has one (such a parameter is optional: a missing
/// required one is refused, and filling does not succeed).
pub proof fn law_missing_param_gets_default(
    obj: Seq<(Seq<char>, JsonModel)>,
    ps: Seq<(Seq<char>, ParamSpec)>,
    i: int,
)
    requires
        0 <= i < ps.len(),
        forall|a: int, b: int| 0 <= a < b < ps.len() ==> (#[trigger] ps[a]).0 != (#[trigger] ps[b]).0,
        ps[i].1.default is Some,
        !ps[i].1.required,
        obj_get(obj, ps[i].0) is None || obj_get(obj, ps[i].0) == Some(JsonModel::Null),
        fill_params(obj, ps) is Ok,
    ensures
        obj_get(fill_params(obj, ps)->Ok_0, ps[i].0) == Some(ps[i].1.default->0.model()),
    decreases ps.len(),
{
    let name = ps[0].0;
    let spec = ps[0].1;
    let found = obj_get(obj, name);
    let present = found is Some && !(found->0 is Null);
    let rest = ps.drop_first();
    assert forall|a: int, b: int| 0 <= a < b < rest.len() implies (#[trigger] rest[a]).0 != (#[trigger] rest[b]).0 by {
        assert(rest[a] == ps[a + 1]);
        assert(rest[b] == ps[b + 1]);
    }
    if i == 0 {
        let d = spec.default->0.model();
        assert(!present);
        lemma_obj_insert_get(obj, name, d);
        let o2 = obj_insert(obj, name, d);
        if d is Null {
            // The default itself is `null`: later parameters have other
            // names and never touch this one.
            assert forall|j: int| 0 <= j < rest.len() implies (#[trigger] rest[j]).0 != name by {
                assert(rest[j] == ps[j + 1]);
            }
            law_undeclared_keys_pass_through(o2, rest, name);
        } else {
            law_caller_value_wins(o2, rest, name, d);
        }
    } else {
        assert(ps[i] == rest[i - 1]);
        assert(name != ps[i].0);
        if !present && spec.default is Some {
            let d = spec.default->0.model();
            lemma_obj_insert_get_other(obj, name, d, ps[i].0);
            law_missing_param_gets_default(obj_insert(obj, name, d), rest, i - 1);
        } else {
            law_missing_param_gets_default(obj, rest, i - 1);
        }
    }
}

/// A required parameter that the caller left out (or gave as `null`) makes
/// filling fail, whatever its default.
pub proof fn law_missing_required_param_is_refused(
    obj: Seq<(Seq<char>, JsonModel)>,
    ps: Seq<(Seq<char>, ParamSpec)>,
    i: int,
)
    requires
        0 <= i < ps.len(),
        forall|a: int, b: int| 0 <= a < b < ps.len() ==> (#[trigger] ps[a]).0 != (#[trigger] ps[b]).0,
        ps[i].1.required,
        obj_get(obj, ps[i].0) is None || obj_get(obj, ps[i].0) == Some(JsonModel::Null),
    ensures
        fill_params(obj, ps) is Err,
    decreases ps.len(),
{
    let name = ps[0].0;
    let spec = ps[0].1;
    let found = obj_get(obj, name);
    let present = found is Some && !(found->0 is Null);
    let rest = ps.drop_first();
    assert forall|a: int, b: int| 0 <= a < b < rest.len() implies (#[trigger] rest[a]).0 != (#[trigger] rest[b]).0 by {
        assert(rest[a] == ps[a + 1]);
        assert(rest[b] == ps[b + 1]);
    }
    if i > 0 {
        assert(ps[i] == rest[i - 1]);
        assert(name != ps[i].0);
        if !present && !spec.required && spec.default is Some {
            let d = spec.default->0.model();
            lemma_obj_insert_get_other(obj, name, d, ps[i].0);
            law_missing_required_param_is_refused(obj_insert(obj, name, d), rest, i - 1);
        } else if !present && !spec.required {
            law_missing_required_param_is_refused(obj, rest, i - 1);
        } else if present && crate::procedure::type_matches(spec.ty, spec.items, found->0) {
            law_missing_required_param_is_refused(obj, rest, i - 1);
        }
    }
}

// ---------------------------------------------------------------------------
// Templates
// ---------------------------------------------------------------------------

/// Whether a text has no `{{` in it.
pub open spec fn no_placeholder_start(t: Seq<char>) -> bool {
    forall|k: int| 0 <= k < t.len() - 1 ==> !((#[trigger] t[k]) == '{' && t[k + 1] == '{')
}

proof fn lemma_plain_from(t: Seq<char>, ctx: JsonModel, i: int)
    requires
        0 <= i <= t.len(),
        no_placeholder_start(t),
    ensures
        render_from(t, ctx, i) == t.skip(i),
    decreases t.len() - i,
{
    if i < t.len() {
        lemma_plain_from(t, ctx, i + 1);
        if i + 1 < t.len() {
            assert(!(t[i] == '{' && t[i + 1] == '{'));
        }
        assert(seq![t[i]] + t.skip(i + 1) =~= t.skip(i));
    } else {
        assert(t.skip(i) =~= Seq::<char>::empty());
    }
}

/// Text without any `{{` renders as itself, whatever the context: text
/// outside placeholders is copied unchanged.
pub proof fn law_plain_text_renders_as_itself(t: Seq<char>, ctx: JsonModel)
    requires
        no_placeholder_start(t),
    ensures
        render(t, ctx) == t,
{
    lemma_plain_from(t, ctx, 0);
    assert(t.skip(0) =~= t);
}

proof fn lemma_find_close_at(t: Seq<char>, j: int, e: int)
    requires
        0 <= j <= e,
        e + 1 < t.len(),
        t[e] == '}',
        t[e + 1] == '}',
        forall|m: int| j <= m < e ==> (#[trigger] t[m]) != '}',
    ensures
        crate::template::closing_at(t, j) == Some(e),
    decreases e - j,
{
    if j < e {
        lemma_find_close_at(t, j + 1, e);
    }
}

/// A placeholder `{{key}}` renders as the value at the (trimmed) dotted
/// path `key` of the context (strings verbatim, other values as JSON), and
/// stays as it is when the context has nothing there.
pub proof fn law_placeholder_renders(key: Seq<char>, ctx: JsonModel)
    requires
        forall|m: int| 0 <= m < key.len() ==> (#[trigger] key[m]) != '}',
    ensures
        ({
            let t = seq!['{', '{'] + key + seq!['}', '}'];
            render(t, ctx) == match crate::template::lookup_path(ctx, trim(key)) {
                Some(v) => crate::template::stringify(v),
                None => t,
            }
        }),
{
    let t = seq!['{', '{'] + key + seq!['}', '}'];
    let e: int = key.len() as int + 2;
    assert forall|m: int| 2 <= m < e implies (#[trigger] t[m]) != '}' by {
        assert(t[m] == key[m - 2]);
    }
    lemma_find_close_at(t, 2, e);
    assert(t.subrange(2, e) =~= key);
    assert(t.subrange(0, e + 2) =~= t);
    assert(render_from(t, ctx, e + 2) == Seq::<char>::empty());
    let piece = match crate::template::lookup_path(ctx, trim(key)) {
        Some(v) => crate::template::stringify(v),
        None => t,
    };
    assert(render_from(t, ctx, 0) == piece + render_from(t, ctx, e + 2));
    assert(piece + Seq::<char>::empty() =~= piece);
}

/// Looking for `}}` in a text that ends with `s` from inside `s` finds what
/// looking in `s` alone finds, shifted by what comes before.
proof fn lemma_closing_shift(p: Seq<char>, s: Seq<char>, j: int)
    requires
        0 <= j,
    ensures
        crate::template::closing_at(p + s, p.len() + j) == match crate::template::closing_at(s, j) {
            Some(k) => Some(k + p.len()),
            None => None::<int>,
        },
    decreases s.len() - j,
{
    let t = p + s;
    if !(j + 1 >= s.len()) {
        assert(t[p.len() + j] == s[j]);
        assert(t[p.len() + j + 1] == s[j + 1]);
        if !(s[j] == '}' && s[j + 1] == '}') {
            lemma_closing_shift(p, s, j + 1);
        }
    }
}

/// Rendering a text that ends with `s`, from a position inside `s`, gives
/// what rendering `s` alone from there gives.
proof fn lemma_render_shift(p: Seq<char>, s: Seq<char>, ctx: JsonModel, j: int)
    requires
        0 <= j,
    ensures
        render_from(p + s, ctx, p.len() + j) == render_from(s, ctx, j),
    decreases s.len() - j,
{
    let t = p + s;
    let i = p.len() + j;
    if j < s.len() {
        assert(t[i] == s[j]);
        if j + 1 < s.len() {
            assert(t[i + 1] == s[j + 1]);
        }
        lemma_closing_shift(p, s, j + 2);
        if j + 1 < s.len() && s[j] == '{' && s[j + 1] == '{' && crate::template::closing_at(s, j + 2) is Some {
            let end = crate::template::closing_at(s, j + 2)->0;
            crate::template::lemma_find_close_bounds(s, j + 2);
            assert(t.subrange(i + 2, end + p.len()) =~= s.subrange(j + 2, end));
            assert(t.subrange(i, end + p.len() + 2) =~= s.subrange(j, end + 2));
            lemma_render_shift(p, s, ctx, end + 2);
        } else {
            lemma_render_shift(p, s, ctx, j + 1);
        }
    }
}

/// Rendering goes on after a placeholder: a template that starts with a
/// placeholder renders as that placeholder followed by the rendering of
/// the rest, so every later placeholder is rendered too.
pub proof fn law_rendering_continues_after_placeholder(key: Seq<char>, s: Seq<char>, ctx: JsonModel)
    requires
        forall|m: int| 0 <= m < key.len() ==> (#[trigger] key[m]) != '}',
    ensures
        ({
            let ph = seq!['{', '{'] + key + seq!['}', '}'];
            render(ph + s, ctx) == render(ph, ctx) + render(s, ctx)
        }),
{
    let ph = seq!['{', '{'] + key + seq!['}', '}'];
    let t = ph + s;
    let e: int = key.len() as int + 2;
    assert forall|m: int| 2 <= m < e implies (#[trigger] t[m]) != '}' by {
        assert(t[m] == key[m - 2]);
    }
    assert(t[e] == '}' && t[e + 1] == '}');
    lemma_find_close_at(t, 2, e);
    assert(t.subrange(2, e) =~= key);
    assert(t.subrange(0, e + 2) =~= ph);
    law_placeholder_renders(key, ctx);
    lemma_render_shift(ph, s, ctx, 0);
    assert(ph.len() == e + 2);
}

/// The command a deterministic gate is asked to run is its `run` text
/// rendered against the run's context view; in particular a command that
/// starts with a placeholder whose path the context holds as a string
/// starts with that string, and the rest is rendered too.
pub proof fn law_gate_command_is_rendered(
    run: String,
    pass_when: String,
    c: ContextModel,
    key: Seq<char>,
    value: Seq<char>,
    rest: Seq<char>,
)
    ensures
        gate_call((Gate::Deterministic { run, pass_when }), c).run == Some(render(run@, context_view(c))),
        (forall|m: int| 0 <= m < key.len() ==> (#[trigger] key[m]) != '}') && run@ == seq!['{', '{'] + key + seq![
            '}',
            '}',
        ] + rest && crate::template::lookup_path(context_view(c), trim(key)) == Some(JsonModel::Str(value))
            ==> gate_call((Gate::Deterministic { run, pass_when }), c).run == Some(value + render(rest, context_view(c))),
{
    if (forall|m: int| 0 <= m < key.len() ==> (#[trigger] key[m]) != '}') && run@ == seq!['{', '{'] + key + seq![
        '}',
        '}',
    ] + rest && crate::template::lookup_path(context_view(c), trim(key)) == Some(JsonModel::Str(value)) {
        law_rendering_continues_after_placeholder(key, rest, context_view(c));
        law_placeholder_renders(key, context_view(c));
    }
}

/// What a human gate asks is its `prompt` rendered against the run's
/// context view, with no command to run.
pub proof fn law_human_prompt_is_rendered(prompt: String, c: ContextModel)
    ensures
        gate_call((Gate::Human { prompt }), c).prompt == Some(render(prompt@, context_view(c))),
        gate_call((Gate::Human { prompt }), c).run is None,
{
}

/// After enriching, `workspace.workspace_path` is the workspace root, and
/// `workspace.worktree_path` is the same root unless there is exactly one
/// repository (and a root), which moves it to `<root>/<name>`.
pub proof fn law_worktree_path_is_root_unless_single_repo(params: JsonModel, ws: WorkspaceInfo, repos: Seq<RepoInfo>)
    ensures
        lookup_segments(enriched(params, ws, repos), seq!["workspace"@, "workspace_path"@]) == Some(
            JsonModel::Str(workspace_root(ws)),
        ),
        repos.len() != 1 ==> lookup_segments(enriched(params, ws, repos), seq!["workspace"@, "worktree_path"@])
            == Some(JsonModel::Str(workspace_root(ws))),
        repos.len() == 1 && workspace_root(ws).len() > 0 ==> lookup_segments(
            enriched(params, ws, repos),
            seq!["workspace"@, "worktree_path"@],
        ) == Some(JsonModel::Str(workspace_root(ws) + "/"@ + repos[0].name@)),
{
    law_enriched_worktree_path(params, ws, repos);
    reveal_strlit("workspace");
    reveal_strlit("workspace_id");
    reveal_strlit("workspace_path");
    reveal_strlit("worktree_path");
    reveal_strlit("branch");
    reveal_strlit("repos");
    assert("workspace"@ != "workspace_id"@) by {
        assert("workspace"@.len() != "workspace_id"@.len());
    }
    assert("workspace_path"@ != "worktree_path"@) by {
        assert("workspace_path"@[4] != "worktree_path"@[4]);
    }
    assert("workspace_path"@ != "branch"@) by {
        assert("workspace_path"@[0] != "branch"@[0]);
    }
    assert("workspace_path"@ != "repos"@) by {
        assert("workspace_path"@[0] != "repos"@[0]);
    }
    let root = workspace_root(ws);
    let e0 = obj_insert(Seq::empty(), "id"@, JsonModel::Str(crate::uuids::uuid_text(ws.id)));
    let wp = JsonModel::Str(root);
    let e1 = obj_insert(e0, "workspace_path"@, wp);
    let e2 = obj_insert(e1, "worktree_path"@, JsonModel::Str(primary_path(root, repos)));
    let e3 = obj_insert(e2, "branch"@, JsonModel::Str(ws.branch@));
    lemma_obj_insert_get(e0, "workspace_path"@, wp);
    lemma_obj_insert_get_other(e1, "worktree_path"@, JsonModel::Str(primary_path(root, repos)), "workspace_path"@);
    lemma_obj_insert_get_other(e2, "branch"@, JsonModel::Str(ws.branch@), "workspace_path"@);
    lemma_obj_insert_get_other(
        e3,
        "repos"@,
        JsonModel::Array(crate::workspaces::repos_model(repos, root)),
        "workspace_path"@,
    );
    let w = JsonModel::Object(workspace_entries(ws, repos));
    let es = obj_insert(base_entries(params), "workspace"@, w);
    lemma_obj_insert_get(base_entries(params), "workspace"@, w);
    if obj_get(es, "workspace_id"@) is None {
        lemma_obj_insert_get_other(
            es,
            "workspace_id"@,
            JsonModel::Str(crate::uuids::uuid_text(ws.id)),
            "workspace"@,
        );
    }
    let segs = seq!["workspace"@, "workspace_path"@];
    assert(segs.drop_first() =~= seq!["workspace_path"@]);
    assert(seq!["workspace_path"@].drop_first() =~= Seq::<Seq<char>>::empty());
    assert(enriched(params, ws, repos).get("workspace"@) == Some(w));
    assert(w.get("workspace_path"@) == Some(wp));
    assert(lookup_segments(wp, Seq::<Seq<char>>::empty()) == Some(wp));
    assert(lookup_segments(w, seq!["workspace_path"@]) == Some(wp));
}

// ---------------------------------------------------------------------------
// Gates
// ---------------------------------------------------------------------------

/// Text with no white space in it.
pub open spec fn unbroken(s: Seq<char>) -> bool {
    forall|i: int| 0 <= i < s.len() ==> !is_white_space(#[trigger] s[i])
}

/// A word followed by white space (or nothing) is the first word.
proof fn lemma_words_lead(u: Seq<char>, s: Seq<char>)
    requires
        u.len() > 0,
        unbroken(u),
        s.len() == 0 || is_white_space(s[0]),
    ensures
        words(u + s) == seq![u] + words(s),
{
    let t = u + s;
    assert(t[0] == u[0]);
    lemma_word_len_bounds(t);
    let n = word_len(t);
    if n < u.len() {
        assert(t[n as int] == u[n as int]);
    }
    if n > u.len() {
        assert(t[u.len() as int] == s[0]);
        assert(!is_white_space(t[u.len() as int]));
    }
    assert(n == u.len());
    assert(t.take(n as int) =~= u);
    assert(t.skip(n as int) =~= s);
}

/// A leading space does not make a word.
proof fn lemma_words_space(s: Seq<char>)
    ensures
        words(seq![' '] + s) == words(s),
{
    let t = seq![' '] + s;
    assert(is_white_space(t[0]));
    assert(t.drop_first() =~= s);
}

/// A judge literal keeps its words apart: comparing a response field that
/// holds two words separated by one space with the same two words quoted
/// after `==` passes, and after `!=` fails.
pub proof fn law_judge_literal_keeps_spaces(p: Seq<char>, a: Seq<char>, b: Seq<char>, response: JsonModel)
    requires
        unbroken(p),
        unbroken(a),
        unbroken(b),
        crate::template::lookup_path(response, p) == Some(JsonModel::Str(a + seq![' '] + b)),
    ensures
        llm_verdict("response."@ + p + seq![' ', '=', '=', ' ', '\''] + a + seq![' '] + b + seq!['\''], response) == Ok::<
            bool,
            GateFault,
        >(true),
        llm_verdict("response."@ + p + seq![' ', '!', '=', ' ', '\''] + a + seq![' '] + b + seq!['\''], response) == Ok::<
            bool,
            GateFault,
        >(false),
{
    reveal_strlit("response.");
    reveal_strlit("==");
    reveal_strlit("!=");
    let lhs = "response."@ + p;
    let bq = seq!['\''] + a;
    let cq = b + seq!['\''];
    let sp = seq![' '];
    assert(unbroken(lhs)) by {
        assert forall|i: int| 0 <= i < lhs.len() implies !is_white_space(#[trigger] lhs[i]) by {
            if i >= 9 {
                assert(lhs[i] == p[i - 9]);
            }
        }
    }
    assert(unbroken(bq)) by {
        assert forall|i: int| 0 <= i < bq.len() implies !is_white_space(#[trigger] bq[i]) by {
            if i >= 1 {
                assert(bq[i] == a[i - 1]);
            }
        }
    }
    assert(unbroken(cq)) by {
        assert forall|i: int| 0 <= i < cq.len() implies !is_white_space(#[trigger] cq[i]) by {
            if i < b.len() {
                assert(cq[i] == b[i]);
            }
        }
    }
    let tail = sp + bq + sp + cq;
    lemma_words_lead(cq, Seq::<char>::empty());
    assert(cq + Seq::<char>::empty() =~= cq);
    assert(words(Seq::<char>::empty()) == Seq::<Seq<char>>::empty());
    lemma_words_space(cq);
    lemma_words_lead(bq, sp + cq);
    lemma_words_space(bq + sp + cq);
    assert(sp + (bq + (sp + cq)) =~= tail);
    assert(bq + (sp + cq) =~= bq + sp + cq);
    assert(words(tail) =~= seq![bq, cq]);
    let rhs_raw = bq + sp + cq;
    assert(join_words(seq![bq, cq]) =~= rhs_raw) by {
        assert(seq![bq, cq].drop_last() =~= seq![bq]);
        assert(join_words(seq![bq]) == bq);
        assert(seq![bq, cq].last() == cq);
        assert(sp =~= seq![' ']);
    }
    assert(rhs_raw.subrange(1, rhs_raw.len() - 1) =~= a + sp + b);
    assert(unquote(rhs_raw) == Some(a + sp + b));
    let ops = seq![seq!['=', '='], seq!['!', '=']];
    assert forall|k: int| 0 <= k < 2 implies {
        let op = #[trigger] ops[k];
        let e = lhs + (sp + op + tail);
        &&& words(e) =~= seq![lhs, op, bq, cq]
    } by {
        let op = ops[k];
        assert(unbroken(op));
        lemma_words_lead(op, tail);
        lemma_words_space(op + tail);
        assert(sp + op + tail =~= sp + (op + tail));
        lemma_words_lead(lhs, sp + op + tail);
    }
    let e1 = "response."@ + p + seq![' ', '=', '=', ' ', '\''] + a + seq![' '] + b + seq!['\''];
    let e2 = "response."@ + p + seq![' ', '!', '=', ' ', '\''] + a + seq![' '] + b + seq!['\''];
    assert(e1 =~= lhs + (sp + ops[0] + tail));
    assert(e2 =~= lhs + (sp + ops[1] + tail));
    assert(words(e1) =~= seq![lhs, ops[0], bq, cq]);
    assert(words(e2) =~= seq![lhs, ops[1], bq, cq]);
    assert(words(e1).skip(2) =~= seq![bq, cq]);
    assert(words(e2).skip(2) =~= seq![bq, cq]);
    assert(lhs.take(9) =~= "response."@);
    assert(lhs.skip(9) =~= p);
    assert(ops[0] =~= "=="@);
    assert(ops[1] =~= "!="@);
    assert("!="@ != "=="@);
}

/// `exit_code == N` and `exit_code != N` are complementary: both are
/// supported together, with opposite verdicts.
pub proof fn law_exit_code_operators_complementary(eq: Seq<char>, ne: Seq<char>, n: Seq<char>, code: i32)
    requires
        words(eq) == seq!["exit_code"@, "=="@, n],
        words(ne) == seq!["exit_code"@, "!="@, n],
        parse_i32(n) is Some,
    ensures
        exit_code_verdict(eq, code) == Ok::<bool, GateFault>(code == parse_i32(n)->0),
        exit_code_verdict(ne, code) == Ok::<bool, GateFault>(code != parse_i32(n)->0),
{
    reveal_strlit("==");
    reveal_strlit("!=");
    assert("=="@ != "!="@) by {
        assert("=="@[0] != "!="@[0]);
    }
}

/// A literal quoted with `'` or `"` unquotes to its inside.
pub proof fn law_unquote_quoted(s: Seq<char>, q: char)
    requires
        q == '\'' || q == '"',
    ensures
        unquote(seq![q] + s + seq![q]) == Some(s),
{
    let t = seq![q] + s + seq![q];
    assert(t.subrange(1, t.len() - 1) =~= s);
}

// ---------------------------------------------------------------------------
// The catalog
// ---------------------------------------------------------------------------

/// A built-in procedure is labelled as built-in whatever the project has
/// stored under its name.
pub proof fn law_builtin_label_wins(name: Seq<char>, stored: Seq<crate::records::ProcedureRecord>)
    requires
        builtin_yaml(name) is Some,
    ensures
        label_spec(name, stored) == ProcedureSourceLabel::Builtin,
{
}

/// Merging stored procedures into the catalog keeps the built-ins first,
/// as they were.
pub proof fn law_builtins_stay_first(base: Seq<Procedure>, stored: Seq<(String, Option<Procedure>)>)
    ensures
        merged(base, stored).len() >= base.len(),
        merged(base, stored).take(base.len() as int) == base,
    decreases stored.len(),
{
    if stored.len() > 0 {
        law_builtins_stay_first(base, stored.drop_last());
        let acc = merged(base, stored.drop_last());
        assert(acc.take(base.len() as int) == base);
        let (name, parsed) = stored.last();
        if !named_in(acc, name@) {
            if let Some(p) = parsed {
                assert(acc.push(p).take(base.len() as int) =~= acc.take(base.len() as int));
            }
        }
    } else {
        assert(base.take(base.len() as int) =~= base);
    }
}

/// A stored procedure never shadows one already in the catalog: when every
/// stored record is named like a built-in, the catalog is the built-ins.
pub proof fn law_builtin_names_win(base: Seq<Procedure>, stored: Seq<(String, Option<Procedure>)>)
    requires
        forall|i: int| 0 <= i < stored.len() ==> named_in(base, (#[trigger] stored[i]).0@),
    ensures
        merged(base, stored) == base,
    decreases stored.len(),
{
    if stored.len() > 0 {
        assert forall|i: int| 0 <= i < stored.drop_last().len() implies named_in(
            base,
            (#[trigger] stored.drop_last()[i]).0@,
        ) by {
            assert(stored.drop_last()[i] == stored[i]);
        }
        law_builtin_names_win(base, stored.drop_last());
        assert(named_in(base, stored.last().0@));
    }
}

// ---------------------------------------------------------------------------
// Stored names
// ---------------------------------------------------------------------------

/// Distinct run statuses are stored under distinct names.
pub proof fn law_status_names_distinct(a: ProcedureRunStatus, b: ProcedureRunStatus)
    requires
        a != b,
    ensures
        status_text(a) != status_text(b),
{
    reveal_strlit("running");
    reveal_strlit("succeeded");
    reveal_strlit("failed");
    reveal_strlit("cancelled");
    assert("running"@[0] != "succeeded"@[0]);
    assert("running"@[0] != "failed"@[0]);
    assert("running"@[0] != "cancelled"@[0]);
    assert("succeeded"@[0] != "failed"@[0]);
    assert("succeeded"@[0] != "cancelled"@[0]);
    assert("failed"@[0] != "cancelled"@[0]);
}

/// The two procedure sources are stored under distinct names.
pub proof fn law_source_names_distinct()
    ensures
        source_text(ProcedureSource::User) != source_text(ProcedureSource::LeadAgent),
{
    reveal_strlit("user");
    reveal_strlit("lead_agent");
    assert("user"@[0] != "lead_agent"@[0]);
}

// ---------------------------------------------------------------------------
// Workspace params
// ---------------------------------------------------------------------------

/// Enriching a run's params keeps every member the caller gave, other than
/// `workspace` itself.
pub proof fn law_enrich_keeps_caller_params(params: JsonModel, ws: WorkspaceInfo, repos: Seq<RepoInfo>, k: Seq<char>)
    requires
        k != "workspace"@,
    ensures
        enriched(params, ws, repos).get(k) == if k == "workspace_id"@ && obj_get(base_entries(params), k) is None {
            Some(JsonModel::Str(crate::uuids::uuid_text(ws.id)))
        } else {
            obj_get(base_entries(params), k)
        },
{
    reveal_strlit("workspace");
    reveal_strlit("workspace_id");
    assert("workspace"@ != "workspace_id"@) by {
        assert("workspace"@.len() != "workspace_id"@.len());
    }
    let w = JsonModel::Object(workspace_entries(ws, repos));
    let es = obj_insert(base_entries(params), "workspace"@, w);
    lemma_obj_insert_get_other(base_entries(params), "workspace"@, w, k);
    lemma_obj_insert_get_other(base_entries(params), "workspace"@, w, "workspace_id"@);
    if obj_get(es, "workspace_id"@) is None {
        let v = JsonModel::Str(crate::uuids::uuid_text(ws.id));
        lemma_obj_insert_get(es, "workspace_id"@, v);
        if k != "workspace_id"@ {
            lemma_obj_insert_get_other(es, "workspace_id"@, v, k);
        }
    }
}

/// After enriching, `workspace.worktree_path` is the directory procedures
/// work in: the only repository's, else the workspace root.
pub proof fn law_enriched_worktree_path(params: JsonModel, ws: WorkspaceInfo, repos: Seq<RepoInfo>)
    ensures
        lookup_segments(enriched(params, ws, repos), seq!["workspace"@, "worktree_path"@]) == Some(
            JsonModel::Str(primary_path(workspace_root(ws), repos)),
        ),
{
    reveal_strlit("workspace");
    reveal_strlit("workspace_id");
    reveal_strlit("worktree_path");
    reveal_strlit("branch");
    reveal_strlit("repos");
    assert("workspace"@ != "workspace_id"@) by {
        assert("workspace"@.len() != "workspace_id"@.len());
    }
    assert("worktree_path"@ != "branch"@) by {
        assert("worktree_path"@[0] != "branch"@[0]);
    }
    assert("worktree_path"@ != "repos"@) by {
        assert("worktree_path"@[0] != "repos"@[0]);
    }
    let root = workspace_root(ws);
    let e0 = obj_insert(Seq::empty(), "id"@, JsonModel::Str(crate::uuids::uuid_text(ws.id)));
    let e1 = obj_insert(e0, "workspace_path"@, JsonModel::Str(root));
    let wt = JsonModel::Str(primary_path(root, repos));
    let e2 = obj_insert(e1, "worktree_path"@, wt);
    let e3 = obj_insert(e2, "branch"@, JsonModel::Str(ws.branch@));
    lemma_obj_insert_get(e1, "worktree_path"@, wt);
    lemma_obj_insert_get_other(e2, "branch"@, JsonModel::Str(ws.branch@), "worktree_path"@);
    lemma_obj_insert_get_other(
        e3,
        "repos"@,
        JsonModel::Array(crate::workspaces::repos_model(repos, root)),
        "worktree_path"@,
    );
    let w = JsonModel::Object(workspace_entries(ws, repos));
    let es = obj_insert(base_entries(params), "workspace"@, w);
    lemma_obj_insert_get(base_entries(params), "workspace"@, w);
    if obj_get(es, "workspace_id"@) is None {
        lemma_obj_insert_get_other(
            es,
            "workspace_id"@,
            JsonModel::Str(crate::uuids::uuid_text(ws.id)),
            "workspace"@,
        );
    }
    let segs = seq!["workspace"@, "worktree_path"@];
    assert(segs.drop_first() =~= seq!["worktree_path"@]);
    assert(seq!["worktree_path"@].drop_first() =~= Seq::<Seq<char>>::empty());
    assert(enriched(params, ws, repos).get("workspace"@) == Some(w));
    assert(w.get("worktree_path"@) == Some(wt));
    assert(lookup_segments(wt, Seq::<Seq<char>>::empty()) == Some(wt));
    assert(lookup_segments(w, seq!["worktree_path"@]) == Some(wt));
    assert(lookup_segments(enriched(params, ws, repos), segs) == Some(wt));
}

} // verus!
