//! Procedure definitions (named states, transitions, actions, gates and
//! trigger parameters), their validation, and the checking and defaulting of
//! a run's trigger parameters.
use indexmap::IndexMap;
use vstd::prelude::*;

use crate::json::{
    JsonModel, JsonValue, entries_model, entries_well_formed, lemma_obj_get_prefix, lemma_obj_insert_well_formed, obj_get, obj_insert, object_get,
    object_insert,
};
use crate::text::chars_of;

verus! {

broadcast use vstd::std_specs::vec::group_vec_axioms;

/// An ordered map of the `indexmap` crate; Verus sees it only through the
/// names and wrappers below.
#[verifier::external_type_specification]
#[verifier::external_body]
#[verifier::reject_recursive_types(K)]
#[verifier::reject_recursive_types(V)]
#[verifier::reject_recursive_types(S)]
pub struct ExIndexMap<K, V, S>(IndexMap<K, V, S>);

/// `Clone` for `IndexMap`: a copy of the map. Nothing is stated of the result.
pub assume_specification<K, V, S>[ <IndexMap<K, V, S> as Clone>::clone ](m: &IndexMap<K, V, S>) -> IndexMap<K, V, S>
    where
        K: Clone,
        V: Clone,
        S: Clone,
;

/// The (name, state) entries of a state map, in insertion order.
pub uninterp spec fn state_entries(m: IndexMap<String, State>) -> Seq<(Seq<char>, State)>;

/// The (name, spec) entries of a parameter map, in insertion order.
pub uninterp spec fn param_entries(m: IndexMap<String, ParamSpec>) -> Seq<(Seq<char>, ParamSpec)>;

/// The state stored under the first entry named `k`.
pub open spec fn state_lookup(es: Seq<(Seq<char>, State)>, k: Seq<char>) -> Option<State>
    decreases es.len(),
{
    if es.len() == 0 {
        None
    } else if es[0].0 == k {
        Some(es[0].1)
    } else {
        state_lookup(es.drop_first(), k)
    }
}

/// `IndexMap::len` on a state map: the number of entries.
#[verifier::external_body]
pub(crate) fn states_len(m: &IndexMap<String, State>) -> (r: usize)
    ensures
        r == state_entries(*m).len(),
{
    m.len()
}

/// `IndexMap::get_index` on a state map: the entry at position `i`, if any.
#[verifier::external_body]
pub(crate) fn state_at(m: &IndexMap<String, State>, i: usize) -> (r: Option<(&String, &State)>)
    ensures
        i < state_entries(*m).len() ==> r is Some && r.unwrap().0@ == state_entries(*m)[i as int].0
            && *r.unwrap().1 == state_entries(*m)[i as int].1,
        i >= state_entries(*m).len() ==> r is None,
{
    m.get_index(i)
}

/// `IndexMap::get` on a state map: the state stored under `k`, if any
/// (keys of an `IndexMap` are unique, so this is the first entry named `k`).
#[verifier::external_body]
pub(crate) fn state_get<'a>(m: &'a IndexMap<String, State>, k: &str) -> (r: Option<&'a State>)
    ensures
        match r {
            Some(s) => state_lookup(state_entries(*m), k@) == Some(*s),
            None => state_lookup(state_entries(*m), k@) is None,
        },
{
    m.get(k)
}

/// `IndexMap::contains_key` on a state map.
#[verifier::external_body]
pub(crate) fn state_contains(m: &IndexMap<String, State>, k: &str) -> (r: bool)
    ensures
        r == state_lookup(state_entries(*m), k@) is Some,
{
    m.contains_key(k)
}

/// `IndexMap::len` on a parameter map.
#[verifier::external_body]
pub(crate) fn params_len(m: &IndexMap<String, ParamSpec>) -> (r: usize)
    ensures
        r == param_entries(*m).len(),
{
    m.len()
}

/// `IndexMap::get_index` on a parameter map.
#[verifier::external_body]
pub(crate) fn param_at(m: &IndexMap<String, ParamSpec>, i: usize) -> (r: Option<(&String, &ParamSpec)>)
    ensures
        i < param_entries(*m).len() ==> r is Some && r.unwrap().0@ == param_entries(*m)[i as int].0
            && *r.unwrap().1 == param_entries(*m)[i as int].1,
        i >= param_entries(*m).len() ==> r is None,
{
    m.get_index(i)
}

#[derive(Debug, Clone, PartialEq)]
pub struct Procedure {
    pub name: String,
    pub version: u32,
    pub description: String,
    pub triggers: Triggers,
    pub initial_state: String,
    pub states: IndexMap<String, State>,
}

#[derive(Debug, Clone, PartialEq)]
pub struct Triggers {
    pub match_hints: Vec<String>,
    pub params: IndexMap<String, ParamSpec>,
}

#[derive(Debug, Clone, PartialEq)]
pub struct ParamSpec {
    pub ty: ParamType,
    pub required: bool,
    pub description: Option<String>,
    pub items: Option<ParamType>,
    /// Default value to use when this param is absent from the run's
    /// initial params. Must match `ty` (checked by `Procedure::validate`).
    pub default: Option<JsonValue>,
}

#[derive(Debug, Clone, Copy, PartialEq, Eq)]
pub enum ParamType {
    String,
    Integer,
    Boolean,
    Array,
}

#[derive(Debug, Clone, PartialEq)]
pub struct State {
    pub action: Option<Action>,
    pub gate: Option<Gate>,
    pub max_attempts: Option<u32>,
    pub on_success: Option<String>,
    pub on_failure: Option<String>,
    pub terminal: Option<Terminal>,
}

impl Default for State {
    fn default() -> (r: State)
        ensures
            r.action is None,
            r.gate is None,
            r.max_attempts is None,
            r.on_success is None,
            r.on_failure is None,
            r.terminal is None,
    {
        State {
            action: None,
            gate: None,
            max_attempts: None,
            on_success: None,
            on_failure: None,
            terminal: None,
        }
    }
}

#[derive(Debug, Clone, PartialEq)]
pub enum Action {
    CreateSession { executor: String, prompt: String },
    FollowUp { session_ref: String, executor: Option<String>, prompt: String },
    StartReview { session_ref: String, executor: String, prompt: String },
    Merge { session_ref: String },
}

#[derive(Debug, Clone, PartialEq)]
pub enum Gate {
    Deterministic { run: String, pass_when: String },
    LlmJudge { pass_when: String },
    Human { prompt: String },
}

#[derive(Debug, Clone, Copy, PartialEq, Eq)]
pub enum Terminal {
    Success,
    Failure,
}

#[derive(Debug, PartialEq)]
pub enum ValidationError {
    MissingInitialState(String),
    UnknownTransition { from: String, to: String, field: &'static str },
    EmptyState(String),
    TerminalWithTransitions(String),
    DefaultTypeMismatch { name: String },
}

#[derive(Debug, PartialEq)]
pub enum ParamError {
    MissingRequired(String),
    TypeMismatch { name: String, expected: ParamType, actual: String },
}

/// What a validation error says, over character sequences.
pub ghost enum ValidationFault {
    MissingInitialState(Seq<char>),
    UnknownTransition { from: Seq<char>, to: Seq<char>, field: Seq<char> },
    EmptyState(Seq<char>),
    TerminalWithTransitions(Seq<char>),
    DefaultTypeMismatch(Seq<char>),
}

/// What a parameter error says, over character sequences.
pub ghost enum ParamFault {
    MissingRequired(Seq<char>),
    TypeMismatch { name: Seq<char>, expected: ParamType, actual: Seq<char> },
}

impl ValidationError {
    pub open spec fn fault(self) -> ValidationFault {
        match self {
            ValidationError::MissingInitialState(s) => ValidationFault::MissingInitialState(s@),
            ValidationError::UnknownTransition { from, to, field } => ValidationFault::UnknownTransition {
                from: from@,
                to: to@,
                field: field@,
            },
            ValidationError::EmptyState(s) => ValidationFault::EmptyState(s@),
            ValidationError::TerminalWithTransitions(s) => ValidationFault::TerminalWithTransitions(s@),
            ValidationError::DefaultTypeMismatch { name } => ValidationFault::DefaultTypeMismatch(name@),
        }
    }
}

impl ParamError {
    pub open spec fn fault(self) -> ParamFault {
        match self {
            ParamError::MissingRequired(s) => ParamFault::MissingRequired(s@),
            ParamError::TypeMismatch { name, expected, actual } => ParamFault::TypeMismatch {
                name: name@,
                expected,
                actual: actual@,
            },
        }
    }
}

/// Whether a JSON value is compatible with a declared parameter type when no
/// item type is given. `null` is compatible with every type.
pub open spec fn plain_type_matches(ty: ParamType, v: JsonModel) -> bool {
    match v {
        JsonModel::Null => true,
        JsonModel::Str(_) => ty == ParamType::String,
        JsonModel::Number(n) => ty == ParamType::Integer && !(n is Float),
        JsonModel::Bool(_) => ty == ParamType::Boolean,
        JsonModel::Array(_) => ty == ParamType::Array,
        JsonModel::Object(_) => false,
    }
}

/// Whether a JSON value is compatible with a declared parameter type.
/// `null` is compatible with every type; an array is checked element-wise
/// against `items` when that is given.
pub open spec fn type_matches(ty: ParamType, items: Option<ParamType>, v: JsonModel) -> bool {
    match v {
        JsonModel::Array(xs) => ty == ParamType::Array && match items {
            None => true,
            Some(it) => forall|i: int| 0 <= i < xs.len() ==> plain_type_matches(it, #[trigger] xs[i]),
        },
        _ => plain_type_matches(ty, v),
    }
}

/// Compatibility of a value with a type when no item type is given.
pub fn plain_matches(ty: ParamType, value: &JsonValue) -> (r: bool)
    ensures
        r == plain_type_matches(ty, value.model()),
{
    match value {
        JsonValue::Null => true,
        JsonValue::String(_) => matches!(ty, ParamType::String),
        JsonValue::Number(n) => matches!(ty, ParamType::Integer) && !matches!(n, crate::json::JsonNumber::Float(_)),
        JsonValue::Bool(_) => matches!(ty, ParamType::Boolean),
        JsonValue::Array(_) => matches!(ty, ParamType::Array),
        JsonValue::Object(_) => false,
    }
}

/// The name of a value's JSON type, as reported in type mismatches.
pub open spec fn json_kind_name(v: JsonModel) -> Seq<char> {
    match v {
        JsonModel::Null => "null"@,
        JsonModel::Bool(_) => "boolean"@,
        JsonModel::Number(n) => if n is Float {
            "number"@
        } else {
            "integer"@
        },
        JsonModel::Str(_) => "string"@,
        JsonModel::Array(_) => "array"@,
        JsonModel::Object(_) => "object"@,
    }
}

pub fn json_type_name(value: &JsonValue) -> (r: &'static str)
    ensures
        r@ == json_kind_name(value.model()),
{
    match value {
        JsonValue::Null => "null",
        JsonValue::Bool(_) => "boolean",
        JsonValue::Number(n) => match n {
            crate::json::JsonNumber::Float(_) => "number",
            _ => "integer",
        },
        JsonValue::String(_) => "string",
        JsonValue::Array(_) => "array",
        JsonValue::Object(_) => "object",
    }
}

impl ParamSpec {
    /// Returns `true` when the given JSON value is compatible with this
    /// param's declared `ty`. `null` is always considered compatible
    /// (treated as "absent" by the run-start validator).
    #[verifier::loop_isolation(false)]
    pub fn matches_type(&self, value: &JsonValue) -> (r: bool)
        ensures
            r == type_matches(self.ty, self.items, value.model()),
    {
        match value {
            JsonValue::Array(arr) => {
                if !matches!(self.ty, ParamType::Array) {
                    return false;
                }
                match self.items {
                    None => true,
                    Some(item_ty) => {
                        let ghost xs = crate::json::items_model(arr@);
                        let mut i: usize = 0;
                        while i < arr.len()
                            invariant
                                i <= arr.len(),
                                xs == crate::json::items_model(arr@),
                                forall|j: int| 0 <= j < i ==> plain_type_matches(item_ty, #[trigger] xs[j]),
                            decreases arr.len() - i,
                        {
                            proof {
                                assert(xs[i as int] == arr@[i as int].model());
                            }
                            if !plain_matches(item_ty, &arr[i]) {
                                proof {
                                    assert(value.model()->Array_0 == xs);
                                    assert(!plain_type_matches(item_ty, xs[i as int]));
                                }
                                return false;
                            }
                            i += 1;
                        }
                        proof {
                            assert(value.model()->Array_0 == xs);
                        }
                        true
                    },
                }
            },
            _ => plain_matches(self.ty, value),
        }
    }
}

/// The first parameter (in declaration order) whose default does not match
/// its declared type.
pub open spec fn first_default_mismatch(ps: Seq<(Seq<char>, ParamSpec)>) -> Option<Seq<char>>
    decreases ps.len(),
{
    if ps.len() == 0 {
        None
    } else if ps[0].1.default is Some && !type_matches(
        ps[0].1.ty,
        ps[0].1.items,
        ps[0].1.default->0.model(),
    ) {
        Some(ps[0].0)
    } else {
        first_default_mismatch(ps.drop_first())
    }
}

/// What is wrong with one state of a procedure whose states are `es`, if anything.
pub open spec fn state_fault(es: Seq<(Seq<char>, State)>, name: Seq<char>, st: State) -> Option<
    ValidationFault,
> {
    if st.terminal is Some {
        if st.on_success is Some || st.on_failure is Some {
            Some(ValidationFault::TerminalWithTransitions(name))
        } else {
            None
        }
    } else if st.action is None && st.gate is None {
        Some(ValidationFault::EmptyState(name))
    } else if st.on_success is Some && state_lookup(es, st.on_success->0@) is None {
        Some(
            ValidationFault::UnknownTransition {
                from: name,
                to: st.on_success->0@,
                field: "on_success"@,
            },
        )
    } else if st.on_failure is Some && state_lookup(es, st.on_failure->0@) is None {
        Some(
            ValidationFault::UnknownTransition {
                from: name,
                to: st.on_failure->0@,
                field: "on_failure"@,
            },
        )
    } else {
        None
    }
}

/// The fault of the first faulty state among `todo` (checked against all states `es`).
pub open spec fn first_state_fault(es: Seq<(Seq<char>, State)>, todo: Seq<(Seq<char>, State)>) -> Option<
    ValidationFault,
>
    decreases todo.len(),
{
    if todo.len() == 0 {
        None
    } else {
        match state_fault(es, todo[0].0, todo[0].1) {
            Some(f) => Some(f),
            None => first_state_fault(es, todo.drop_first()),
        }
    }
}

/// The first rule a procedure breaks, in the order `validate` checks them:
/// the initial state must exist; every default must match its type; every
/// terminal state has no transitions, every other state has an action or a
/// gate, and its transitions name existing states.
pub open spec fn validation_fault(p: Procedure) -> Option<ValidationFault> {
    let es = state_entries(p.states);
    if state_lookup(es, p.initial_state@) is None {
        Some(ValidationFault::MissingInitialState(p.initial_state@))
    } else if first_default_mismatch(param_entries(p.triggers.params)) is Some {
        Some(
            ValidationFault::DefaultTypeMismatch(
                first_default_mismatch(param_entries(p.triggers.params))->0,
            ),
        )
    } else {
        first_state_fault(es, es)
    }
}

/// The object that parameter filling starts from: the given object, an
/// empty one for `null`, and `{"value": v}` for any other value `v`.
pub open spec fn initial_object(params: JsonModel) -> Seq<(Seq<char>, JsonModel)> {
    match params {
        JsonModel::Object(es) => es,
        JsonModel::Null => seq![],
        other => seq![("value"@, other)],
    }
}

/// Checks and defaults declared parameters `ps`, in order, against `obj`.
pub open spec fn fill_params(obj: Seq<(Seq<char>, JsonModel)>, ps: Seq<(Seq<char>, ParamSpec)>) -> Result<
    Seq<(Seq<char>, JsonModel)>,
    ParamFault,
>
    decreases ps.len(),
{
    if ps.len() == 0 {
        Ok(obj)
    } else {
        let name = ps[0].0;
        let spec = ps[0].1;
        let found = obj_get(obj, name);
        let present = found is Some && !(found->0 is Null);
        if !present {
            if spec.required {
                Err(ParamFault::MissingRequired(name))
            } else if spec.default is Some {
                fill_params(obj_insert(obj, name, spec.default->0.model()), ps.drop_first())
            } else {
                fill_params(obj, ps.drop_first())
            }
        } else if !type_matches(spec.ty, spec.items, found->0) {
            Err(
                ParamFault::TypeMismatch {
                    name,
                    expected: spec.ty,
                    actual: json_kind_name(found->0),
                },
            )
        } else {
            fill_params(obj, ps.drop_first())
        }
    }
}

/// Every declared default is a well-formed JSON value.
pub open spec fn defaults_well_formed(ps: Seq<(Seq<char>, ParamSpec)>) -> bool {
    forall|i: int|
        0 <= i < ps.len() ==> match (#[trigger] ps[i]).1.default {
            Some(d) => d.model().well_formed(),
            None => true,
        }
}

/// Filling parameters into well-formed entries with well-formed defaults
/// gives well-formed entries.
pub proof fn lemma_fill_params_well_formed(obj: Seq<(Seq<char>, JsonModel)>, ps: Seq<(Seq<char>, ParamSpec)>)
    requires
        entries_well_formed(obj),
        defaults_well_formed(ps),
    ensures
        fill_params(obj, ps) matches Ok(r) ==> entries_well_formed(r),
    decreases ps.len(),
{
    if ps.len() > 0 {
        let rest = ps.drop_first();
        assert forall|i: int| 0 <= i < rest.len() implies match (#[trigger] rest[i]).1.default {
            Some(d) => d.model().well_formed(),
            None => true,
        } by {
            assert(rest[i] == ps[i + 1]);
        }
        let spec = ps[0].1;
        if spec.default is Some {
            assert(match ps[0].1.default {
                Some(d) => d.model().well_formed(),
                None => true,
            });
            lemma_obj_insert_well_formed(obj, ps[0].0, spec.default->0.model());
            lemma_fill_params_well_formed(obj_insert(obj, ps[0].0, spec.default->0.model()), rest);
        }
        lemma_fill_params_well_formed(obj, rest);
    }
}

/// The object parameter filling starts from is well-formed when the params
/// are.
pub proof fn lemma_initial_object_well_formed(params: JsonModel)
    requires
        params.well_formed(),
    ensures
        entries_well_formed(initial_object(params)),
{
    match params {
        JsonModel::Object(_) => {},
        JsonModel::Null => {},
        other => {
            let es = seq![("value"@, other)];
            assert(es[0].1.well_formed());
        },
    }
}

/// The result of `validate_and_fill_params`.
pub open spec fn filled_params(p: Procedure, params: JsonModel) -> Result<
    Seq<(Seq<char>, JsonModel)>,
    ParamFault,
> {
    fill_params(initial_object(params), param_entries(p.triggers.params))
}

impl Procedure {
    pub fn validate(&self) -> (r: Result<(), ValidationError>)
        ensures
            r is Ok <==> validation_fault(*self) is None,
            r matches Err(e) ==> validation_fault(*self) == Some(e.fault()),
    {
        let ghost es = state_entries(self.states);
        if !state_contains(&self.states, self.initial_state.as_str()) {
            return Err(ValidationError::MissingInitialState(self.initial_state.clone()));
        }
        let ghost ps = param_entries(self.triggers.params);
        let np = params_len(&self.triggers.params);
        let mut i: usize = 0;
        proof {
            assert(ps.skip(0) =~= ps);
        }
        while i < np
            invariant
                i <= np,
                np == ps.len(),
                ps == param_entries(self.triggers.params),
                es == state_entries(self.states),
                state_lookup(es, self.initial_state@) is Some,
                first_default_mismatch(ps) == first_default_mismatch(ps.skip(i as int)),
            decreases np - i,
        {
            let (name, spec) = param_at(&self.triggers.params, i).unwrap();
            proof {
                assert(ps.skip(i as int)[0] == ps[i as int]);
                assert(ps.skip(i as int).drop_first() =~= ps.skip(i + 1));
            }
            match &spec.default {
                Some(default) => {
                    if !spec.matches_type(default) {
                        proof {
                            assert(first_default_mismatch(ps.skip(i as int)) == Some(ps[i as int].0));
                        }
                        return Err(ValidationError::DefaultTypeMismatch { name: name.clone() });
                    }
                },
                None => {},
            }
            i += 1;
        }
        proof {
            assert(ps.skip(np as int).len() == 0);
            assert(validation_fault(*self) == first_state_fault(es, es));
        }
        let ns = states_len(&self.states);
        let mut j: usize = 0;
        proof {
            assert(es.skip(0) =~= es);
        }
        while j < ns
            invariant
                j <= ns,
                ns == es.len(),
                es == state_entries(self.states),
                validation_fault(*self) == first_state_fault(es, es.skip(j as int)),
            decreases ns - j,
        {
            let (name, state) = state_at(&self.states, j).unwrap();
            let ghost rest = es.skip(j as int);
            proof {
                assert(rest[0] == es[j as int]);
                assert(rest.drop_first() =~= es.skip(j + 1));
                assert(first_state_fault(es, rest) == match state_fault(es, name@, *state) {
                    Some(f) => Some(f),
                    None => first_state_fault(es, es.skip(j + 1)),
                });
            }
            if state.terminal.is_some() {
                if state.on_success.is_some() || state.on_failure.is_some() {
                    return Err(ValidationError::TerminalWithTransitions(name.clone()));
                }
            } else {
                if state.action.is_none() && state.gate.is_none() {
                    return Err(ValidationError::EmptyState(name.clone()));
                }
                match &state.on_success {
                    Some(target) => {
                        if !state_contains(&self.states, target.as_str()) {
                            proof {
                                reveal_strlit("on_success");
                            }
                            return Err(
                                ValidationError::UnknownTransition {
                                    from: name.clone(),
                                    to: target.clone(),
                                    field: "on_success",
                                },
                            );
                        }
                    },
                    None => {},
                }
                match &state.on_failure {
                    Some(target) => {
                        if !state_contains(&self.states, target.as_str()) {
                            return Err(
                                ValidationError::UnknownTransition {
                                    from: name.clone(),
                                    to: target.clone(),
                                    field: "on_failure",
                                },
                            );
                        }
                    },
                    None => {},
                }
            }
            j += 1;
        }
        proof {
            assert(es.skip(ns as int).len() == 0);
        }
        Ok(())
    }

    /// Validate the run's incoming params against the procedure's declared
    /// trigger spec, filling in declared defaults for missing optional params.
    /// Returns the merged params object on success.
    ///
    /// - Required params must be present and non-null; otherwise `MissingRequired`.
    /// - Present params must match their declared type; otherwise `TypeMismatch`.
    /// - Absent (or null) optional params with a `default` get filled.
    /// - Unknown keys in `params` are passed through untouched.
    #[verifier::loop_isolation(false)]
    pub fn validate_and_fill_params(&self, params: JsonValue) -> (r: Result<JsonValue, ParamError>)
        ensures
            match filled_params(*self, params.model()) {
                Ok(obj) => r matches Ok(v) && v.model() == JsonModel::Object(obj),
                Err(f) => r matches Err(e) && e.fault() == f,
            },
            params.model().well_formed() && defaults_well_formed(param_entries(self.triggers.params)) ==> (
            r matches Ok(v) ==> v.model().well_formed()),
    {
        let ghost pm = params.model();
        proof {
            if pm.well_formed() && defaults_well_formed(param_entries(self.triggers.params)) {
                lemma_initial_object_well_formed(pm);
                lemma_fill_params_well_formed(initial_object(pm), param_entries(self.triggers.params));
            }
        }
        let mut obj: Vec<(String, JsonValue)> = match params {
            JsonValue::Object(map) => map,
            JsonValue::Null => Vec::new(),
            other => {
                let mut m: Vec<(String, JsonValue)> = Vec::new();
                let key = crate::text::string_from("value");
                object_insert(&mut m, key, other);
                m
            },
        };
        proof {
            if !(pm is Object) && !(pm is Null) {
                assert(entries_model(Seq::<(String, JsonValue)>::empty()) =~= Seq::<(Seq<char>, JsonModel)>::empty());
                reveal_strlit("value");
            }
            assert(entries_model(obj@) == initial_object(pm)) by {
                if pm is Null {
                    assert(entries_model(obj@) =~= Seq::<(Seq<char>, JsonModel)>::empty());
                }
            }
        }
        let ghost ps = param_entries(self.triggers.params);
        let np = params_len(&self.triggers.params);
        let mut i: usize = 0;
        proof {
            assert(ps.skip(0) =~= ps);
        }
        while i < np
            invariant
                i <= np,
                np == ps.len(),
                ps == param_entries(self.triggers.params),
                filled_params(*self, pm) == fill_params(entries_model(obj@), ps.skip(i as int)),
            decreases np - i,
        {
            let (name, spec) = param_at(&self.triggers.params, i).unwrap();
            let ghost cur = entries_model(obj@);
            let ghost rest = ps.skip(i as int);
            proof {
                assert(rest[0] == ps[i as int]);
                assert(rest.drop_first() =~= ps.skip(i + 1));
            }
            let key = chars_of(name.as_str());
            let found = object_get(&obj, &key);
            let present = match found {
                Some(v) => !v.is_null(),
                None => false,
            };
            proof {
                assert(crate::json::ref_model(found) == obj_get(cur, rest[0].0));
                assert(*spec == rest[0].1);
            }
            if !present {
                if spec.required {
                    proof {
                        assert(fill_params(cur, rest) == Err::<Seq<(Seq<char>, JsonModel)>, ParamFault>(ParamFault::MissingRequired(name@)));
                    }
                    return Err(ParamError::MissingRequired(name.clone()));
                }
                match &spec.default {
                    Some(default) => {
                        let d = default.deep_clone();
                        object_insert(&mut obj, name.clone(), d);
                    },
                    None => {},
                }
            } else {
                let value = found.unwrap();
                if !spec.matches_type(value) {
                    let actual = crate::text::string_from(json_type_name(value));
                    proof {
                        assert(fill_params(cur, rest) == Err::<Seq<(Seq<char>, JsonModel)>, ParamFault>(ParamFault::TypeMismatch {
                            name: name@,
                            expected: spec.ty,
                            actual: json_kind_name(value.model()),
                        }));
                    }
                    return Err(
                        ParamError::TypeMismatch {
                            name: name.clone(),
                            expected: spec.ty,
                            actual,
                        },
                    );
                }
            }
            i += 1;
        }
        proof {
            assert(ps.skip(np as int).len() == 0);
        }
        Ok(JsonValue::Object(obj))
    }
}

} // verus!
