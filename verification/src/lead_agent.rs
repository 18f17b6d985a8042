//! The lead-agent planner: the prompt that asks a model to pick a procedure
//! for a goal, and the reading of the model's reply into a picked plan.
use vstd::prelude::*;

use crate::gates::{extract_json_object, extracted_json};
use crate::json::{JsonModel, JsonValue, ref_model};
use crate::procedure::{ParamSpec, ParamType, Procedure, param_at, param_entries, params_len};
use crate::text::{chars_of, extend_chars, extend_str, string_of, trim, trim_str};

verus! {

broadcast use vstd::std_specs::vec::group_vec_axioms;

/// A procedure picked by the planner, with the params it chose.
pub struct PickedPlan {
    pub procedure_name: String,
    pub params: JsonValue,
    /// The raw assistant message; useful for surfacing reasoning to the user
    /// when the JSON the planner returned is missing fields.
    pub raw_assistant_message: Option<String>,
}

#[derive(Debug, PartialEq)]
pub enum PlanError {
    NoProcedures,
    Backend(String),
    NoAssistantMessage,
    NotJson(String),
    MissingProcedureName,
    UnknownProcedure(String),
}

/// An error answer of the HTTP layer, with its message.
#[derive(Debug, PartialEq)]
pub enum ApiError {
    BadRequest(String),
    BadGateway(String),
    Conflict(String),
}

/// The message of a planner error.
pub open spec fn plan_error_text(e: PlanError) -> Seq<char> {
    match e {
        PlanError::NoProcedures => "no built-in procedures available"@,
        PlanError::Backend(m) => "backend: "@ + m@,
        PlanError::NoAssistantMessage => "planner returned no assistant message"@,
        PlanError::NotJson(m) => "planner output is not parseable JSON: "@ + m@,
        PlanError::MissingProcedureName => "planner JSON missing field `procedure_name`"@,
        PlanError::UnknownProcedure(n) => "planner picked unknown procedure `"@ + n@ + "`"@,
    }
}

impl PlanError {
    /// The error's message.
    pub fn message(&self) -> (r: String)
        ensures
            r@ == plan_error_text(*self),
    {
        let mut m: Vec<char> = Vec::new();
        match self {
            PlanError::NoProcedures => extend_str(&mut m, "no built-in procedures available"),
            PlanError::Backend(s) => {
                extend_str(&mut m, "backend: ");
                extend_str(&mut m, s.as_str());
            },
            PlanError::NoAssistantMessage => extend_str(&mut m, "planner returned no assistant message"),
            PlanError::NotJson(s) => {
                extend_str(&mut m, "planner output is not parseable JSON: ");
                extend_str(&mut m, s.as_str());
            },
            PlanError::MissingProcedureName => extend_str(
                &mut m,
                "planner JSON missing field `procedure_name`",
            ),
            PlanError::UnknownProcedure(s) => {
                extend_str(&mut m, "planner picked unknown procedure `");
                extend_str(&mut m, s.as_str());
                extend_str(&mut m, "`");
            },
        }
        proof {
            assert(m@ =~= plan_error_text(*self));
        }
        string_of(&m)
    }
}

/// The HTTP answer for a planner error: a failing backend is a bad gateway,
/// everything else a bad request; the message is the error's message.
pub fn plan_error_to_api(e: PlanError) -> (r: ApiError)
    ensures
        match e {
            PlanError::Backend(_) => r matches ApiError::BadGateway(m) && m@ == plan_error_text(e),
            _ => r matches ApiError::BadRequest(m) && m@ == plan_error_text(e),
        },
{
    let m = e.message();
    match e {
        PlanError::Backend(_) => ApiError::BadGateway(m),
        _ => ApiError::BadRequest(m),
    }
}

/// The lower-case name of a parameter type, as the prompt shows it.
pub open spec fn type_word(t: ParamType) -> Seq<char> {
    match t {
        ParamType::String => "string"@,
        ParamType::Integer => "integer"@,
        ParamType::Boolean => "boolean"@,
        ParamType::Array => "array"@,
    }
}

/// The prompt line describing one trigger parameter.
pub open spec fn param_line(name: Seq<char>, spec: ParamSpec) -> Seq<char> {
    "      - "@ + name + " ("@ + type_word(spec.ty) + ", "@ + (if spec.required {
        "required"@
    } else {
        "optional"@
    }) + ")"@ + match spec.description {
        Some(d) => ": "@ + trim(d@),
        None => Seq::empty(),
    } + "\n"@
}

/// The prompt lines of a sequence of parameters.
pub open spec fn params_text(es: Seq<(Seq<char>, ParamSpec)>) -> Seq<char>
    decreases es.len(),
{
    if es.len() == 0 {
        Seq::empty()
    } else {
        params_text(es.drop_last()) + param_line(es.last().0, es.last().1)
    }
}

/// The texts joined with `", "` between them.
pub open spec fn comma_joined(hs: Seq<Seq<char>>) -> Seq<char>
    decreases hs.len(),
{
    if hs.len() == 0 {
        Seq::empty()
    } else if hs.len() == 1 {
        hs[0]
    } else {
        comma_joined(hs.drop_last()) + ", "@ + hs.last()
    }
}

/// The texts of a vector of strings.
pub open spec fn texts(v: Seq<String>) -> Seq<Seq<char>> {
    v.map_values(|s: String| s@)
}

/// The prompt block describing one procedure.
pub open spec fn procedure_block(p: Procedure) -> Seq<char> {
    title_line(p) + params_part(p) + hints_part(p)
}

/// The blocks of a sequence of procedures.
pub open spec fn procedures_text(ps: Seq<Procedure>) -> Seq<char>
    decreases ps.len(),
{
    if ps.len() == 0 {
        Seq::empty()
    } else {
        procedures_text(ps.drop_last()) + procedure_block(ps.last())
    }
}

pub open spec fn prompt_header() -> Seq<char> {
    "You are picking a procedure for the user's goal.\n\n"@ + "Available procedures:\n"@
}

pub open spec fn prompt_footer() -> Seq<char> {
    "Respond with a single JSON object and nothing else: {\"procedure_name\": \"...\", \"params\": {...}}. Include all required params for the picked procedure. Do not include `workspace_id` (the caller injects it). Do not run any commands or modify files; only emit the JSON.\n"@
}

/// The planning prompt: each available procedure with its trigger params
/// and hints, then the user's goal and the expected answer shape.
pub open spec fn prompt_text(goal: Seq<char>, ps: Seq<Procedure>) -> Seq<char> {
    prompt_header() + procedures_text(ps) + "\n"@ + "User goal:\n"@ + goal + "\n\n"@ + prompt_footer()
}

fn param_type_word(t: ParamType) -> (r: &'static str)
    ensures
        r@ == type_word(t),
{
    match t {
        ParamType::String => "string",
        ParamType::Integer => "integer",
        ParamType::Boolean => "boolean",
        ParamType::Array => "array",
    }
}

fn param_line_chars(name: &String, spec: &ParamSpec) -> (r: Vec<char>)
    ensures
        r@ == param_line(name@, *spec),
{
    let mut out: Vec<char> = Vec::new();
    extend_str(&mut out, "      - ");
    extend_str(&mut out, name.as_str());
    extend_str(&mut out, " (");
    extend_str(&mut out, param_type_word(spec.ty));
    extend_str(&mut out, ", ");
    if spec.required {
        extend_str(&mut out, "required");
    } else {
        extend_str(&mut out, "optional");
    }
    extend_str(&mut out, ")");
    let ghost head = out@;
    match &spec.description {
        Some(d) => {
            extend_str(&mut out, ": ");
            let t = trim_str(d.as_str());
            extend_chars(&mut out, &t);
        },
        None => {},
    }
    extend_str(&mut out, "\n");
    proof {
        assert(out@ =~= param_line(name@, *spec));
    }
    out
}

fn push_param_lines(out: &mut Vec<char>, p: &Procedure)
    ensures
        final(out)@ == old(out)@ + params_text(param_entries(p.triggers.params)),
{
    let ghost es = param_entries(p.triggers.params);
    let n = params_len(&p.triggers.params);
    let mut i: usize = 0;
    while i < n
        invariant
            n == es.len(),
            es == param_entries(p.triggers.params),
            i <= n,
            out@ == old(out)@ + params_text(es.take(i as int)),
        decreases n - i,
    {
        let (name, spec) = param_at(&p.triggers.params, i).unwrap();
        let line = param_line_chars(name, spec);
        extend_chars(out, &line);
        proof {
            assert(es.take(i + 1).drop_last() =~= es.take(i as int));
            assert(es.take(i + 1).last() == es[i as int]);
            assert(out@ =~= old(out)@ + params_text(es.take(i + 1)));
        }
        i += 1;
    }
    proof {
        assert(es.take(n as int) =~= es);
    }
}

fn push_hints(out: &mut Vec<char>, hints: &Vec<String>)
    requires
        hints.len() > 0,
    ensures
        final(out)@ == old(out)@ + comma_joined(texts(hints@)),
{
    let ghost hs = texts(hints@);
    extend_str(out, hints[0].as_str());
    proof {
        assert(hs.take(1).len() == 1);
        assert(comma_joined(hs.take(1)) == hs[0]);
    }
    let mut i: usize = 1;
    while i < hints.len()
        invariant
            1 <= i <= hints.len(),
            hs == texts(hints@),
            out@ == old(out)@ + comma_joined(hs.take(i as int)),
        decreases hints.len() - i,
    {
        extend_str(out, ", ");
        extend_str(out, hints[i].as_str());
        proof {
            assert(hs.take(i + 1).drop_last() =~= hs.take(i as int));
            assert(hs.take(i + 1).last() == hints@[i as int]@);
            assert(out@ =~= old(out)@ + comma_joined(hs.take(i + 1)));
        }
        i += 1;
    }
    proof {
        assert(hs.take(hints.len() as int) =~= hs);
    }
}

/// The first line of a procedure's block: its name and description.
pub open spec fn title_line(p: Procedure) -> Seq<char> {
    "- "@ + p.name@ + (if p.description@.len() == 0 {
        Seq::empty()
    } else {
        " — "@ + trim(p.description@)
    }) + "\n"@
}

/// The parameter part of a procedure's block.
pub open spec fn params_part(p: Procedure) -> Seq<char> {
    let ps = param_entries(p.triggers.params);
    if ps.len() == 0 {
        Seq::empty()
    } else {
        "    params:\n"@ + params_text(ps)
    }
}

/// The hint part of a procedure's block.
pub open spec fn hints_part(p: Procedure) -> Seq<char> {
    let hints = texts(p.triggers.match_hints@);
    if hints.len() == 0 {
        Seq::empty()
    } else {
        "    use when: "@ + comma_joined(hints) + "\n"@
    }
}

fn title_chars(p: &Procedure) -> (r: Vec<char>)
    ensures
        r@ == title_line(*p),
{
    let mut out: Vec<char> = Vec::new();
    extend_str(&mut out, "- ");
    extend_str(&mut out, p.name.as_str());
    let desc = chars_of(p.description.as_str());
    if desc.len() > 0 {
        extend_str(&mut out, " — ");
        let t = trim_str(p.description.as_str());
        extend_chars(&mut out, &t);
    }
    extend_str(&mut out, "\n");
    proof {
        assert(out@ =~= title_line(*p));
    }
    out
}

fn params_chars(p: &Procedure) -> (r: Vec<char>)
    ensures
        r@ == params_part(*p),
{
    let mut out: Vec<char> = Vec::new();
    if params_len(&p.triggers.params) > 0 {
        extend_str(&mut out, "    params:\n");
        push_param_lines(&mut out, p);
    }
    proof {
        assert(out@ =~= params_part(*p));
    }
    out
}

fn hints_chars(p: &Procedure) -> (r: Vec<char>)
    ensures
        r@ == hints_part(*p),
{
    let mut out: Vec<char> = Vec::new();
    if p.triggers.match_hints.len() > 0 {
        extend_str(&mut out, "    use when: ");
        push_hints(&mut out, &p.triggers.match_hints);
        extend_str(&mut out, "\n");
    }
    proof {
        assert(texts(p.triggers.match_hints@).len() == p.triggers.match_hints.len());
        assert(out@ =~= hints_part(*p));
    }
    out
}

fn push_procedure_block(out: &mut Vec<char>, p: &Procedure)
    ensures
        final(out)@ == old(out)@ + procedure_block(*p),
{
    let a = title_chars(p);
    let b = params_chars(p);
    let c = hints_chars(p);
    extend_chars(out, &a);
    extend_chars(out, &b);
    extend_chars(out, &c);
    proof {
        assert(out@ =~= old(out)@ + procedure_block(*p));
    }
}

/// Build the planning prompt describing each available procedure with its
/// trigger params.
pub fn build_prompt(goal: &str, procedures: &[Procedure]) -> (r: String)
    ensures
        r@ == prompt_text(goal@, procedures@),
{
    let mut out: Vec<char> = Vec::new();
    extend_str(&mut out, "You are picking a procedure for the user's goal.\n\n");
    extend_str(&mut out, "Available procedures:\n");
    proof {
        assert(out@ =~= prompt_header() + procedures_text(procedures@.take(0)));
    }
    let mut i: usize = 0;
    while i < procedures.len()
        invariant
            i <= procedures.len(),
            out@ == prompt_header() + procedures_text(procedures@.take(i as int)),
        decreases procedures.len() - i,
    {
        push_procedure_block(&mut out, &procedures[i]);
        proof {
            assert(procedures@.take(i + 1).drop_last() =~= procedures@.take(i as int));
            assert(procedures@.take(i + 1).last() == procedures@[i as int]);
        }
        i += 1;
    }
    proof {
        assert(procedures@.take(procedures.len() as int) =~= procedures@);
    }
    extend_str(&mut out, "\n");
    extend_str(&mut out, "User goal:\n");
    extend_str(&mut out, goal);
    extend_str(&mut out, "\n\n");
    extend_str(
        &mut out,
        "Respond with a single JSON object and nothing else: {\"procedure_name\": \"...\", \"params\": {...}}. Include all required params for the picked procedure. Do not include `workspace_id` (the caller injects it). Do not run any commands or modify files; only emit the JSON.\n",
    );
    proof {
        assert(out@ =~= prompt_text(goal@, procedures@));
    }
    string_of(&out)
}

/// The first 200 characters of a text (all of it when shorter).
pub open spec fn head200(s: Seq<char>) -> Seq<char> {
    if s.len() <= 200 {
        s
    } else {
        s.take(200)
    }
}

/// Whether one of the procedures has the given name.
pub open spec fn has_procedure(ps: Seq<Procedure>, name: Seq<char>) -> bool {
    exists|i: int| 0 <= i < ps.len() && (#[trigger] ps[i]).name@ == name
}

/// The params a planner response picks: its `params` member, else an empty
/// object.
pub open spec fn picked_params(response: JsonModel) -> JsonModel {
    match response.get("params"@) {
        Some(v) => v,
        None => JsonModel::Object(Seq::empty()),
    }
}

/// The planning prompt for a goal, refused when there is no procedure to
/// pick from.
pub fn planner_prompt(goal: &str, procedures: &[Procedure]) -> (r: Result<String, PlanError>)
    ensures
        procedures.len() == 0 ==> r == Err::<String, PlanError>(PlanError::NoProcedures),
        procedures.len() > 0 ==> (r matches Ok(s) && s@ == prompt_text(goal@, procedures@)),
{
    if procedures.len() == 0 {
        return Err(PlanError::NoProcedures);
    }
    Ok(build_prompt(goal, procedures))
}

/// The JSON text in the planner's reply: refused when there is no reply or
/// no JSON in it (the error then carries the reply's first 200 characters).
pub fn planner_reply_json(raw: Option<&str>) -> (r: Result<String, PlanError>)
    ensures
        match raw {
            None => r == Err::<String, PlanError>(PlanError::NoAssistantMessage),
            Some(t) => match extracted_json(t@) {
                Some(j) => r matches Ok(s) && s@ == j,
                None => r matches Err(PlanError::NotJson(m)) && m@ == head200(t@),
            },
        },
{
    match raw {
        None => Err(PlanError::NoAssistantMessage),
        Some(t) => match extract_json_object(t) {
            Some(j) => Ok(j),
            None => {
                let v = chars_of(t);
                let mut head: Vec<char> = Vec::new();
                let mut i: usize = 0;
                while i < v.len() && i < 200
                    invariant
                        i <= v.len(),
                        i <= 200,
                        head@ == v@.take(i as int),
                    decreases v.len() - i,
                {
                    head.push(v[i]);
                    i += 1;
                    proof {
                        assert(head@ =~= v@.take(i as int));
                    }
                }
                proof {
                    if v.len() <= 200 {
                        assert(v@.take(i as int) =~= v@);
                    }
                }
                Err(PlanError::NotJson(string_of(&head)))
            },
        },
    }
}

/// The plan a parsed planner response picks among `procedures`: its
/// `procedure_name` must be a string naming one of them; its params are the
/// response's `params` (an empty object when absent).
pub fn pick_plan(response: &JsonValue, procedures: &[Procedure], raw: String) -> (r: Result<PickedPlan, PlanError>)
    ensures
        match response.model().get("procedure_name"@) {
            Some(JsonModel::Str(n)) => if has_procedure(procedures@, n) {
                r matches Ok(p) && p.procedure_name@ == n && p.params.model() == picked_params(response.model())
                    && p.raw_assistant_message == Some(raw)
            } else {
                r matches Err(PlanError::UnknownProcedure(m)) && m@ == n
            },
            _ => r == Err::<PickedPlan, PlanError>(PlanError::MissingProcedureName),
        },
{
    let name_key = chars_of("procedure_name");
    let name = match response.get(&name_key) {
        Some(v) => match v.as_str() {
            Some(s) => s.clone(),
            None => {
                return Err(PlanError::MissingProcedureName);
            },
        },
        None => {
            return Err(PlanError::MissingProcedureName);
        },
    };
    let nv = chars_of(name.as_str());
    let mut i: usize = 0;
    let mut found = false;
    while i < procedures.len()
        invariant
            i <= procedures.len(),
            nv@ == name@,
            found ==> has_procedure(procedures@, name@),
            !found ==> forall|j: int| 0 <= j < i ==> (#[trigger] procedures@[j]).name@ != name@,
        decreases procedures.len() - i,
    {
        let pv = chars_of(procedures[i].name.as_str());
        if crate::text::chars_eq(&pv, &nv) {
            found = true;
        }
        i += 1;
    }
    if !found {
        return Err(PlanError::UnknownProcedure(name));
    }
    let params_key = chars_of("params");
    let params = match response.get(&params_key) {
        Some(v) => v.deep_clone(),
        None => JsonValue::Object(Vec::new()),
    };
    proof {
        assert(crate::json::entries_model(Seq::<(String, JsonValue)>::empty()) =~= Seq::empty());
    }
    Ok(PickedPlan { procedure_name: name, params, raw_assistant_message: Some(raw) })
}

} // verus!
