//! Gates: the checks a procedure state passes or fails.
//!
//! A deterministic gate compares a command's exit code with a
//! `exit_code == N` / `exit_code != N` expression; an LLM judge compares a
//! field of a JSON response with a quoted literal
//! (`response.path == 'value'`); a human gate passes on approval. The
//! commands, model calls and approvals themselves are performed by the
//! caller; this module decides what their results mean.
use vstd::prelude::*;

use crate::json::{JsonModel, JsonValue, json_rendering, json_string};
use crate::template::{first_index, lemma_first_index, lookup_path, walk_json};
use crate::text::{
    chars_eq, chars_eq_str, chars_of, extend_chars, extend_str, parse_i32, parse_i32_chars,
    push_signed_decimal, signed_decimal, slice_chars, split_whitespace, string_of, trim, trim_range,
    words,
};

verus! {

broadcast use vstd::std_specs::vec::group_vec_axioms;

/// An I/O error of the standard library, carried through unchanged.
#[verifier::external_type_specification]
#[verifier::external_body]
pub struct ExIoError(std::io::Error);

#[derive(Debug, PartialEq)]
pub struct GateOutcome {
    pub passed: bool,
    pub output: Option<String>,
    pub response: Option<JsonValue>,
    pub summary: String,
}

#[derive(Debug)]
pub enum GateError {
    Spawn(std::io::Error),
    UnsupportedExpression(String),
    MissingResponsePath(String),
    MissingResponse,
    ApprovalChannelClosed,
}

/// What a gate error says.
pub ghost enum GateFault {
    Spawn,
    UnsupportedExpression(Seq<char>),
    MissingResponsePath(Seq<char>),
    MissingResponse,
    ApprovalChannelClosed,
}

impl GateError {
    pub open spec fn fault(self) -> GateFault {
        match self {
            GateError::Spawn(_) => GateFault::Spawn,
            GateError::UnsupportedExpression(s) => GateFault::UnsupportedExpression(s@),
            GateError::MissingResponsePath(s) => GateFault::MissingResponsePath(s@),
            GateError::MissingResponse => GateFault::MissingResponse,
            GateError::ApprovalChannelClosed => GateFault::ApprovalChannelClosed,
        }
    }
}

impl GateOutcome {
    /// The outcome's fields, over models.
    pub open spec fn is(
        self,
        passed: bool,
        output: Option<Seq<char>>,
        response: Option<JsonModel>,
        summary: Seq<char>,
    ) -> bool {
        &&& self.passed == passed
        &&& match self.output {
            Some(o) => output == Some(o@),
            None => output is None,
        }
        &&& match self.response {
            Some(v) => response == Some(v.model()),
            None => response is None,
        }
        &&& self.summary@ == summary
    }
}

/// What a gate evaluation may look at.
pub struct GateContext<'a> {
    pub run: Option<String>,
    pub pass_when: &'a str,
    pub prompt: Option<String>,
    pub last_assistant_message: Option<&'a str>,
}

/// The verdict of an `exit_code == N` or `exit_code != N` expression (any
/// white space between the three words); anything else is unsupported.
pub open spec fn exit_code_verdict(expr: Seq<char>, code: i32) -> Result<bool, GateFault> {
    let w = words(expr);
    if w.len() != 3 || w[0] != "exit_code"@ {
        Err(GateFault::UnsupportedExpression(expr))
    } else {
        match parse_i32(w[2]) {
            None => Err(GateFault::UnsupportedExpression(expr)),
            Some(rhs) => if w[1] == "=="@ {
                Ok(code == rhs)
            } else if w[1] == "!="@ {
                Ok(code != rhs)
            } else {
                Err(GateFault::UnsupportedExpression(expr))
            },
        }
    }
}

/// Result of a deterministic gate evaluation.
pub open spec fn result_fault(r: Result<bool, GateError>) -> Result<bool, GateFault> {
    match r {
        Ok(b) => Ok(b),
        Err(e) => Err(e.fault()),
    }
}

pub fn evaluate_exit_code_expr(expr: &str, code: i32) -> (r: Result<bool, GateError>)
    ensures
        result_fault(r) == exit_code_verdict(expr@, code),
{
    let ev = chars_of(expr);
    let parts = split_whitespace(&ev);
    if parts.len() != 3 || !chars_eq_str(&parts[0], "exit_code") {
        return Err(GateError::UnsupportedExpression(string_of(&ev)));
    }
    let rhs = match parse_i32_chars(&parts[2]) {
        Some(v) => v,
        None => {
            return Err(GateError::UnsupportedExpression(string_of(&ev)));
        },
    };
    if chars_eq_str(&parts[1], "==") {
        Ok(code == rhs)
    } else if chars_eq_str(&parts[1], "!=") {
        Ok(code != rhs)
    } else {
        Err(GateError::UnsupportedExpression(string_of(&ev)))
    }
}

/// The output a command's streams combine to: stdout, stderr, or both
/// separated by a newline.
pub open spec fn combined_output(stdout: Seq<char>, stderr: Seq<char>) -> Seq<char> {
    if stderr.len() == 0 {
        stdout
    } else if stdout.len() == 0 {
        stderr
    } else {
        stdout + seq!['\n'] + stderr
    }
}

/// The summary of a deterministic gate.
pub open spec fn exit_code_summary(code: i32, pass_when: Seq<char>) -> Seq<char> {
    "exit_code="@ + signed_decimal(code as int) + " pass_when=`"@ + pass_when + "`"@
}

pub struct DeterministicGateEvaluator;

impl DeterministicGateEvaluator {
    /// The outcome of a deterministic gate whose command exited with `code`
    /// (`-1` when it had none) after writing `stdout` and `stderr`.
    pub fn judge(&self, pass_when: &str, code: i32, stdout: String, stderr: String) -> (r: Result<
        GateOutcome,
        GateError,
    >)
        ensures
            match exit_code_verdict(pass_when@, code) {
                Ok(p) => r is Ok && r->Ok_0.is(
                    p,
                    Some(combined_output(stdout@, stderr@)),
                    None,
                    exit_code_summary(code, pass_when@),
                ),
                Err(f) => r matches Err(e) && e.fault() == f,
            },
    {
        let combined = if stderr.as_str().is_empty() {
            stdout
        } else if stdout.as_str().is_empty() {
            stderr
        } else {
            let mut v = chars_of(stdout.as_str());
            v.push('\n');
            extend_str(&mut v, stderr.as_str());
            proof {
                assert(v@ =~= stdout@ + seq!['\n'] + stderr@);
            }
            string_of(&v)
        };
        proof {
            if stderr@.len() == 0 {
            } else if stdout@.len() == 0 {
            }
        }
        let passed = match evaluate_exit_code_expr(pass_when, code) {
            Ok(p) => p,
            Err(e) => {
                return Err(e);
            },
        };
        let mut s: Vec<char> = Vec::new();
        extend_str(&mut s, "exit_code=");
        push_signed_decimal(&mut s, code as i64);
        extend_str(&mut s, " pass_when=`");
        extend_str(&mut s, pass_when);
        extend_str(&mut s, "`");
        proof {
            assert(s@ =~= exit_code_summary(code, pass_when@));
        }
        Ok(GateOutcome { passed, output: Some(combined), response: None, summary: string_of(&s) })
    }
}

/// Words joined with single spaces.
pub open spec fn join_words(ws: Seq<Seq<char>>) -> Seq<char>
    decreases ws.len(),
{
    if ws.len() == 0 {
        seq![]
    } else if ws.len() == 1 {
        ws[0]
    } else {
        join_words(ws.drop_last()) + seq![' '] + ws.last()
    }
}

/// The inside of a literal quoted with single or double quotes.
pub open spec fn unquote(s: Seq<char>) -> Option<Seq<char>> {
    if s.len() >= 2 && ((s[0] == '\'' && s.last() == '\'') || (s[0] == '"' && s.last() == '"')) {
        Some(s.subrange(1, s.len() - 1))
    } else {
        None
    }
}

/// How a response field is compared: strings as they are, other values as
/// compact JSON.
pub open spec fn comparable_text(v: JsonModel) -> Seq<char> {
    match v {
        JsonModel::Str(s) => s,
        other => json_rendering(other),
    }
}

/// The verdict of `response.<path> == '<literal>'` (or `!=`) against a
/// JSON response. The literal is everything after the operator (inner
/// runs of white space collapsed to one space), quoted with `'` or `"`.
pub open spec fn llm_verdict(expr: Seq<char>, response: JsonModel) -> Result<bool, GateFault> {
    let w = words(expr);
    if w.len() < 3 {
        Err(GateFault::UnsupportedExpression(expr))
    } else {
        let lhs = w[0];
        let op = w[1];
        let rhs_raw = join_words(w.skip(2));
        if !(lhs.len() >= 9 && lhs.take(9) == "response."@) {
            Err(GateFault::UnsupportedExpression(expr))
        } else {
            let path = lhs.skip(9);
            match unquote(rhs_raw) {
                None => Err(GateFault::UnsupportedExpression(expr)),
                Some(rhs) => match lookup_path(response, path) {
                    None => Err(GateFault::MissingResponsePath(path)),
                    Some(actual) => if op == "=="@ {
                        Ok(comparable_text(actual) == rhs)
                    } else if op == "!="@ {
                        Ok(comparable_text(actual) != rhs)
                    } else {
                        Err(GateFault::UnsupportedExpression(expr))
                    },
                },
            }
        }
    }
}

/// Strips one pair of matching single or double quotes.
pub fn strip_quotes(s: &str) -> (r: Option<String>)
    ensures
        match unquote(s@) {
            Some(u) => r matches Some(x) && x@ == u,
            None => r is None,
        },
{
    let v = chars_of(s);
    match unquote_chars(&v) {
        Some(u) => Some(string_of(&u)),
        None => None,
    }
}

pub fn unquote_chars(v: &Vec<char>) -> (r: Option<Vec<char>>)
    ensures
        match unquote(v@) {
            Some(u) => r matches Some(x) && x@ == u,
            None => r is None,
        },
{
    let n = v.len();
    if n >= 2 && ((v[0] == '\'' && v[n - 1] == '\'') || (v[0] == '"' && v[n - 1] == '"')) {
        Some(slice_chars(v, 1, n - 1))
    } else {
        None
    }
}

/// Joins words `ws[from..]` with single spaces.
pub fn join_from(ws: &Vec<Vec<char>>, from: usize) -> (r: Vec<char>)
    requires
        from <= ws.len(),
    ensures
        r@ == join_words(Seq::new((ws.len() - from) as nat, |k: int| ws@[from + k]@)),
{
    let ghost all = Seq::new((ws.len() - from) as nat, |k: int| ws@[from + k]@);
    let mut out: Vec<char> = Vec::new();
    let mut i: usize = from;
    proof {
        assert(all.take(0) =~= Seq::<Seq<char>>::empty());
    }
    while i < ws.len()
        invariant
            from <= i <= ws.len(),
            all == Seq::new((ws.len() - from) as nat, |k: int| ws@[from + k]@),
            out@ == join_words(all.take(i - from)),
        decreases ws.len() - i,
    {
        let ghost before = out@;
        if i > from {
            out.push(' ');
        }
        extend_chars(&mut out, &ws[i]);
        proof {
            let p = all.take(i - from + 1);
            assert(p.last() == ws@[i as int]@);
            if i == from {
                assert(p.len() == 1);
                assert(join_words(p) == p[0]);
                assert(out@ =~= join_words(p));
            } else {
                assert(p.drop_last() =~= all.take(i - from));
                assert(out@ =~= join_words(p));
            }
        }
        i += 1;
    }
    proof {
        assert(all.take(ws.len() - from) =~= all);
    }
    out
}

/// Evaluates a `response.<path> <op> '<literal>'` expression.
pub fn evaluate_llm_expr(expr: &str, response: &JsonValue) -> (r: Result<bool, GateError>)
    ensures
        result_fault(r) == llm_verdict(expr@, response.model()),
{
    let ev = chars_of(expr);
    let ws = split_whitespace(&ev);
    let ghost w = words(ev@);
    if ws.len() < 3 {
        return Err(GateError::UnsupportedExpression(string_of(&ev)));
    }
    let rhs_raw = join_from(&ws, 2);
    proof {
        assert(Seq::new((ws.len() - 2) as nat, |k: int| ws@[2 + k]@) =~= w.skip(2));
    }
    let lhs = &ws[0];
    let op = &ws[1];
    let prefix = chars_of("response.");
    proof {
        reveal_strlit("response.");
    }
    let has_prefix = lhs.len() >= 9 && {
        let head = slice_chars(lhs, 0, 9);
        proof {
            assert(head@ =~= lhs@.take(9));
        }
        chars_eq(&head, &prefix)
    };
    if !has_prefix {
        return Err(GateError::UnsupportedExpression(string_of(&ev)));
    }
    let path = slice_chars(lhs, 9, lhs.len());
    proof {
        assert(path@ =~= lhs@.skip(9));
    }
    let rhs = match unquote_chars(&rhs_raw) {
        Some(u) => u,
        None => {
            return Err(GateError::UnsupportedExpression(string_of(&ev)));
        },
    };
    let actual = match walk_json(response, &path) {
        Some(a) => a,
        None => {
            return Err(GateError::MissingResponsePath(string_of(&path)));
        },
    };
    let actual_text = match actual {
        JsonValue::String(s) => chars_of(s.as_str()),
        other => chars_of(json_string(other).as_str()),
    };
    proof {
        assert(actual_text@ == comparable_text(actual.model()));
    }
    if chars_eq_str(op, "==") {
        Ok(chars_eq(&actual_text, &rhs))
    } else if chars_eq_str(op, "!=") {
        Ok(!chars_eq(&actual_text, &rhs))
    } else {
        Err(GateError::UnsupportedExpression(string_of(&ev)))
    }
}

/// Whether a text is one JSON document (surrounding white space allowed).
pub uninterp spec fn json_document(text: Seq<char>) -> bool;

/// `serde_json::from_str::<serde_json::Value>`: whether the text parses as a
/// JSON value. The parsed value itself is not returned.
#[verifier::external_body]
fn parses_as_json(text: &str) -> (r: bool)
    ensures
        r == json_document(text@),
{
    serde_json::from_str::<serde_json::Value>(text).is_ok()
}

/// Scan of text `t` for a balanced `{...}` object starting at `start`,
/// from position `i` with the given nesting depth and string state: the
/// first prefix ending in a `}` that closes the outermost brace and parses
/// as JSON.
pub open spec fn scan_object(
    t: Seq<char>,
    start: int,
    i: int,
    depth: int,
    in_string: bool,
    escape: bool,
) -> Option<Seq<char>>
    decreases t.len() - i,
{
    if i < 0 || i >= t.len() {
        None
    } else if escape {
        scan_object(t, start, i + 1, depth, in_string, false)
    } else if in_string {
        if t[i] == '\\' {
            scan_object(t, start, i + 1, depth, true, true)
        } else if t[i] == '"' {
            scan_object(t, start, i + 1, depth, false, false)
        } else {
            scan_object(t, start, i + 1, depth, true, false)
        }
    } else if t[i] == '"' {
        scan_object(t, start, i + 1, depth, true, false)
    } else if t[i] == '{' {
        scan_object(t, start, i + 1, depth + 1, false, false)
    } else if t[i] == '}' {
        if depth - 1 == 0 && json_document(t.subrange(start, i + 1)) {
            Some(t.subrange(start, i + 1))
        } else {
            scan_object(t, start, i + 1, depth - 1, false, false)
        }
    } else {
        scan_object(t, start, i + 1, depth, false, false)
    }
}

/// The JSON text found in a model reply: the whole (trimmed) reply when it
/// parses, else the first balanced `{...}` object in it that parses.
pub open spec fn extracted_json(text: Seq<char>) -> Option<Seq<char>> {
    let t = trim(text);
    if json_document(t) {
        Some(t)
    } else {
        match first_index(t, '{') {
            None => None,
            Some(start) => scan_object(t, start as int, start as int, 0, false, false),
        }
    }
}

/// Whether a character sequence parses as JSON.
fn chars_parse_as_json(v: &Vec<char>) -> (r: bool)
    ensures
        r == json_document(v@),
{
    let s = string_of(v);
    parses_as_json(s.as_str())
}

/// Finds the JSON document in a model reply: either the whole trimmed reply
/// or a `{...}` object embedded in prose.
pub fn extract_json_object(text: &str) -> (r: Option<String>)
    ensures
        match extracted_json(text@) {
            Some(j) => r matches Some(s) && s@ == j,
            None => r is None,
        },
{
    let tv = chars_of(text);
    let n0 = tv.len();
    let t = trim_range(&tv, 0, n0);
    proof {
        assert(tv@.subrange(0, n0 as int) =~= tv@);
    }
    if chars_parse_as_json(&t) {
        return Some(string_of(&t));
    }
    let n = t.len();
    let mut start: usize = 0;
    while start < n && t[start] != '{'
        invariant
            start <= n,
            n == t.len(),
            forall|m: int| 0 <= m < start ==> t@[m] != '{',
        decreases n - start,
    {
        start += 1;
    }
    proof {
        lemma_first_index(t@, '{');
    }
    if start == n {
        proof {
            if let Some(f) = first_index(t@, '{') {
                assert(t@[f as int] == '{');
            }
        }
        return None;
    }
    proof {
        if let Some(f) = first_index(t@, '{') {
            if f < start {
                assert(t@[f as int] != '{');
            }
        }
        assert(first_index(t@, '{') == Some(start as nat));
    }
    let mut depth: i128 = 0;
    let mut in_string = false;
    let mut escape = false;
    let mut i: usize = start;
    while i < n
        invariant
            start <= i <= n,
            n == t.len(),
            start < n,
            -(i as int) <= depth <= i as int,
            extracted_json(text@) == scan_object(t@, start as int, i as int, depth as int, in_string, escape),
        decreases n - i,
    {
        let b = t[i];
        if escape {
            escape = false;
        } else if in_string {
            if b == '\\' {
                escape = true;
            } else if b == '"' {
                in_string = false;
            }
        } else if b == '"' {
            in_string = true;
        } else if b == '{' {
            depth += 1;
        } else if b == '}' {
            depth -= 1;
            if depth == 0 {
                let candidate = slice_chars(&t, start, i + 1);
                if chars_parse_as_json(&candidate) {
                    return Some(string_of(&candidate));
                }
            }
        }
        i += 1;
    }
    None
}

pub struct LlmJudgeGateEvaluator<S> {
    pub source: S,
}

impl<S> LlmJudgeGateEvaluator<S> {
    pub fn new(source: S) -> (r: Self)
        ensures
            r.source == source,
    {
        Self { source }
    }
}

/// The summary of an LLM-judge gate.
pub open spec fn llm_summary(pass_when: Seq<char>) -> Seq<char> {
    "llm_judge pass_when=`"@ + pass_when + "`"@
}

fn llm_summary_text(pass_when: &str) -> (r: String)
    ensures
        r@ == llm_summary(pass_when@),
{
    let mut s: Vec<char> = Vec::new();
    extend_str(&mut s, "llm_judge pass_when=`");
    extend_str(&mut s, pass_when);
    extend_str(&mut s, "`");
    proof {
        assert(s@ =~= llm_summary(pass_when@));
    }
    string_of(&s)
}

/// The outcome of an LLM-judge gate over the judge's JSON response.
pub fn llm_judge_outcome(pass_when: &str, response: JsonValue) -> (r: Result<GateOutcome, GateError>)
    ensures
        match llm_verdict(pass_when@, response.model()) {
            Ok(p) => r is Ok && r->Ok_0.is(p, None, Some(response.model()), llm_summary(pass_when@)),
            Err(f) => r matches Err(e) && e.fault() == f,
        },
{
    let passed = match evaluate_llm_expr(pass_when, &response) {
        Ok(p) => p,
        Err(e) => {
            return Err(e);
        },
    };
    Ok(
        GateOutcome {
            passed,
            output: None,
            response: Some(response),
            summary: llm_summary_text(pass_when),
        },
    )
}

impl<S> LlmJudgeGateEvaluator<S> {
    /// The outcome for the response the judge's source supplied.
    pub fn judge(&self, ctx: &GateContext, response: JsonValue) -> (r: Result<GateOutcome, GateError>)
        ensures
            match llm_verdict(ctx.pass_when@, response.model()) {
                Ok(p) => r is Ok && r->Ok_0.is(p, None, Some(response.model()), llm_summary(ctx.pass_when@)),
                Err(f) => r matches Err(e) && e.fault() == f,
            },
    {
        llm_judge_outcome(ctx.pass_when, response)
    }
}

/// The message of the error for a reply with no JSON in it.
pub open spec fn not_json_message(raw: Seq<char>) -> Seq<char> {
    "llm_judge: review output is not parseable JSON: "@ + raw
}

/// Judge that reads the preceding action's `last_assistant_message` as
/// JSON, either a clean JSON document or a JSON object embedded in prose.
pub struct ContextLlmJudge;

impl ContextLlmJudge {
    /// The JSON text to parse as the judge's response.
    pub fn response_text(&self, ctx: &GateContext) -> (r: Result<String, GateError>)
        ensures
            match ctx.last_assistant_message {
                None => r matches Err(e) && e.fault() == GateFault::MissingResponse,
                Some(raw) => match extracted_json(raw@) {
                    Some(j) => r matches Ok(s) && s@ == j,
                    None => r matches Err(e) && e.fault() == GateFault::UnsupportedExpression(
                        not_json_message(raw@),
                    ),
                },
            },
    {
        match ctx.last_assistant_message {
            None => Err(GateError::MissingResponse),
            Some(raw) => match extract_json_object(raw) {
                Some(j) => Ok(j),
                None => {
                    let mut m: Vec<char> = Vec::new();
                    extend_str(&mut m, "llm_judge: review output is not parseable JSON: ");
                    extend_str(&mut m, raw);
                    proof {
                        assert(m@ =~= not_json_message(raw@));
                    }
                    Err(GateError::UnsupportedExpression(string_of(&m)))
                },
            },
        }
    }

    /// The outcome once the response text has been parsed to `response`.
    pub fn judge(&self, ctx: &GateContext, response: JsonValue) -> (r: Result<GateOutcome, GateError>)
        requires
            ctx.last_assistant_message is Some,
        ensures
            match llm_verdict(ctx.pass_when@, response.model()) {
                Ok(p) => r is Ok && r->Ok_0.is(
                    p,
                    Some(ctx.last_assistant_message->0@),
                    Some(response.model()),
                    llm_summary(ctx.pass_when@),
                ),
                Err(f) => r matches Err(e) && e.fault() == f,
            },
    {
        let raw = ctx.last_assistant_message.unwrap();
        let passed = match evaluate_llm_expr(ctx.pass_when, &response) {
            Ok(p) => p,
            Err(e) => {
                return Err(e);
            },
        };
        Ok(
            GateOutcome {
                passed,
                output: Some(crate::text::string_from(raw)),
                response: Some(response),
                summary: llm_summary_text(ctx.pass_when),
            },
        )
    }
}

#[derive(Debug, Clone, Copy, PartialEq, Eq)]
pub enum ApprovalResult {
    Approved,
    Rejected,
}

/// A human-approval source that answers every request with a fixed result.
pub struct AutoApprove(pub ApprovalResult);

impl AutoApprove {
    pub fn approval(&self) -> (r: ApprovalResult)
        ensures
            r == self.0,
    {
        self.0
    }
}

pub struct HumanGateEvaluator<H> {
    pub source: H,
}

impl<H> HumanGateEvaluator<H> {
    pub fn new(source: H) -> (r: Self)
        ensures
            r.source == source,
    {
        Self { source }
    }

    /// The outcome of a human gate given the human's answer.
    pub fn judge(&self, result: ApprovalResult) -> (r: GateOutcome)
        ensures
            r.is(
                result == ApprovalResult::Approved,
                None,
                None,
                if result == ApprovalResult::Approved {
                    "human: approved"@
                } else {
                    "human: rejected"@
                },
            ),
    {
        let passed = matches!(result, ApprovalResult::Approved);
        GateOutcome {
            passed,
            output: None,
            response: None,
            summary: if passed {
                crate::text::string_from("human: approved")
            } else {
                crate::text::string_from("human: rejected")
            },
        }
    }
}

} // verus!
