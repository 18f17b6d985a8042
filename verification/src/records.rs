//! The stored rows of the procedure runtime: project-local procedures, runs
//! with their state history, and lead-agent bindings. Identifiers are UUIDs
//! held as their 128-bit values; times are milliseconds since the Unix epoch.
use vstd::prelude::*;

use crate::json::JsonValue;
use crate::text::str_eq;

verus! {

broadcast use vstd::std_specs::vec::group_vec_axioms;

/// Who saved a project-local procedure.
#[derive(Debug, Clone, Copy, PartialEq, Eq)]
pub enum ProcedureSource {
    User,
    LeadAgent,
}

/// The stored name of a procedure source.
pub open spec fn source_text(s: ProcedureSource) -> Seq<char> {
    match s {
        ProcedureSource::User => "user"@,
        ProcedureSource::LeadAgent => "lead_agent"@,
    }
}

impl ProcedureSource {
    pub fn as_str(&self) -> (r: &'static str)
        ensures
            r@ == source_text(*self),
    {
        match self {
            ProcedureSource::User => "user",
            ProcedureSource::LeadAgent => "lead_agent",
        }
    }
}

/// A project-local procedure as stored.
#[derive(Debug, Clone)]
pub struct ProcedureRecord {
    pub id: u128,
    pub project_id: u128,
    pub name: String,
    pub version: i64,
    pub yaml: String,
    pub source: String,
    pub created_at: i64,
    pub updated_at: i64,
}

/// The lifecycle status of a procedure run.
#[derive(Debug, Clone, Copy, PartialEq, Eq)]
pub enum ProcedureRunStatus {
    Running,
    Succeeded,
    Failed,
    Cancelled,
}

/// The stored name of a run status.
pub open spec fn status_text(s: ProcedureRunStatus) -> Seq<char> {
    match s {
        ProcedureRunStatus::Running => "running"@,
        ProcedureRunStatus::Succeeded => "succeeded"@,
        ProcedureRunStatus::Failed => "failed"@,
        ProcedureRunStatus::Cancelled => "cancelled"@,
    }
}

impl ProcedureRunStatus {
    pub fn as_str(&self) -> (r: &'static str)
        ensures
            r@ == status_text(*self),
    {
        match self {
            ProcedureRunStatus::Running => "running",
            ProcedureRunStatus::Succeeded => "succeeded",
            ProcedureRunStatus::Failed => "failed",
            ProcedureRunStatus::Cancelled => "cancelled",
        }
    }
}

/// How a state was left.
#[derive(Debug, Clone, Copy, PartialEq, Eq)]
pub enum StateOutcome {
    Success,
    Failure,
    Cancelled,
}

/// One stored step of a run's history.
#[derive(Debug, Clone)]
pub struct StateHistoryEntry {
    pub state: String,
    pub entered_at: i64,
    pub exited_at: Option<i64>,
    pub outcome: Option<StateOutcome>,
    pub gate_summary: Option<String>,
    pub attempt: u32,
    pub session_id: Option<String>,
}

/// A procedure run as stored.
pub struct ProcedureRun {
    pub id: u128,
    pub project_id: u128,
    pub procedure_name: String,
    pub procedure_version: i64,
    pub current_state: String,
    pub status: String,
    pub params: JsonValue,
    pub state_history: Vec<StateHistoryEntry>,
    pub workspace_id: Option<u128>,
    pub created_at: i64,
    pub updated_at: i64,
}

/// The data a new run row is created from.
pub struct CreateProcedureRun {
    pub procedure_name: String,
    pub procedure_version: i64,
    pub initial_state: String,
    pub params: JsonValue,
    pub workspace_id: Option<u128>,
}

/// A project's lead-agent session binding.
#[derive(Debug, Clone)]
pub struct ProjectLeadAgent {
    pub project_id: u128,
    pub session_id: u128,
    pub workspace_id: u128,
    pub created_at: i64,
    pub updated_at: i64,
}

impl ProcedureRun {
    /// Records a transition: the entry joins the history and the run is now
    /// in `to_state`.
    pub fn record_transition(&mut self, to_state: String, entry: StateHistoryEntry)
        ensures
            final(self).state_history@ == old(self).state_history@.push(entry),
            final(self).current_state == to_state,
            final(self).id == old(self).id,
            final(self).status == old(self).status,
            final(self).procedure_name == old(self).procedure_name,
    {
        self.state_history.push(entry);
        self.current_state = to_state;
    }

    /// Cancelling a run: only a running run is cancelled; it then has the
    /// `cancelled` status. `None` when the run is not running.
    pub fn cancelled(self) -> (r: Option<ProcedureRun>)
        ensures
            self.status@ == status_text(ProcedureRunStatus::Running) ==> (r matches Some(c)
                && c.status@ == status_text(ProcedureRunStatus::Cancelled) && c.id == self.id
                && c.current_state == self.current_state && c.state_history == self.state_history),
            self.status@ != status_text(ProcedureRunStatus::Running) ==> r is None,
    {
        if str_eq(self.status.as_str(), ProcedureRunStatus::Running.as_str()) {
            let mut c = self;
            c.status = crate::text::string_from(ProcedureRunStatus::Cancelled.as_str());
            Some(c)
        } else {
            None
        }
    }
}

} // verus!
