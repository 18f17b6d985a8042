pub mod catalog;
pub mod gates;
pub mod json;
pub mod laws;
pub mod lead_agent;
pub mod loader;
pub mod procedure;
pub mod records;
pub mod registry;
pub mod run_log;
pub mod runtime;
pub mod state_machine;
pub mod template;
pub mod text;
pub mod uuids;
pub mod workspaces;

pub use gates::GateOutcome;
pub use loader::{builtin_procedure_names, builtin_procedure_yaml};
pub use procedure::{Action, Gate, ParamSpec, ParamType, Procedure, State, Terminal, Triggers};
pub use run_log::{RunId, RunLog};
pub use state_machine::StateHistoryEntry;
