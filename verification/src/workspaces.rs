//! Workspaces as the procedure runtime sees them: the role each session of
//! a workspace plays, the workspace facts a run's params are enriched with,
//! and the normalisation of a new project's request.
use vstd::prelude::*;

use crate::json::{
    JsonModel, JsonValue, entries_model, entries_well_formed, lemma_obj_insert_well_formed, obj_get, obj_insert,
    object_get, object_insert,
};
use crate::lead_agent::ApiError;
use crate::records::{ProcedureRun, ProjectLeadAgent};
use crate::text::{chars_of, extend_str, string_from, string_of, trim, trim_str};
use crate::uuids::{parse_uuid, uuid_parsed, uuid_string, uuid_text};

verus! {

broadcast use vstd::std_specs::vec::group_vec_axioms;

// ---------------------------------------------------------------------------
// Session roles
// ---------------------------------------------------------------------------

/// The role a session plays in its workspace.
#[derive(Debug, Clone, Copy, PartialEq, Eq)]
pub enum WorkspaceSessionRoleKind {
    /// The project's persistent lead-agent session bound to this workspace.
    LeadAgent,
    /// Spawned by a procedure run; carries `run_id` + `procedure_name`.
    ProcedureWorker,
    /// Anything else (user-created, ad-hoc tools).
    User,
}

pub struct WorkspaceSessionRole {
    pub session_id: u128,
    pub role: WorkspaceSessionRoleKind,
    /// For `procedure_worker`: the run id this session belongs to.
    pub run_id: Option<u128>,
    /// For `procedure_worker`: the run's procedure name.
    pub procedure_name: Option<String>,
    /// For `lead_agent`: the project this lead agent represents.
    pub project_id: Option<u128>,
}

/// The project whose lead agent is the session: the last binding that
/// names it.
pub open spec fn lead_project(leads: Seq<ProjectLeadAgent>, session: u128) -> Option<u128>
    decreases leads.len(),
{
    if leads.len() == 0 {
        None
    } else if leads.last().session_id == session {
        Some(leads.last().project_id)
    } else {
        lead_project(leads.drop_last(), session)
    }
}

/// Whether a history entry's session id reads as the given session.
pub open spec fn names_session(id: Option<String>, session: u128) -> bool {
    match id {
        Some(t) => uuid_parsed(t@) == Ok::<u128, Seq<char>>(session),
        None => false,
    }
}

/// Whether a run's history names the session.
pub open spec fn run_mentions(run: ProcedureRun, session: u128) -> bool {
    exists|k: int|
        0 <= k < run.state_history@.len() && names_session(
            (#[trigger] run.state_history@[k]).session_id,
            session,
        )
}

/// The run a worker session belongs to: among the runs (most recent first)
/// whose history names it, the most recent one.
pub open spec fn worker_run(runs: Seq<ProcedureRun>, session: u128) -> Option<ProcedureRun>
    decreases runs.len(),
{
    if runs.len() == 0 {
        None
    } else if run_mentions(runs[0], session) {
        Some(runs[0])
    } else {
        worker_run(runs.drop_first(), session)
    }
}

/// Whether `r` is the role of `session`: a lead agent's session first, then
/// a procedure run's worker, else a user's.
pub open spec fn role_of(
    r: WorkspaceSessionRole,
    session: u128,
    leads: Seq<ProjectLeadAgent>,
    runs: Seq<ProcedureRun>,
) -> bool {
    &&& r.session_id == session
    &&& match lead_project(leads, session) {
        Some(project) => {
            &&& r.role == WorkspaceSessionRoleKind::LeadAgent
            &&& r.project_id == Some(project)
            &&& r.run_id is None
            &&& r.procedure_name is None
        },
        None => match worker_run(runs, session) {
            Some(run) => {
                &&& r.role == WorkspaceSessionRoleKind::ProcedureWorker
                &&& r.run_id == Some(run.id)
                &&& r.procedure_name matches Some(n) && n@ == run.procedure_name@
                &&& r.project_id is None
            },
            None => {
                &&& r.role == WorkspaceSessionRoleKind::User
                &&& r.run_id is None
                &&& r.procedure_name is None
                &&& r.project_id is None
            },
        },
    }
}

fn find_lead(leads: &[ProjectLeadAgent], session: u128) -> (r: Option<u128>)
    ensures
        r == lead_project(leads@, session),
{
    let mut i = leads.len();
    proof {
        assert(leads@.take(i as int) =~= leads@);
    }
    while i > 0
        invariant
            i <= leads.len(),
            lead_project(leads@, session) == lead_project(leads@.take(i as int), session),
        decreases i,
    {
        proof {
            assert(leads@.take(i as int).last() == leads@[i - 1]);
            assert(leads@.take(i as int).drop_last() =~= leads@.take(i - 1));
        }
        if leads[i - 1].session_id == session {
            return Some(leads[i - 1].project_id);
        }
        i -= 1;
    }
    None
}

fn mentions(run: &ProcedureRun, session: u128) -> (r: bool)
    ensures
        r == run_mentions(*run, session),
{
    let mut k: usize = 0;
    while k < run.state_history.len()
        invariant
            k <= run.state_history.len(),
            forall|j: int| 0 <= j < k ==> !names_session((#[trigger] run.state_history@[j]).session_id, session),
        decreases run.state_history.len() - k,
    {
        match &run.state_history[k].session_id {
            Some(t) => match parse_uuid(t.as_str()) {
                Ok(v) => if v == session {
                    proof {
                        assert(names_session(run.state_history@[k as int].session_id, session));
                    }
                    return true;
                },
                Err(_) => {},
            },
            None => {},
        }
        k += 1;
    }
    false
}

fn find_worker(runs: &[ProcedureRun], session: u128) -> (r: Option<usize>)
    ensures
        match worker_run(runs@, session) {
            Some(run) => r matches Some(i) && i < runs.len() && runs@[i as int] == run,
            None => r is None,
        },
{
    let mut i: usize = 0;
    proof {
        assert(runs@.skip(0) =~= runs@);
    }
    while i < runs.len()
        invariant
            i <= runs.len(),
            worker_run(runs@, session) == worker_run(runs@.skip(i as int), session),
        decreases runs.len() - i,
    {
        proof {
            assert(runs@.skip(i as int)[0] == runs@[i as int]);
            assert(runs@.skip(i as int).drop_first() =~= runs@.skip(i + 1));
        }
        if mentions(&runs[i], session) {
            return Some(i);
        }
        i += 1;
    }
    None
}

/// The role of each of a workspace's sessions, given the lead-agent
/// bindings and the procedure runs (most recent first) of the workspace.
pub fn session_roles(sessions: &[u128], leads: &[ProjectLeadAgent], runs: &[ProcedureRun]) -> (r: Vec<
    WorkspaceSessionRole,
>)
    ensures
        r.len() == sessions.len(),
        forall|i: int| 0 <= i < r.len() ==> role_of(#[trigger] r@[i], sessions@[i], leads@, runs@),
{
    let mut out: Vec<WorkspaceSessionRole> = Vec::new();
    let mut i: usize = 0;
    while i < sessions.len()
        invariant
            i <= sessions.len(),
            out.len() == i,
            forall|j: int| 0 <= j < i ==> role_of(#[trigger] out@[j], sessions@[j], leads@, runs@),
        decreases sessions.len() - i,
    {
        let s = sessions[i];
        let role = match find_lead(leads, s) {
            Some(project) => WorkspaceSessionRole {
                session_id: s,
                role: WorkspaceSessionRoleKind::LeadAgent,
                run_id: None,
                procedure_name: None,
                project_id: Some(project),
            },
            None => match find_worker(runs, s) {
                Some(k) => WorkspaceSessionRole {
                    session_id: s,
                    role: WorkspaceSessionRoleKind::ProcedureWorker,
                    run_id: Some(runs[k].id),
                    procedure_name: Some(string_from(runs[k].procedure_name.as_str())),
                    project_id: None,
                },
                None => WorkspaceSessionRole {
                    session_id: s,
                    role: WorkspaceSessionRoleKind::User,
                    run_id: None,
                    procedure_name: None,
                    project_id: None,
                },
            },
        };
        out.push(role);
        i += 1;
    }
    out
}

// ---------------------------------------------------------------------------
// Workspace facts in a run's params
// ---------------------------------------------------------------------------

/// The workspace of a run, as its params show it.
pub struct WorkspaceInfo {
    pub id: u128,
    /// The workspace's root directory, once it has one.
    pub container_ref: Option<String>,
    pub branch: String,
}

/// A repository attached to a workspace.
pub struct RepoInfo {
    pub id: u128,
    pub name: String,
}

/// The workspace a run belongs to: the one named explicitly, else the
/// `workspace_id` string of its params read as a UUID.
pub open spec fn workspace_hint_spec(explicit: Option<u128>, params: JsonModel) -> Option<u128> {
    match explicit {
        Some(w) => Some(w),
        None => match params.get("workspace_id"@) {
            Some(JsonModel::Str(s)) => match uuid_parsed(s) {
                Ok(v) => Some(v),
                Err(_) => None,
            },
            _ => None,
        },
    }
}

/// The workspace a run belongs to, if any.
pub fn workspace_hint(explicit: Option<u128>, params: &JsonValue) -> (r: Option<u128>)
    ensures
        r == workspace_hint_spec(explicit, params.model()),
{
    if let Some(w) = explicit {
        return Some(w);
    }
    let key = chars_of("workspace_id");
    match params.get(&key) {
        Some(v) => match v.as_str() {
            Some(s) => match parse_uuid(s.as_str()) {
                Ok(id) => Some(id),
                Err(_) => None,
            },
            None => None,
        },
        None => None,
    }
}

/// The workspace's root directory (empty before it has one).
pub open spec fn workspace_root(ws: WorkspaceInfo) -> Seq<char> {
    match ws.container_ref {
        Some(c) => c@,
        None => Seq::empty(),
    }
}

/// Where a repository lives: `<root>/<name>`, or nothing without a root.
pub open spec fn repo_path(root: Seq<char>, name: Seq<char>) -> Seq<char> {
    if root.len() == 0 {
        Seq::empty()
    } else {
        root + "/"@ + name
    }
}

/// The worktree a procedure works in: the only repository's directory, else
/// the workspace root.
pub open spec fn primary_path(root: Seq<char>, repos: Seq<RepoInfo>) -> Seq<char> {
    if repos.len() == 1 && root.len() > 0 {
        root + "/"@ + repos[0].name@
    } else {
        root
    }
}

/// The JSON object describing one repository.
pub open spec fn repo_entries(r: RepoInfo, root: Seq<char>) -> Seq<(Seq<char>, JsonModel)> {
    let e0 = obj_insert(Seq::empty(), "id"@, JsonModel::Str(uuid_text(r.id)));
    let e1 = obj_insert(e0, "name"@, JsonModel::Str(r.name@));
    obj_insert(e1, "path"@, JsonModel::Str(repo_path(root, r.name@)))
}

pub open spec fn repos_model(repos: Seq<RepoInfo>, root: Seq<char>) -> Seq<JsonModel> {
    Seq::new(repos.len(), |i: int| JsonModel::Object(repo_entries(repos[i], root)))
}

/// The JSON object describing the workspace.
pub open spec fn workspace_entries(ws: WorkspaceInfo, repos: Seq<RepoInfo>) -> Seq<(Seq<char>, JsonModel)> {
    let root = workspace_root(ws);
    let e0 = obj_insert(Seq::empty(), "id"@, JsonModel::Str(uuid_text(ws.id)));
    let e1 = obj_insert(e0, "workspace_path"@, JsonModel::Str(root));
    let e2 = obj_insert(e1, "worktree_path"@, JsonModel::Str(primary_path(root, repos)));
    let e3 = obj_insert(e2, "branch"@, JsonModel::Str(ws.branch@));
    obj_insert(e3, "repos"@, JsonModel::Array(repos_model(repos, root)))
}

/// The object the params become: an object stays as it is, `null` becomes
/// an empty object, any other value is kept under `value`.
pub open spec fn base_entries(params: JsonModel) -> Seq<(Seq<char>, JsonModel)> {
    match params {
        JsonModel::Object(es) => es,
        JsonModel::Null => Seq::empty(),
        other => obj_insert(Seq::empty(), "value"@, other),
    }
}

/// A run's params enriched with its workspace: `workspace` describes it,
/// and `workspace_id` names it unless the params already have one.
pub open spec fn enriched(params: JsonModel, ws: WorkspaceInfo, repos: Seq<RepoInfo>) -> JsonModel {
    let es = obj_insert(base_entries(params), "workspace"@, JsonModel::Object(workspace_entries(ws, repos)));
    JsonModel::Object(
        if obj_get(es, "workspace_id"@) is Some {
            es
        } else {
            obj_insert(es, "workspace_id"@, JsonModel::Str(uuid_text(ws.id)))
        },
    )
}

proof fn lemma_repo_entries_well_formed(r: RepoInfo, root: Seq<char>)
    ensures
        entries_well_formed(repo_entries(r, root)),
{
    let e = Seq::<(Seq<char>, JsonModel)>::empty();
    let e0 = obj_insert(e, "id"@, JsonModel::Str(uuid_text(r.id)));
    let e1 = obj_insert(e0, "name"@, JsonModel::Str(r.name@));
    lemma_obj_insert_well_formed(e, "id"@, JsonModel::Str(uuid_text(r.id)));
    lemma_obj_insert_well_formed(e0, "name"@, JsonModel::Str(r.name@));
    lemma_obj_insert_well_formed(e1, "path"@, JsonModel::Str(repo_path(root, r.name@)));
}

proof fn lemma_workspace_entries_well_formed(ws: WorkspaceInfo, repos: Seq<RepoInfo>)
    ensures
        entries_well_formed(workspace_entries(ws, repos)),
{
    let root = workspace_root(ws);
    let e = Seq::<(Seq<char>, JsonModel)>::empty();
    let e0 = obj_insert(e, "id"@, JsonModel::Str(uuid_text(ws.id)));
    let e1 = obj_insert(e0, "workspace_path"@, JsonModel::Str(root));
    let e2 = obj_insert(e1, "worktree_path"@, JsonModel::Str(primary_path(root, repos)));
    let e3 = obj_insert(e2, "branch"@, JsonModel::Str(ws.branch@));
    lemma_obj_insert_well_formed(e, "id"@, JsonModel::Str(uuid_text(ws.id)));
    lemma_obj_insert_well_formed(e0, "workspace_path"@, JsonModel::Str(root));
    lemma_obj_insert_well_formed(e1, "worktree_path"@, JsonModel::Str(primary_path(root, repos)));
    lemma_obj_insert_well_formed(e2, "branch"@, JsonModel::Str(ws.branch@));
    let rs = repos_model(repos, root);
    assert forall|i: int| 0 <= i < rs.len() implies (#[trigger] rs[i]).well_formed() by {
        lemma_repo_entries_well_formed(repos[i], root);
    }
    lemma_obj_insert_well_formed(e3, "repos"@, JsonModel::Array(rs));
}

/// Enriching well-formed params gives well-formed JSON.
pub proof fn lemma_enriched_well_formed(params: JsonModel, ws: WorkspaceInfo, repos: Seq<RepoInfo>)
    requires
        params.well_formed(),
    ensures
        enriched(params, ws, repos).well_formed(),
{
    let b = base_entries(params);
    match params {
        JsonModel::Object(_) => {},
        JsonModel::Null => {},
        other => {
            lemma_obj_insert_well_formed(Seq::empty(), "value"@, other);
        },
    }
    lemma_workspace_entries_well_formed(ws, repos);
    let w = JsonModel::Object(workspace_entries(ws, repos));
    lemma_obj_insert_well_formed(b, "workspace"@, w);
    let es = obj_insert(b, "workspace"@, w);
    lemma_obj_insert_well_formed(es, "workspace_id"@, JsonModel::Str(uuid_text(ws.id)));
}

fn text_value(v: Vec<char>) -> (r: JsonValue)
    ensures
        r.model() == JsonModel::Str(v@),
{
    JsonValue::String(string_of(&v))
}

fn join_path(root: &Vec<char>, name: &str) -> (r: Vec<char>)
    ensures
        r@ == root@ + "/"@ + name@,
{
    let mut p = root.clone();
    extend_str(&mut p, "/");
    extend_str(&mut p, name);
    p
}

fn repo_object(r: &RepoInfo, root: &Vec<char>) -> (out: JsonValue)
    ensures
        out.model() == JsonModel::Object(repo_entries(*r, root@)),
{
    let mut e: Vec<(String, JsonValue)> = Vec::new();
    object_insert(&mut e, string_from("id"), JsonValue::String(uuid_string(r.id)));
    object_insert(&mut e, string_from("name"), JsonValue::String(string_from(r.name.as_str())));
    let path = if root.len() == 0 {
        Vec::new()
    } else {
        join_path(root, r.name.as_str())
    };
    object_insert(&mut e, string_from("path"), text_value(path));
    proof {
        assert(entries_model(Seq::<(String, JsonValue)>::empty()) =~= Seq::empty());
    }
    JsonValue::Object(e)
}

fn workspace_object(ws: &WorkspaceInfo, repos: &[RepoInfo]) -> (out: JsonValue)
    ensures
        out.model() == JsonModel::Object(workspace_entries(*ws, repos@)),
{
    let root: Vec<char> = match &ws.container_ref {
        Some(c) => chars_of(c.as_str()),
        None => Vec::new(),
    };
    let primary = if repos.len() == 1 && root.len() > 0 {
        join_path(&root, repos[0].name.as_str())
    } else {
        root.clone()
    };
    let mut items: Vec<JsonValue> = Vec::new();
    let mut i: usize = 0;
    while i < repos.len()
        invariant
            i <= repos.len(),
            items.len() == i,
            root@ == workspace_root(*ws),
            forall|j: int| 0 <= j < i ==> (#[trigger] items@[j]).model() == JsonModel::Object(
                repo_entries(repos@[j], root@),
            ),
        decreases repos.len() - i,
    {
        items.push(repo_object(&repos[i], &root));
        i += 1;
    }
    proof {
        assert(crate::json::items_model(items@) =~= repos_model(repos@, root@));
    }
    let mut e: Vec<(String, JsonValue)> = Vec::new();
    object_insert(&mut e, string_from("id"), JsonValue::String(uuid_string(ws.id)));
    object_insert(&mut e, string_from("workspace_path"), text_value(root));
    object_insert(&mut e, string_from("worktree_path"), text_value(primary));
    object_insert(&mut e, string_from("branch"), JsonValue::String(string_from(ws.branch.as_str())));
    object_insert(&mut e, string_from("repos"), JsonValue::Array(items));
    proof {
        assert(entries_model(Seq::<(String, JsonValue)>::empty()) =~= Seq::empty());
    }
    JsonValue::Object(e)
}

/// Adds the workspace's facts to a run's params, so that YAML procedures
/// can template `{{workspace.worktree_path}}` and the like.
pub fn enrich_params(params: JsonValue, ws: &WorkspaceInfo, repos: &[RepoInfo]) -> (r: JsonValue)
    ensures
        r.model() == enriched(params.model(), *ws, repos@),
        params.model().well_formed() ==> r.model().well_formed(),
{
    let ghost pm = params.model();
    proof {
        if pm.well_formed() {
            lemma_enriched_well_formed(pm, *ws, repos@);
        }
    }
    let mut obj: Vec<(String, JsonValue)> = match params {
        JsonValue::Object(m) => m,
        other => {
            let mut m: Vec<(String, JsonValue)> = Vec::new();
            if !other.is_null() {
                object_insert(&mut m, string_from("value"), other);
            }
            proof {
                assert(entries_model(Seq::<(String, JsonValue)>::empty()) =~= Seq::empty());
            }
            m
        },
    };
    proof {
        assert(entries_model(obj@) == base_entries(pm));
    }
    object_insert(&mut obj, string_from("workspace"), workspace_object(ws, repos));
    let key = chars_of("workspace_id");
    if object_get(&obj, &key).is_none() {
        object_insert(&mut obj, string_from("workspace_id"), JsonValue::String(uuid_string(ws.id)));
    }
    JsonValue::Object(obj)
}

// ---------------------------------------------------------------------------
// New projects
// ---------------------------------------------------------------------------

/// The working directory a project is created with: the trimmed one asked
/// for, none when blank.
pub open spec fn working_dir(o: Option<String>) -> Option<Seq<char>> {
    match o {
        Some(w) => if trim(w@).len() > 0 {
            Some(trim(w@))
        } else {
            None
        },
        None => None,
    }
}

/// A request to create a local project.
pub struct CreateLocalProjectRequest {
    pub name: String,
    /// Optional default working dir for sessions / workspaces created under
    /// this project. Empty string is treated as `None`.
    pub default_agent_working_dir: Option<String>,
}

impl CreateLocalProjectRequest {
    /// The trimmed name and working directory the project is created with;
    /// a blank name is refused, a blank directory counts as none.
    pub fn normalized(&self) -> (r: Result<(String, Option<String>), ApiError>)
        ensures
            trim(self.name@).len() == 0 ==> (r matches Err(ApiError::BadRequest(m)) && m@
                == "project name is required"@),
            trim(self.name@).len() > 0 ==> (r matches Ok((n, d)) && n@ == trim(self.name@)
                && crate::catalog::opt_text(d) == working_dir(self.default_agent_working_dir)),
    {
        let name = trim_str(self.name.as_str());
        if name.len() == 0 {
            return Err(ApiError::BadRequest(string_from("project name is required")));
        }
        let dir = match &self.default_agent_working_dir {
            Some(w) => {
                let t = trim_str(w.as_str());
                if t.len() > 0 {
                    Some(string_of(&t))
                } else {
                    None
                }
            },
            None => None,
        };
        Ok((string_of(&name), dir))
    }
}

} // verus!
