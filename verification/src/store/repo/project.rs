//! Projects: the rows of a project, and what is asked of the tables to make,
//! find, archive and delete one.
use vstd::prelude::*;

use crate::model::EntityType;
use crate::store::repo::tables::{
    Change, Entity, ListedProject, ProjectRow, Query, TransactionStep, WorkspaceRow,
};
use crate::store::statement::{Statement, StatementView};
use crate::store::Error;
use crate::text::texts;
use crate::time::{called, Timestamp, TimestampView};

verus! {

/// A project.
#[derive(Debug)]
pub struct Project {
    pub id: String,
    pub root: String,
    pub archived_at: Option<Timestamp>,
    pub created_at: Timestamp,
    pub updated_at: Timestamp,
}

/// What a [`Project`] holds.
#[verifier::ext_equal]
pub struct ProjectView {
    pub id: Seq<char>,
    pub root: Seq<char>,
    pub archived_at: Option<TimestampView>,
    pub created_at: TimestampView,
    pub updated_at: TimestampView,
}

/// The point in time, if there is one.
pub open spec fn moment(at: Option<Timestamp>) -> Option<TimestampView> {
    match at {
        Some(at) => Some(at@),
        None => None,
    }
}

impl View for Project {
    type V = ProjectView;

    open spec fn view(&self) -> ProjectView {
        ProjectView {
            id: self.id@,
            root: self.root@,
            archived_at: moment(self.archived_at),
            created_at: self.created_at@,
            updated_at: self.updated_at@,
        }
    }
}

impl ProjectView {
    /// The project as a row of the tables.
    pub open spec fn listed(self) -> ListedProject {
        ListedProject {
            id: self.id,
            row: ProjectRow {
                root: self.root,
                archived_at: match self.archived_at {
                    Some(at) => Some(at.text()),
                    None => None,
                },
                created_at: self.created_at.text(),
                updated_at: self.updated_at.text(),
            },
        }
    }
}

/// What identifies a row: its id, and when it was made and last changed.
#[derive(Debug)]
pub struct Identity {
    pub id: String,
    pub created_at: Timestamp,
    pub updated_at: Timestamp,
}

/// What an [`Identity`] holds.
#[verifier::ext_equal]
pub struct IdentityView {
    pub id: Seq<char>,
    pub created_at: TimestampView,
    pub updated_at: TimestampView,
}

impl View for Identity {
    type V = IdentityView;

    open spec fn view(&self) -> IdentityView {
        IdentityView {
            id: self.id@,
            created_at: self.created_at@,
            updated_at: self.updated_at@,
        }
    }
}

/// What `.gest/project.yaml` holds: what of a project travels with the
/// repository.
#[derive(Debug)]
pub struct ProjectFile {
    pub identity: Identity,
    pub deleted_at: Option<Timestamp>,
}

/// What a [`ProjectFile`] holds.
#[verifier::ext_equal]
pub struct ProjectFileView {
    pub identity: IdentityView,
    pub deleted_at: Option<TimestampView>,
}

impl View for ProjectFile {
    type V = ProjectFileView;

    open spec fn view(&self) -> ProjectFileView {
        ProjectFileView { identity: self.identity@, deleted_at: moment(self.deleted_at) }
    }
}

/// What the file of a project holds, if there is one.
pub open spec fn file_view(file: Option<ProjectFile>) -> Option<ProjectFileView> {
    match file {
        Some(file) => Some(file@),
        None => None,
    }
}

/// Another working directory of a project.
#[derive(Debug)]
pub struct ProjectWorkspace {
    pub id: String,
    pub project_id: String,
    pub path: String,
    pub created_at: Timestamp,
    pub updated_at: Timestamp,
}

impl ProjectWorkspace {
    /// The row of the workspace.
    pub open spec fn row(self) -> WorkspaceRow {
        WorkspaceRow {
            project_id: self.project_id@,
            path: self.path@,
            created_at: self.created_at@.text(),
            updated_at: self.updated_at@.text(),
        }
    }
}

/// A table whose rows belong to projects.
#[derive(Clone, Copy, Debug, PartialEq, Eq, Structural)]
pub enum Table {
    Artifacts,
    Iterations,
    Tasks,
}

impl Table {
    /// The name of the table.
    pub open spec fn ident(self) -> Seq<char> {
        match self {
            Table::Artifacts => "artifacts"@,
            Table::Iterations => "iterations"@,
            Table::Tasks => "tasks"@,
        }
    }

    /// The kind of the rows of the table.
    pub open spec fn kind(self) -> EntityType {
        match self {
            Table::Artifacts => EntityType::Artifact,
            Table::Iterations => EntityType::Iteration,
            Table::Tasks => EntityType::Task,
        }
    }

    /// The name of the table.
    pub fn as_sql_ident(self) -> (ident: &'static str)
        ensures
            ident@ == self.ident(),
    {
        match self {
            Table::Artifacts => "artifacts",
            Table::Iterations => "iterations",
            Table::Tasks => "tasks",
        }
    }
}

/// Asks for the projects, the newest first, with or without the archived
/// ones.
pub fn all(include_archived: bool) -> (statement: Statement)
    ensures
        statement@ == (Query::Projects { include_archived }).statement(),
{
    let sql = if include_archived {
        "SELECT id, root, archived_at, created_at, updated_at FROM projects ORDER BY created_at DESC"
    } else {
        "SELECT id, root, archived_at, created_at, updated_at FROM projects WHERE archived_at IS NULL ORDER BY created_at DESC"
    };
    Statement::new(sql, &[])
}

/// What archives a project, in order: in one transaction, it is marked as
/// archived at the given time, and its workspaces are detached.
pub open spec fn archive_plan(id: Seq<char>, now: TimestampView) -> Seq<TransactionStep> {
    seq![
        TransactionStep::Begin,
        TransactionStep::Make(Change::ArchiveProject { id, now: now.text() }),
        TransactionStep::Make(Change::DeleteWorkspacesOf { project_id: id }),
        TransactionStep::Commit,
    ]
}

/// Whether statements take the steps of a plan.
pub open spec fn take_steps(statements: Seq<Statement>, plan: Seq<TransactionStep>) -> bool {
    &&& statements.len() == plan.len()
    &&& forall|i: int| 0 <= i < plan.len() ==> (#[trigger] statements[i])@ == plan[i].statement()
}

/// Archives a project now.
pub fn archive(id: &str) -> (statements: [Statement; 4])
    ensures
        exists|now: TimestampView| take_steps(statements@, #[trigger] archive_plan(id@, now)),
        exists|now: Timestamp| #[trigger]
            call_ensures(Timestamp::now, (), now) && now@.is_read_off_the_clock() && take_steps(
                statements@,
                archive_plan(id@, now@),
            ),
{
    let now = called(Timestamp::now);
    archive_at(id, &now)
}

/// Archives a project: it is marked as archived at the given time, and its
/// workspaces are detached, both or neither. The statements are to be
/// executed in order; where one fails, [`rollback`] is executed in place of
/// those behind it.
pub fn archive_at(id: &str, now: &Timestamp) -> (statements: [Statement; 4])
    ensures
        take_steps(statements@, archive_plan(id@, now@)),
{
    let now = now.to_rfc3339();
    [begin(), mark_archived(id, now.as_str()), delete_workspaces_of(id), commit()]
}

/// Opens a transaction.
fn begin() -> (statement: Statement)
    ensures
        statement@ == TransactionStep::Begin.statement(),
{
    Statement::new("BEGIN", &[])
}

/// Stores what a transaction has changed.
fn commit() -> (statement: Statement)
    ensures
        statement@ == TransactionStep::Commit.statement(),
{
    Statement::new("COMMIT", &[])
}

/// Drops what a transaction has changed.
pub fn rollback() -> (statement: Statement)
    ensures
        statement@ == TransactionStep::Rollback.statement(),
{
    Statement::new("ROLLBACK", &[])
}

/// Marks a project as archived.
fn mark_archived(id: &str, now: &str) -> (statement: Statement)
    ensures
        statement@ == (Change::ArchiveProject { id: id@, now: now@ }).statement(),
{
    Statement::new("UPDATE projects SET archived_at = ?1, updated_at = ?1 WHERE id = ?2", &[now, id])
}

/// Detaches the workspaces of a project.
fn delete_workspaces_of(project_id: &str) -> (statement: Statement)
    ensures
        statement@ == (Change::DeleteWorkspacesOf { project_id: project_id@ }).statement(),
{
    Statement::new("DELETE FROM project_workspaces WHERE project_id = ?1", &[project_id])
}

/// Makes an archived project active again, now.
pub fn unarchive(id: &str) -> (statement: Statement)
    ensures
        exists|now: TimestampView| #[trigger] unarchived_at(id@, now) == statement@,
        exists|now: Timestamp| #[trigger]
            call_ensures(Timestamp::now, (), now) && now@.is_read_off_the_clock() && statement@
                == unarchived_at(id@, now@),
{
    let now = called(Timestamp::now);
    unarchive_at(id, &now)
}

/// What makes an archived project active again.
pub open spec fn unarchived_at(id: Seq<char>, now: TimestampView) -> StatementView {
    (Change::UnarchiveProject { id, now: now.text() }).statement()
}

/// Makes an archived project active again, at the given time.
pub fn unarchive_at(id: &str, now: &Timestamp) -> (statement: Statement)
    ensures
        statement@ == unarchived_at(id@, now@),
{
    let now = now.to_rfc3339();
    Statement::new(
        "UPDATE projects SET archived_at = NULL, updated_at = ?1 WHERE id = ?2",
        &[now.as_str(), id],
    )
}

/// Attaches a path to a project as a workspace with the given identity.
pub fn attach_workspace(identity: Identity, project_id: &str, path: &str) -> (res: (
    ProjectWorkspace,
    Statement,
))
    ensures
        res.0.id@ == identity@.id,
        res.0.project_id@ == project_id@,
        res.0.path@ == path@,
        res.0.created_at@ == identity@.created_at,
        res.0.updated_at@ == identity@.updated_at,
        res.1@ == (Change::InsertWorkspace { id: identity@.id, row: res.0.row() }).statement(),
{
    let workspace = ProjectWorkspace {
        id: identity.id,
        project_id: project_id.to_owned(),
        path: path.to_owned(),
        created_at: identity.created_at,
        updated_at: identity.updated_at,
    };
    let created_at = workspace.created_at.to_rfc3339();
    let updated_at = workspace.updated_at.to_rfc3339();
    let statement = Statement::new(
        "INSERT INTO project_workspaces (id, project_id, path, created_at, updated_at) VALUES (?1, ?2, ?3, ?4, ?5)",
        &[
            workspace.id.as_str(),
            workspace.project_id.as_str(),
            workspace.path.as_str(),
            created_at.as_str(),
            updated_at.as_str(),
        ],
    );
    (workspace, statement)
}

/// Detaches the workspaces at a path from their projects.
pub fn detach_workspace(path: &str) -> (statement: Statement)
    ensures
        statement@ == (Change::DeleteWorkspacesAt { path: path@ }).statement(),
{
    Statement::new("DELETE FROM project_workspaces WHERE path = ?1", &[path])
}

/// Whether anything was deleted, given how many rows were.
pub open spec fn any_deleted(affected: u64) -> bool {
    affected > 0
}

/// Whether a workspace was detached, given how many rows were deleted.
pub fn detached(affected: u64) -> (res: bool)
    ensures
        res == any_deleted(affected),
{
    affected > 0
}

/// Asks for the project with the given id.
pub fn find_by_id(id: &str) -> (statement: Statement)
    ensures
        statement@ == (Query::ProjectById { id: id@ }).statement(),
{
    Statement::new(
        "SELECT id, root, archived_at, created_at, updated_at FROM projects WHERE id = ?1",
        &[id],
    )
}

/// Asks for a project to which a path leads: by its root or by a workspace.
pub fn find_by_path(path: &str) -> (statement: Statement)
    ensures
        statement@ == (Query::ProjectByPath { path: path@ }).statement(),
{
    Statement::new(
        "SELECT DISTINCT p.id, p.root, p.archived_at, p.created_at, p.updated_at FROM projects p LEFT JOIN project_workspaces pw ON pw.project_id = p.id WHERE p.root = ?1 OR pw.path = ?1 LIMIT 1",
        &[path],
    )
}

/// Asks how many rows of a table belong to a project.
pub fn count_owned(table: Table, project_id: &str) -> (statement: Statement)
    ensures
        statement@ == (Query::CountOwned { table, project_id: project_id@ }).statement(),
{
    let sql = "SELECT COUNT(*) FROM ".to_owned().concat(table.as_sql_ident()).concat(
        " WHERE project_id = ?1",
    );
    Statement::new(sql.as_str(), &[project_id])
}

/// Asks how many workspaces a project has.
pub fn count_project_workspaces(project_id: &str) -> (statement: Statement)
    ensures
        statement@ == (Query::CountWorkspaces { project_id: project_id@ }).statement(),
{
    Statement::new("SELECT COUNT(*) FROM project_workspaces WHERE project_id = ?1", &[project_id])
}

/// The number in the answer to a count; 0 where there is no answer.
pub open spec fn count_of(answer: Option<i64>) -> usize {
    match answer {
        Some(count) => count as usize,
        None => 0,
    }
}

/// Reads the answer to a count.
pub fn counted(answer: Option<i64>) -> (count: usize)
    ensures
        count == count_of(answer),
        match answer {
            Some(n) => 0 <= n <= usize::MAX ==> count == n,
            None => count == 0,
        },
{
    match answer {
        Some(count) => count as usize,
        None => 0,
    }
}

/// How many entities and workspaces a project has.
#[derive(Clone, Copy, Debug, PartialEq, Eq, Structural)]
pub struct EntityCounts {
    pub artifacts: usize,
    pub iterations: usize,
    pub tasks: usize,
    pub workspaces: usize,
}

impl Default for EntityCounts {
    fn default() -> (counts: EntityCounts)
        ensures
            counts == (EntityCounts { artifacts: 0, iterations: 0, tasks: 0, workspaces: 0 }),
    {
        EntityCounts { artifacts: 0, iterations: 0, tasks: 0, workspaces: 0 }
    }
}

/// Asks how many artifacts, iterations, tasks and workspaces a project has,
/// in this order.
pub fn entity_counts(id: &str) -> (statements: [Statement; 4])
    ensures
        statements@[0]@ == (Query::CountOwned {
            table: Table::Artifacts,
            project_id: id@,
        }).statement(),
        statements@[1]@ == (Query::CountOwned {
            table: Table::Iterations,
            project_id: id@,
        }).statement(),
        statements@[2]@ == (Query::CountOwned {
            table: Table::Tasks,
            project_id: id@,
        }).statement(),
        statements@[3]@ == (Query::CountWorkspaces { project_id: id@ }).statement(),
{
    [
        count_owned(Table::Artifacts, id),
        count_owned(Table::Iterations, id),
        count_owned(Table::Tasks, id),
        count_project_workspaces(id),
    ]
}

impl EntityCounts {
    /// The counts in the answers to [`entity_counts`].
    pub fn read(answers: [Option<i64>; 4]) -> (counts: EntityCounts)
        ensures
            counts == (EntityCounts {
                artifacts: count_of(answers@[0]),
                iterations: count_of(answers@[1]),
                tasks: count_of(answers@[2]),
                workspaces: count_of(answers@[3]),
            }),
    {
        EntityCounts {
            artifacts: counted(answers[0]),
            iterations: counted(answers[1]),
            tasks: counted(answers[2]),
            workspaces: counted(answers[3]),
        }
    }
}

/// Whether `found` is the first of the candidates that is marked; there is
/// none if and only if none is marked.
pub open spec fn is_first_marked<D>(candidates: Seq<(D, bool)>, found: Option<D>) -> bool {
    match found {
        Some(dir) => exists|i: int|
            0 <= i < candidates.len() && #[trigger] candidates[i] == (dir, true) && (forall|j: int|
                0 <= j < i ==> !(#[trigger] candidates[j]).1),
        None => forall|i: int| 0 <= i < candidates.len() ==> !(#[trigger] candidates[i]).1,
    }
}

/// Picks the first of the candidates that is marked.
fn first_marked<D>(candidates: Vec<(D, bool)>) -> (found: Option<D>)
    ensures
        is_first_marked(candidates@, found),
{
    let ghost all = candidates@;
    let mut rest = candidates;
    let mut i: usize = 0;
    while i < rest.len() && !rest[i].1
        invariant
            i <= rest.len(),
            rest@ == all,
            forall|j: int| 0 <= j < i ==> !(#[trigger] all[j]).1,
        decreases rest.len() - i,
    {
        i += 1;
    }
    if i < rest.len() {
        let (dir, is_marked) = rest.swap_remove(i);
        assert(all[i as int] == (dir, true));
        Some(dir)
    } else {
        None
    }
}

/// Picks the `.gest` directory of a project among the candidates: that of
/// the directory where the search starts and those of its ancestors, the
/// nearest first, each with whether it is a directory.
pub fn find_gest_dir<D>(candidates: Vec<(D, bool)>) -> (found: Option<D>)
    ensures
        is_first_marked(candidates@, found),
{
    first_marked(candidates)
}

/// Picks the `.gest` directory whose `project.yaml` describes a project among
/// the candidates: that of the root of the project and those of its
/// ancestors, the nearest first, each with whether it holds the file.
pub fn find_project_file<D>(candidates: Vec<(D, bool)>) -> (found: Option<D>)
    ensures
        is_first_marked(candidates@, found),
{
    first_marked(candidates)
}

/// Where the `project.yaml` of a project is.
#[derive(Debug)]
pub enum Home<D> {
    /// It is in this directory.
    Stored(D),
    /// There is none; this is the directory where it is to be written.
    Empty(D),
    /// There is none, and no directory for it.
    Nowhere,
}

/// Picks the `.gest` directory of a project that is to be made: the nearest
/// that holds a `project.yaml`, else the nearest that there is. The
/// candidates are those of the root of the project and of its ancestors, the
/// nearest first, with whether each holds the file, and whether each is a
/// directory.
pub fn find_home<D>(files: Vec<(D, bool)>, dirs: Vec<(D, bool)>) -> (home: Home<D>)
    ensures
        match home {
            Home::Stored(dir) => is_first_marked(files@, Some(dir)),
            Home::Empty(dir) => is_first_marked(files@, None) && is_first_marked(dirs@, Some(dir)),
            Home::Nowhere => is_first_marked(files@, None) && is_first_marked(dirs@, None),
        },
{
    match find_project_file(files) {
        Some(dir) => Home::Stored(dir),
        None => match find_gest_dir(dirs) {
            Some(dir) => Home::Empty(dir),
            None => Home::Nowhere,
        },
    }
}

/// A project that is to be made.
#[derive(Debug)]
pub struct Creation {
    identity: Identity,
    root: String,
}

/// What a [`Creation`] holds.
#[verifier::ext_equal]
pub struct CreationView {
    pub identity: IdentityView,
    pub root: Seq<char>,
}

impl View for Creation {
    type V = CreationView;

    closed spec fn view(&self) -> CreationView {
        CreationView { identity: self.identity@, root: self.root@ }
    }
}

impl CreationView {
    /// The row of the project.
    pub open spec fn insertion(self) -> Change {
        Change::InsertProject {
            id: self.identity.id,
            root: self.root,
            created_at: self.identity.created_at.text(),
            updated_at: self.identity.updated_at.text(),
        }
    }
}

/// The identity of a project that is to be made: the stored one where there
/// is one, else the fresh one.
pub open spec fn identity_for(
    stored: Option<ProjectFileView>,
    fresh: IdentityView,
) -> IdentityView {
    match stored {
        Some(file) => file.identity,
        None => fresh,
    }
}

/// Makes a project for a root directory. Where a `.gest/project.yaml` was
/// found at the root or above it, by [`find_home`], the project has the
/// identity stored there, which all checkouts share; else it has the fresh
/// one.
pub fn create(root: &str, stored: Option<ProjectFile>, fresh: Identity) -> (creation: Creation)
    ensures
        creation@ == (CreationView {
            identity: identity_for(file_view(stored), fresh@),
            root: root@,
        }),
{
    let identity = match stored {
        Some(file) => file.identity,
        None => fresh,
    };
    Creation { identity, root: root.to_owned() }
}

impl Creation {
    /// Inserts the row of the project.
    pub fn insert(&self) -> (statement: Statement)
        ensures
            statement@ == self@.insertion().statement(),
    {
        let created_at = self.identity.created_at.to_rfc3339();
        let updated_at = self.identity.updated_at.to_rfc3339();
        Statement::new(
            "INSERT INTO projects (id, root, created_at, updated_at) VALUES (?1, ?2, ?3, ?4)",
            &[
                self.identity.id.as_str(),
                self.root.as_str(),
                created_at.as_str(),
                updated_at.as_str(),
            ],
        )
    }

    /// The id of the project, by which it is then looked up.
    pub fn id(&self) -> (id: &String)
        ensures
            id@ == self@.identity.id,
    {
        &self.identity.id
    }

    /// Takes the project as it was found after the insertion. Where the
    /// project has a `.gest` directory, its `project.yaml` is to be written
    /// with what is returned beside the project.
    pub fn created(self, found: Option<Project>, has_gest_dir: bool) -> (res: Result<
        (Project, Option<ProjectFile>),
        Error,
    >)
        ensures
            match res {
                Ok((project, file)) => found == Some(project) && file_view(file)
                    == if has_gest_dir {
                    Some(written(project@))
                } else {
                    None
                },
                Err(error) => found is None && (error matches Error::InvalidValue(reason)
                    && reason@ == "project not found after insert"@),
            },
    {
        let project = match found {
            Some(project) => project,
            None => {
                return Err(Error::InvalidValue("project not found after insert".to_owned()));
            },
        };
        let file = if has_gest_dir {
            Some(project_file(&project))
        } else {
            None
        };
        Ok((project, file))
    }
}

/// The `project.yaml` of a project.
pub open spec fn written(project: ProjectView) -> ProjectFileView {
    ProjectFileView {
        identity: IdentityView {
            id: project.id,
            created_at: project.created_at,
            updated_at: project.updated_at,
        },
        deleted_at: None,
    }
}

/// The `project.yaml` of a project.
pub fn project_file(project: &Project) -> (file: ProjectFile)
    ensures
        file@ == written(project@),
{
    ProjectFile {
        identity: Identity {
            id: project.id.clone(),
            created_at: project.created_at.clone(),
            updated_at: project.updated_at.clone(),
        },
        deleted_at: None,
    }
}

/// The id of the project that a `.gest/project.yaml` describes; `None` where
/// there is no such file, or the project was deleted.
pub open spec fn synced_id(stored: Option<ProjectFileView>) -> Option<Seq<char>> {
    match stored {
        Some(file) if file.deleted_at is None => Some(file.identity.id),
        _ => None,
    }
}

/// Looks for the project that a `.gest/project.yaml` describes, given what
/// the file holds, if there is one. The id to look up is returned; there is
/// none where the directory is no synced project, or one that was deleted.
pub fn find_or_create_from_synced_project(stored: &Option<ProjectFile>) -> (lookup: Option<&String>)
    ensures
        match lookup {
            Some(id) => synced_id(file_view(*stored)) == Some(id@),
            None => synced_id(file_view(*stored)) is None,
        },
{
    match stored {
        Some(file) => if file.deleted_at.is_some() {
            None
        } else {
            Some(&file.identity.id)
        },
        None => None,
    }
}

/// Makes the project that a `.gest/project.yaml` describes, for a root
/// directory.
pub fn synced_creation(root: &str, file: ProjectFile) -> (creation: Creation)
    ensures
        creation@ == (CreationView { identity: file@.identity, root: root@ }),
{
    Creation { identity: file.identity, root: root.to_owned() }
}

/// The project that a `.gest/project.yaml` describes.
#[derive(Debug)]
pub enum SyncedProject {
    /// The store has it.
    Found(Project),
    /// It is to be made.
    Create(Creation),
}

/// Takes the project that was looked up for a `.gest/project.yaml`. Where
/// the store has none, it is made for the root directory as the file
/// describes it.
pub fn synced_project(found: Option<Project>, root: &str, file: ProjectFile) -> (project:
    SyncedProject)
    ensures
        match project {
            SyncedProject::Found(known) => found == Some(known),
            SyncedProject::Create(creation) => found is None && creation@ == (CreationView {
                identity: file@.identity,
                root: root@,
            }),
        },
{
    match found {
        Some(known) => SyncedProject::Found(known),
        None => SyncedProject::Create(synced_creation(root, file)),
    }
}

/// The kinds of files that mirror entities: the directory of each, relative
/// to `.gest`.
#[derive(Debug)]
pub struct SyncDirs {
    pub artifact: String,
    pub iteration: String,
    pub task: String,
}

/// The tasks, iterations and artifacts of a project, by id.
#[derive(Debug)]
pub struct OwnedIds {
    pub artifacts: Vec<String>,
    pub iterations: Vec<String>,
    pub tasks: Vec<String>,
}

/// Asks for the ids of the rows of a table that belong to a project.
pub fn collect_entity_ids(table: Table, project_id: &str) -> (statement: Statement)
    ensures
        statement@ == (Query::IdsOwned { table, project_id: project_id@ }).statement(),
{
    let sql = "SELECT id FROM ".to_owned().concat(table.as_sql_ident()).concat(
        " WHERE project_id = ?1",
    );
    Statement::new(sql.as_str(), &[project_id])
}

/// Asks for the ids of the tasks, iterations and artifacts of a project, in
/// this order.
pub fn owned_ids(project_id: &str) -> (statements: [Statement; 3])
    ensures
        statements@[0]@ == (Query::IdsOwned {
            table: Table::Tasks,
            project_id: project_id@,
        }).statement(),
        statements@[1]@ == (Query::IdsOwned {
            table: Table::Iterations,
            project_id: project_id@,
        }).statement(),
        statements@[2]@ == (Query::IdsOwned {
            table: Table::Artifacts,
            project_id: project_id@,
        }).statement(),
{
    [
        collect_entity_ids(Table::Tasks, project_id),
        collect_entity_ids(Table::Iterations, project_id),
        collect_entity_ids(Table::Artifacts, project_id),
    ]
}

/// Takes the id of a row, or why its text is no id.
pub fn collected(parsed: Result<String, String>) -> (id: Result<String, Error>)
    ensures
        match parsed {
            Ok(text) => id == Ok::<String, Error>(text),
            Err(reason) => id == Err::<String, Error>(Error::InvalidValue(reason)),
        },
{
    match parsed {
        Ok(text) => Ok(text),
        Err(reason) => Err(Error::InvalidValue(reason)),
    }
}

/// Forgets the digest of a mirrored file, so that the next export does not
/// pass it over.
pub fn invalidate_sync_digest(project_id: &str, relative: &str) -> (statement: Statement)
    ensures
        statement@ == (Change::DeleteDigest {
            path: relative@,
            project_id: project_id@,
        }).statement(),
{
    Statement::new(
        "DELETE FROM sync_digests WHERE relative_path = ?1 AND project_id = ?2",
        &[relative, project_id],
    )
}

/// How many rows hung on an entity that was deleted.
#[derive(Clone, Copy, Debug, PartialEq, Eq, Structural)]
pub struct CascadeReport {
    pub notes: usize,
    pub relationships: usize,
    pub tags: usize,
}

/// How many rows of each kind a deletion removes.
#[derive(Clone, Copy, Debug, PartialEq, Eq, Structural)]
pub struct DeleteSummary {
    pub artifacts: usize,
    pub iterations: usize,
    pub notes: usize,
    pub relationships: usize,
    pub tags: usize,
    pub tasks: usize,
}

impl Default for DeleteSummary {
    fn default() -> (summary: DeleteSummary)
        ensures
            summary == (DeleteSummary {
                artifacts: 0,
                iterations: 0,
                notes: 0,
                relationships: 0,
                tags: 0,
                tasks: 0,
            }),
    {
        DeleteSummary { artifacts: 0, iterations: 0, notes: 0, relationships: 0, tags: 0, tasks: 0 }
    }
}

impl DeleteSummary {
    /// Adds the rows that hung on one entity.
    pub fn count(&mut self, report: &CascadeReport)
        requires
            old(self).notes + report.notes <= usize::MAX,
            old(self).relationships + report.relationships <= usize::MAX,
            old(self).tags + report.tags <= usize::MAX,
        ensures
            *final(self) == (DeleteSummary {
                notes: (old(self).notes + report.notes) as usize,
                relationships: (old(self).relationships + report.relationships) as usize,
                tags: (old(self).tags + report.tags) as usize,
                ..*old(self)
            }),
    {
        self.notes += report.notes;
        self.relationships += report.relationships;
        self.tags += report.tags;
    }
}

/// A step in the deletion of a project.
#[derive(Debug)]
pub enum DeleteStep {
    /// Executes a statement.
    Execute(Statement),
    /// Deletes an entity and the rows that hang on it, under the given
    /// transaction.
    Cascade { transaction_id: String, kind: EntityType, id: String },
    /// Marks the file of an entity as deleted.
    Tombstone { kind: EntityType, id: String },
    /// Marks the file of the project as deleted.
    TombstoneProject,
}

/// A step in the deletion of a project, with the change that a statement
/// asks for.
#[verifier::ext_equal]
pub enum Planned {
    Execute(Change),
    Cascade { transaction_id: Seq<char>, entity: Entity },
    Tombstone(Entity),
    TombstoneProject,
}

impl DeleteStep {
    /// Whether the step is as planned.
    pub open spec fn carries_out(self, planned: Planned) -> bool {
        match (self, planned) {
            (DeleteStep::Execute(statement), Planned::Execute(change)) => statement@
                == change.statement(),
            (
                DeleteStep::Cascade { transaction_id, kind, id },
                Planned::Cascade { transaction_id: transaction, entity },
            ) => transaction_id@ == transaction && entity == (Entity { kind, id: id@ }),
            (DeleteStep::Tombstone { kind, id }, Planned::Tombstone(entity)) => entity == (Entity {
                kind,
                id: id@,
            }),
            (DeleteStep::TombstoneProject, Planned::TombstoneProject) => true,
            _ => false,
        }
    }
}

/// Whether the steps are as planned.
pub open spec fn carry_out(steps: Seq<DeleteStep>, plan: Seq<Planned>) -> bool {
    &&& steps.len() == plan.len()
    &&& forall|i: int|
        0 <= i < steps.len() ==> (#[trigger] steps[i]).carries_out(plan[i])
}

/// What deleting the entities of one kind takes, in order.
pub open spec fn entity_plan(deletion: DeletionView, kind: EntityType) -> Seq<Planned> {
    entity_steps(deletion, kind, deletion.owned(kind))
}

/// What deleting the given entities of one kind takes, in order.
pub open spec fn entity_steps(
    deletion: DeletionView,
    kind: EntityType,
    ids: Seq<Seq<char>>,
) -> Seq<Planned>
    decreases ids.len(),
{
    if ids.len() == 0 {
        Seq::empty()
    } else {
        let entity = Entity { kind, id: ids.last() };
        entity_steps(deletion, kind, ids.drop_last()) + deletion.steps_for(entity)
    }
}

/// A deletion: of which project, which entities it has, the id of the
/// transaction under which they go, when they do, and where their files are.
#[verifier::ext_equal]
pub struct DeletionView {
    pub project_id: Seq<char>,
    pub artifacts: Seq<Seq<char>>,
    pub iterations: Seq<Seq<char>>,
    pub tasks: Seq<Seq<char>>,
    pub transaction_id: Seq<char>,
    pub deleted_at: TimestampView,
    pub artifact_dir: Seq<char>,
    pub iteration_dir: Seq<char>,
    pub task_dir: Seq<char>,
}

impl DeletionView {
    /// The entities of one kind.
    pub open spec fn owned(self, kind: EntityType) -> Seq<Seq<char>> {
        match kind {
            EntityType::Artifact => self.artifacts,
            EntityType::Iteration => self.iterations,
            EntityType::Task => self.tasks,
        }
    }

    /// The file that mirrors an entity.
    pub open spec fn file(self, entity: Entity) -> Seq<char> {
        match entity.kind {
            EntityType::Artifact => self.artifact_dir + "/"@ + entity.id + ".md"@,
            EntityType::Iteration => self.iteration_dir + "/"@ + entity.id + ".yaml"@,
            EntityType::Task => self.task_dir + "/"@ + entity.id + ".yaml"@,
        }
    }

    /// The transaction under which entities are deleted.
    pub open spec fn opening(self) -> Change {
        Change::InsertTransaction {
            id: self.transaction_id,
            project_id: self.project_id,
            command: "project delete"@,
            created_at: self.deleted_at.text(),
        }
    }

    /// What deleting an entity takes, in order.
    pub open spec fn steps_for(self, entity: Entity) -> Seq<Planned> {
        seq![
            Planned::Cascade { transaction_id: self.transaction_id, entity },
            Planned::Tombstone(entity),
            Planned::Execute(
                Change::DeleteDigest { path: self.file(entity), project_id: self.project_id },
            ),
        ]
    }

    /// What deleting the project takes once its entities are, in order.
    pub open spec fn closing(self) -> Seq<Planned> {
        seq![
            Planned::TombstoneProject,
            Planned::Execute(Change::DeleteEventsOf { project_id: self.project_id }),
            Planned::Execute(Change::DeleteTransactionsOf { project_id: self.project_id }),
            Planned::Execute(Change::DeleteWorkspacesOf { project_id: self.project_id }),
            Planned::Execute(Change::DeleteProject { id: self.project_id }),
        ]
    }

    /// What the deletion takes, in order.
    pub open spec fn plan(self) -> Seq<Planned> {
        seq![Planned::Execute(self.opening())] + entity_plan(self, EntityType::Task) + entity_plan(
            self,
            EntityType::Iteration,
        ) + entity_plan(self, EntityType::Artifact) + self.closing()
    }
}

/// Two runs of steps that are as planned are so one behind the other.
proof fn lemma_carry_out_both(
    a: Seq<DeleteStep>,
    plan_a: Seq<Planned>,
    b: Seq<DeleteStep>,
    plan_b: Seq<Planned>,
)
    requires
        carry_out(a, plan_a),
        carry_out(b, plan_b),
    ensures
        carry_out(a + b, plan_a + plan_b),
{
    assert forall|i: int| 0 <= i < (a + b).len() implies (#[trigger] (a + b)[i]).carries_out(
        (plan_a + plan_b)[i],
    ) by {
        if i < a.len() {
            assert(a[i].carries_out(plan_a[i]));
        } else {
            assert(b[i - a.len()].carries_out(plan_b[i - a.len()]));
        }
    }
}

/// Writes the name of the file that mirrors an entity.
fn mirror(dir: &str, id: &str, extension: &str) -> (path: String)
    ensures
        path@ == dir@ + "/"@ + id@ + extension@,
{
    dir.to_owned().concat("/").concat(id).concat(extension)
}

/// What deleting the entities of one kind takes, in order.
fn entity_delete_steps(
    kind: EntityType,
    ids: &Vec<String>,
    dir: &str,
    extension: &str,
    project_id: &str,
    transaction_id: &str,
    Ghost(deletion): Ghost<DeletionView>,
) -> (steps: Vec<DeleteStep>)
    requires
        texts(ids@) == deletion.owned(kind),
        project_id@ == deletion.project_id,
        transaction_id@ == deletion.transaction_id,
        forall|id: Seq<char>|
            #[trigger] deletion.file(Entity { kind, id }) == dir@ + "/"@ + id + extension@,
    ensures
        carry_out(steps@, entity_plan(deletion, kind)),
{
    let ghost all = texts(ids@);
    let mut steps: Vec<DeleteStep> = Vec::new();
    let mut i: usize = 0;
    assert(all.take(0) =~= Seq::<Seq<char>>::empty());
    while i < ids.len()
        invariant
            i <= ids.len(),
            all == texts(ids@),
            project_id@ == deletion.project_id,
            transaction_id@ == deletion.transaction_id,
            forall|id: Seq<char>|
                #[trigger] deletion.file(Entity { kind, id }) == dir@ + "/"@ + id + extension@,
            carry_out(steps@, entity_steps(deletion, kind, all.take(i as int))),
        decreases ids.len() - i,
    {
        let id = &ids[i];
        let path = mirror(dir, id.as_str(), extension);
        let mut more: Vec<DeleteStep> = Vec::new();
        more.push(
            DeleteStep::Cascade {
                transaction_id: transaction_id.to_owned(),
                kind,
                id: id.clone(),
            },
        );
        more.push(DeleteStep::Tombstone { kind, id: id.clone() });
        more.push(DeleteStep::Execute(invalidate_sync_digest(project_id, path.as_str())));
        proof {
            let before = all.take(i as int);
            let next = all.take(i + 1);
            assert(next.drop_last() =~= before);
            assert(next.last() == id@);
            let entity = Entity { kind, id: id@ };
            assert(deletion.file(entity) == path@);
            let planned = deletion.steps_for(entity);
            assert(carry_out(more@, planned));
            lemma_carry_out_both(steps@, entity_steps(deletion, kind, before), more@, planned);
        }
        steps.append(&mut more);
        i += 1;
    }
    assert(all.take(ids.len() as int) =~= all);
    steps
}

/// Inserts a transaction of a project.
fn insert_transaction(id: &str, project_id: &str, command: &str, created_at: &str) -> (statement:
    Statement)
    ensures
        statement@ == (Change::InsertTransaction {
            id: id@,
            project_id: project_id@,
            command: command@,
            created_at: created_at@,
        }).statement(),
{
    Statement::new(
        "INSERT INTO transactions (id, project_id, command, created_at) VALUES (?1, ?2, ?3, ?4)",
        &[id, project_id, command, created_at],
    )
}

/// Deletes the events of the transactions of a project.
fn delete_events_of(project_id: &str) -> (statement: Statement)
    ensures
        statement@ == (Change::DeleteEventsOf { project_id: project_id@ }).statement(),
{
    Statement::new(
        "DELETE FROM transaction_events WHERE transaction_id IN (SELECT id FROM transactions WHERE project_id = ?1)",
        &[project_id],
    )
}

/// Deletes the transactions of a project.
fn delete_transactions_of(project_id: &str) -> (statement: Statement)
    ensures
        statement@ == (Change::DeleteTransactionsOf { project_id: project_id@ }).statement(),
{
    Statement::new("DELETE FROM transactions WHERE project_id = ?1", &[project_id])
}

/// Deletes the row of a project.
fn delete_project(id: &str) -> (statement: Statement)
    ensures
        statement@ == (Change::DeleteProject { id: id@ }).statement(),
{
    Statement::new("DELETE FROM projects WHERE id = ?1", &[id])
}

/// Plans the deletion of a project and of every entity that it owns. The
/// steps are to be taken in order; the first that fails ends the deletion.
/// They stand in no transaction of the database: files that are marked as
/// deleted in between cannot be unmarked by rolling back, and deleting an
/// entity may take a transaction of its own, which cannot stand in another.
/// The summary counts the entities; the rows that hang on them are added to
/// it as they are deleted.
pub fn delete(
    id: &str,
    owned: &OwnedIds,
    transaction_id: &str,
    deleted_at: &Timestamp,
    dirs: &SyncDirs,
) -> (res: (Vec<DeleteStep>, DeleteSummary))
    ensures
        carry_out(
            res.0@,
            (DeletionView {
                project_id: id@,
                artifacts: texts(owned.artifacts@),
                iterations: texts(owned.iterations@),
                tasks: texts(owned.tasks@),
                transaction_id: transaction_id@,
                deleted_at: deleted_at@,
                artifact_dir: dirs.artifact@,
                iteration_dir: dirs.iteration@,
                task_dir: dirs.task@,
            }).plan(),
        ),
        res.1 == (DeleteSummary {
            artifacts: owned.artifacts.len(),
            iterations: owned.iterations.len(),
            notes: 0,
            relationships: 0,
            tags: 0,
            tasks: owned.tasks.len(),
        }),
{
    let ghost deletion = DeletionView {
        project_id: id@,
        artifacts: texts(owned.artifacts@),
        iterations: texts(owned.iterations@),
        tasks: texts(owned.tasks@),
        transaction_id: transaction_id@,
        deleted_at: deleted_at@,
        artifact_dir: dirs.artifact@,
        iteration_dir: dirs.iteration@,
        task_dir: dirs.task@,
    };
    let now = deleted_at.to_rfc3339();
    let mut steps: Vec<DeleteStep> = Vec::new();
    steps.push(
        DeleteStep::Execute(
            insert_transaction(transaction_id, id, "project delete", now.as_str()),
        ),
    );
    let ghost opening = seq![Planned::Execute(deletion.opening())];
    assert(carry_out(steps@, opening));
    let mut tasks = entity_delete_steps(
        EntityType::Task,
        &owned.tasks,
        dirs.task.as_str(),
        ".yaml",
        id,
        transaction_id,
        Ghost(deletion),
    );
    let mut iterations = entity_delete_steps(
        EntityType::Iteration,
        &owned.iterations,
        dirs.iteration.as_str(),
        ".yaml",
        id,
        transaction_id,
        Ghost(deletion),
    );
    let mut artifacts = entity_delete_steps(
        EntityType::Artifact,
        &owned.artifacts,
        dirs.artifact.as_str(),
        ".md",
        id,
        transaction_id,
        Ghost(deletion),
    );
    let mut closing: Vec<DeleteStep> = Vec::new();
    closing.push(DeleteStep::TombstoneProject);
    closing.push(DeleteStep::Execute(delete_events_of(id)));
    closing.push(DeleteStep::Execute(delete_transactions_of(id)));
    closing.push(DeleteStep::Execute(delete_workspaces_of(id)));
    closing.push(DeleteStep::Execute(delete_project(id)));
    proof {
        let a = entity_plan(deletion, EntityType::Task);
        let b = entity_plan(deletion, EntityType::Iteration);
        let c = entity_plan(deletion, EntityType::Artifact);
        let last = deletion.closing();
        assert(carry_out(closing@, last));
        lemma_carry_out_both(steps@, opening, tasks@, a);
        lemma_carry_out_both(steps@ + tasks@, opening + a, iterations@, b);
        lemma_carry_out_both(steps@ + tasks@ + iterations@, opening + a + b, artifacts@, c);
        lemma_carry_out_both(
            steps@ + tasks@ + iterations@ + artifacts@,
            opening + a + b + c,
            closing@,
            last,
        );
    }
    steps.append(&mut tasks);
    steps.append(&mut iterations);
    steps.append(&mut artifacts);
    steps.append(&mut closing);
    let summary = DeleteSummary {
        artifacts: owned.artifacts.len(),
        iterations: owned.iterations.len(),
        notes: 0,
        relationships: 0,
        tags: 0,
        tasks: owned.tasks.len(),
    };
    (steps, summary)
}

} // verus!
