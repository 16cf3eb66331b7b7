//! The tables of the store as far as a project reaches, and what the changes
//! that are asked for do to them.
use vstd::prelude::*;

use crate::model::EntityType;
use crate::store::repo::project::Table;
use crate::store::statement::StatementView;
use crate::text::text_less;

verus! {

/// A row of `projects`.
#[verifier::ext_equal]
pub struct ProjectRow {
    pub root: Seq<char>,
    pub archived_at: Option<Seq<char>>,
    pub created_at: Seq<char>,
    pub updated_at: Seq<char>,
}

/// A row of `project_workspaces`.
#[verifier::ext_equal]
pub struct WorkspaceRow {
    pub project_id: Seq<char>,
    pub path: Seq<char>,
    pub created_at: Seq<char>,
    pub updated_at: Seq<char>,
}

/// A task, an iteration or an artifact, by its kind and id.
#[verifier::ext_equal]
pub struct Entity {
    pub kind: EntityType,
    pub id: Seq<char>,
}

/// A row that hangs on entities: a note, a tag, a relationship, or the place
/// of a task in an iteration.
#[verifier::ext_equal]
pub struct ChildRow {
    pub key: Seq<char>,
    pub ends: Set<Entity>,
}

/// The entry of a file in the digest cache of a project.
#[verifier::ext_equal]
pub struct Digest {
    pub path: Seq<char>,
    pub project_id: Seq<char>,
}

/// The tables. Rows are found by their ids; `entities` and `transactions`
/// map to the project that a row belongs to, `events` to the transaction.
#[verifier::ext_equal]
pub struct Tables {
    pub projects: Map<Seq<char>, ProjectRow>,
    pub workspaces: Map<Seq<char>, WorkspaceRow>,
    pub entities: Map<Entity, Seq<char>>,
    pub children: Set<ChildRow>,
    pub transactions: Map<Seq<char>, Seq<char>>,
    pub events: Map<Seq<char>, Seq<char>>,
    pub digests: Set<Digest>,
}

/// A change to the tables.
#[verifier::ext_equal]
pub enum Change {
    InsertProject {
        id: Seq<char>,
        root: Seq<char>,
        created_at: Seq<char>,
        updated_at: Seq<char>,
    },
    ArchiveProject { id: Seq<char>, now: Seq<char> },
    UnarchiveProject { id: Seq<char>, now: Seq<char> },
    DeleteProject { id: Seq<char> },
    InsertWorkspace { id: Seq<char>, row: WorkspaceRow },
    DeleteWorkspacesOf { project_id: Seq<char> },
    DeleteWorkspacesAt { path: Seq<char> },
    InsertTransaction {
        id: Seq<char>,
        project_id: Seq<char>,
        command: Seq<char>,
        created_at: Seq<char>,
    },
    DeleteEventsOf { project_id: Seq<char> },
    DeleteTransactionsOf { project_id: Seq<char> },
    DeleteDigest { path: Seq<char>, project_id: Seq<char> },
}

impl Change {
    /// The statement that asks for the change.
    pub open spec fn statement(self) -> StatementView {
        match self {
            Change::InsertProject { id, root, created_at, updated_at } => StatementView {
                sql: "INSERT INTO projects (id, root, created_at, updated_at) VALUES (?1, ?2, ?3, ?4)"@,
                params: seq![id, root, created_at, updated_at],
            },
            Change::ArchiveProject { id, now } => StatementView {
                sql: "UPDATE projects SET archived_at = ?1, updated_at = ?1 WHERE id = ?2"@,
                params: seq![now, id],
            },
            Change::UnarchiveProject { id, now } => StatementView {
                sql: "UPDATE projects SET archived_at = NULL, updated_at = ?1 WHERE id = ?2"@,
                params: seq![now, id],
            },
            Change::DeleteProject { id } => StatementView {
                sql: "DELETE FROM projects WHERE id = ?1"@,
                params: seq![id],
            },
            Change::InsertWorkspace { id, row } => StatementView {
                sql: "INSERT INTO project_workspaces (id, project_id, path, created_at, updated_at) VALUES (?1, ?2, ?3, ?4, ?5)"@,
                params: seq![id, row.project_id, row.path, row.created_at, row.updated_at],
            },
            Change::DeleteWorkspacesOf { project_id } => StatementView {
                sql: "DELETE FROM project_workspaces WHERE project_id = ?1"@,
                params: seq![project_id],
            },
            Change::DeleteWorkspacesAt { path } => StatementView {
                sql: "DELETE FROM project_workspaces WHERE path = ?1"@,
                params: seq![path],
            },
            Change::InsertTransaction { id, project_id, command, created_at } => StatementView {
                sql: "INSERT INTO transactions (id, project_id, command, created_at) VALUES (?1, ?2, ?3, ?4)"@,
                params: seq![id, project_id, command, created_at],
            },
            Change::DeleteEventsOf { project_id } => StatementView {
                sql: "DELETE FROM transaction_events WHERE transaction_id IN (SELECT id FROM transactions WHERE project_id = ?1)"@,
                params: seq![project_id],
            },
            Change::DeleteTransactionsOf { project_id } => StatementView {
                sql: "DELETE FROM transactions WHERE project_id = ?1"@,
                params: seq![project_id],
            },
            Change::DeleteDigest { path, project_id } => StatementView {
                sql: "DELETE FROM sync_digests WHERE relative_path = ?1 AND project_id = ?2"@,
                params: seq![path, project_id],
            },
        }
    }

    /// The tables after the change, where the database makes it. Deleting a
    /// project takes the entries of its digest cache with it.
    pub open spec fn applied(self, tables: Tables) -> Tables {
        match self {
            Change::InsertProject { id, root, created_at, updated_at } => Tables {
                projects: tables.projects.insert(
                    id,
                    ProjectRow { root, archived_at: None, created_at, updated_at },
                ),
                ..tables
            },
            Change::ArchiveProject { id, now } => if tables.projects.contains_key(id) {
                Tables {
                    projects: tables.projects.insert(
                        id,
                        ProjectRow {
                            archived_at: Some(now),
                            updated_at: now,
                            ..tables.projects[id]
                        },
                    ),
                    ..tables
                }
            } else {
                tables
            },
            Change::UnarchiveProject { id, now } => if tables.projects.contains_key(id) {
                Tables {
                    projects: tables.projects.insert(
                        id,
                        ProjectRow { archived_at: None, updated_at: now, ..tables.projects[id] },
                    ),
                    ..tables
                }
            } else {
                tables
            },
            Change::DeleteProject { id } => Tables {
                projects: tables.projects.remove(id),
                digests: tables.digests.filter(|digest: Digest| digest.project_id != id),
                ..tables
            },
            Change::InsertWorkspace { id, row } => Tables {
                workspaces: tables.workspaces.insert(id, row),
                ..tables
            },
            Change::DeleteWorkspacesOf { project_id } => Tables {
                workspaces: Map::new(
                    |id: Seq<char>|
                        tables.workspaces.contains_key(id) && tables.workspaces[id].project_id
                            != project_id,
                    |id: Seq<char>| tables.workspaces[id],
                ),
                ..tables
            },
            Change::DeleteWorkspacesAt { path } => Tables {
                workspaces: Map::new(
                    |id: Seq<char>|
                        tables.workspaces.contains_key(id) && tables.workspaces[id].path != path,
                    |id: Seq<char>| tables.workspaces[id],
                ),
                ..tables
            },
            Change::InsertTransaction { id, project_id, command, created_at } => Tables {
                transactions: tables.transactions.insert(id, project_id),
                ..tables
            },
            Change::DeleteEventsOf { project_id } => Tables {
                events: Map::new(
                    |id: Seq<char>|
                        tables.events.contains_key(id) && !(tables.transactions.contains_key(
                            tables.events[id],
                        ) && tables.transactions[tables.events[id]] == project_id),
                    |id: Seq<char>| tables.events[id],
                ),
                ..tables
            },
            Change::DeleteTransactionsOf { project_id } => Tables {
                transactions: Map::new(
                    |id: Seq<char>|
                        tables.transactions.contains_key(id) && tables.transactions[id]
                            != project_id,
                    |id: Seq<char>| tables.transactions[id],
                ),
                ..tables
            },
            Change::DeleteDigest { path, project_id } => Tables {
                digests: tables.digests.remove(Digest { path, project_id }),
                ..tables
            },
        }
    }
}

impl Tables {
    /// The tables after all the changes, in order.
    pub open spec fn after(self, changes: Seq<Change>) -> Tables
        decreases changes.len(),
    {
        if changes.len() == 0 {
            self
        } else {
            changes.last().applied(self.after(changes.drop_last()))
        }
    }

    /// Whether a list of projects shows this one.
    pub open spec fn lists(self, id: Seq<char>, include_archived: bool) -> bool {
        self.projects.contains_key(id) && (include_archived || self.projects[id].archived_at
            is None)
    }

    /// Whether a path leads to a project: it is the root of the project, or
    /// that of a workspace attached to it.
    pub open spec fn leads_to(self, path: Seq<char>, id: Seq<char>) -> bool {
        self.projects.contains_key(id) && (self.projects[id].root == path || exists|w: Seq<char>|
            #[trigger] self.workspaces.contains_key(w) && self.workspaces[w].project_id == id
                && self.workspaces[w].path == path)
    }

    /// Whether an entity belongs to a project.
    pub open spec fn owns(self, id: Seq<char>, entity: Entity) -> bool {
        self.entities.contains_key(entity) && self.entities[entity] == id
    }

    /// The entities of one kind that belong to a project.
    pub open spec fn owned(self, kind: EntityType, id: Seq<char>) -> Set<Seq<char>> {
        Set::new(|e: Seq<char>| self.owns(id, Entity { kind, id: e }))
    }

    /// The workspaces of a project.
    pub open spec fn workspaces_of(self, id: Seq<char>) -> Set<Seq<char>> {
        Set::new(
            |w: Seq<char>| self.workspaces.contains_key(w) && self.workspaces[w].project_id == id,
        )
    }

    /// The workspaces at a path.
    pub open spec fn workspaces_at(self, path: Seq<char>) -> Set<Seq<char>> {
        Set::new(|w: Seq<char>| self.workspaces.contains_key(w) && self.workspaces[w].path == path)
    }
}

/// A question to the tables.
#[verifier::ext_equal]
pub enum Query {
    Projects { include_archived: bool },
    ProjectById { id: Seq<char> },
    ProjectByPath { path: Seq<char> },
    CountOwned { table: Table, project_id: Seq<char> },
    CountWorkspaces { project_id: Seq<char> },
    IdsOwned { table: Table, project_id: Seq<char> },
}

impl Query {
    /// The statement that asks the question.
    pub open spec fn statement(self) -> StatementView {
        match self {
            Query::Projects { include_archived } => StatementView {
                sql: if include_archived {
                    "SELECT id, root, archived_at, created_at, updated_at FROM projects ORDER BY created_at DESC"@
                } else {
                    "SELECT id, root, archived_at, created_at, updated_at FROM projects WHERE archived_at IS NULL ORDER BY created_at DESC"@
                },
                params: seq![],
            },
            Query::ProjectById { id } => StatementView {
                sql: "SELECT id, root, archived_at, created_at, updated_at FROM projects WHERE id = ?1"@,
                params: seq![id],
            },
            Query::ProjectByPath { path } => StatementView {
                sql: "SELECT DISTINCT p.id, p.root, p.archived_at, p.created_at, p.updated_at FROM projects p LEFT JOIN project_workspaces pw ON pw.project_id = p.id WHERE p.root = ?1 OR pw.path = ?1 LIMIT 1"@,
                params: seq![path],
            },
            Query::CountOwned { table, project_id } => StatementView {
                sql: "SELECT COUNT(*) FROM "@ + table.ident() + " WHERE project_id = ?1"@,
                params: seq![project_id],
            },
            Query::CountWorkspaces { project_id } => StatementView {
                sql: "SELECT COUNT(*) FROM project_workspaces WHERE project_id = ?1"@,
                params: seq![project_id],
            },
            Query::IdsOwned { table, project_id } => StatementView {
                sql: "SELECT id FROM "@ + table.ident() + " WHERE project_id = ?1"@,
                params: seq![project_id],
            },
        }
    }
}

/// A project in an answer.
#[verifier::ext_equal]
pub struct ListedProject {
    pub id: Seq<char>,
    pub row: ProjectRow,
}

/// An answer of the tables.
#[verifier::ext_equal]
pub enum Answer {
    /// Projects, in order.
    Projects(Seq<ListedProject>),
    /// A number.
    Count(nat),
    /// Ids, in order.
    Ids(Seq<Seq<char>>),
}

/// Whether no project stands behind a newer one.
pub open spec fn newest_first(rows: Seq<ListedProject>) -> bool {
    forall|i: int, j: int|
        0 <= i < j < rows.len() ==> !text_less(
            (#[trigger] rows[i]).row.created_at,
            (#[trigger] rows[j]).row.created_at,
        )
}

/// Whether no two projects have the same id.
pub open spec fn each_once(rows: Seq<ListedProject>) -> bool {
    forall|i: int, j: int|
        0 <= i < j < rows.len() ==> (#[trigger] rows[i]).id != (#[trigger] rows[j]).id
}

impl Tables {
    /// Whether a project in an answer stands so in the tables.
    pub open spec fn has(self, listed: ListedProject) -> bool {
        self.projects.contains_key(listed.id) && self.projects[listed.id] == listed.row
    }

    /// Whether the tables may answer a question so. Which of several
    /// projects of the same age comes first, which of several projects that
    /// a path leads to is given, and in what order ids come, is left open.
    pub open spec fn answers(self, query: Query, answer: Answer) -> bool {
        match (query, answer) {
            (Query::Projects { include_archived }, Answer::Projects(rows)) => {
                &&& newest_first(rows)
                &&& each_once(rows)
                &&& forall|listed: ListedProject| #[trigger]
                    rows.contains(listed) <==> self.has(listed) && self.lists(
                        listed.id,
                        include_archived,
                    )
            },
            (Query::ProjectById { id }, Answer::Projects(rows)) => {
                &&& rows.len() == if self.projects.contains_key(id) {
                    1nat
                } else {
                    0
                }
                &&& rows.len() == 1 ==> rows[0].id == id && self.has(rows[0])
            },
            (Query::ProjectByPath { path }, Answer::Projects(rows)) => {
                &&& rows.len() == if exists|id: Seq<char>| self.leads_to(path, id) {
                    1nat
                } else {
                    0
                }
                &&& rows.len() == 1 ==> self.leads_to(path, rows[0].id) && self.has(rows[0])
            },
            (Query::CountOwned { table, project_id }, Answer::Count(count)) => count == self.owned(
                table.kind(),
                project_id,
            ).len(),
            (Query::CountWorkspaces { project_id }, Answer::Count(count)) => count
                == self.workspaces_of(project_id).len(),
            (Query::IdsOwned { table, project_id }, Answer::Ids(ids)) => ids.no_duplicates()
                && ids.to_set() == self.owned(table.kind(), project_id),
            _ => false,
        }
    }
}

/// A step of a transaction.
#[verifier::ext_equal]
pub enum TransactionStep {
    Begin,
    Make(Change),
    Commit,
    Rollback,
}

impl TransactionStep {
    /// The statement that takes the step.
    pub open spec fn statement(self) -> StatementView {
        match self {
            TransactionStep::Begin => StatementView { sql: "BEGIN"@, params: seq![] },
            TransactionStep::Make(change) => change.statement(),
            TransactionStep::Commit => StatementView { sql: "COMMIT"@, params: seq![] },
            TransactionStep::Rollback => StatementView { sql: "ROLLBACK"@, params: seq![] },
        }
    }
}

/// A connection: the tables as they are stored, and as a transaction that is
/// open on the connection has changed them.
#[verifier::ext_equal]
pub struct Session {
    pub stored: Tables,
    pub open: Option<Tables>,
}

impl Session {
    /// A connection on which no transaction is open.
    pub open spec fn new(tables: Tables) -> Session {
        Session { stored: tables, open: None }
    }

    /// The connection after a step.
    pub open spec fn step(self, step: TransactionStep) -> Session {
        match (step, self.open) {
            (TransactionStep::Begin, None) => Session { open: Some(self.stored), ..self },
            (TransactionStep::Begin, Some(_)) => self,
            (TransactionStep::Make(change), None) => Session::new(change.applied(self.stored)),
            (TransactionStep::Make(change), Some(tables)) => Session {
                open: Some(change.applied(tables)),
                ..self
            },
            (TransactionStep::Commit, Some(tables)) => Session::new(tables),
            (TransactionStep::Commit, None) => self,
            (TransactionStep::Rollback, _) => Session::new(self.stored),
        }
    }

    /// The connection after all the steps, in order.
    pub open spec fn run(self, steps: Seq<TransactionStep>) -> Session
        decreases steps.len(),
    {
        if steps.len() == 0 {
            self
        } else {
            self.run(steps.drop_last()).step(steps.last())
        }
    }
}

} // verus!
