//! What is asked of the tables, word for word, and in which order.
use vstd::prelude::*;

use crate::model::EntityType;
use crate::store::repo::project::{
    any_deleted, archive_plan, carry_out, count_of, entity_plan, entity_steps, file_view,
    identity_for, is_first_marked, moment, synced_id, take_steps, unarchived_at, written,
    CreationView, DeleteStep, DeletionView, Identity, IdentityView, Project, ProjectFile,
    ProjectFileView, ProjectView, ProjectWorkspace, Table,
};
use crate::store::repo::tables::{Change, Entity, Query, TransactionStep, WorkspaceRow};
use crate::store::statement::Statement;
use crate::time::{rfc3339, Timestamp, TimestampView};

verus! {

/// A point in time is written as RFC 3339 writes it.
pub proof fn moments_are_written_in_rfc3339(at: TimestampView, text: Seq<char>)
    ensures
        rfc3339(at.secs, at.nanos) == Some(text) ==> at.text() == text,
{
}

/// What is asked for a project: it is inserted with its root and its times,
/// marked as archived or as active again with the time of the change, or
/// deleted, always by its own id.
pub proof fn projects_are_changed_by_their_id(
    id: Seq<char>,
    root: Seq<char>,
    created_at: Seq<char>,
    updated_at: Seq<char>,
    now: Seq<char>,
)
    ensures
        (Change::InsertProject { id, root, created_at, updated_at }).statement().sql
            == "INSERT INTO projects (id, root, created_at, updated_at) VALUES (?1, ?2, ?3, ?4)"@,
        (Change::InsertProject { id, root, created_at, updated_at }).statement().params == seq![
            id,
            root,
            created_at,
            updated_at,
        ],
        (Change::ArchiveProject { id, now }).statement().sql
            == "UPDATE projects SET archived_at = ?1, updated_at = ?1 WHERE id = ?2"@,
        (Change::ArchiveProject { id, now }).statement().params == seq![now, id],
        (Change::UnarchiveProject { id, now }).statement().sql
            == "UPDATE projects SET archived_at = NULL, updated_at = ?1 WHERE id = ?2"@,
        (Change::UnarchiveProject { id, now }).statement().params == seq![now, id],
        (Change::DeleteProject { id }).statement().sql == "DELETE FROM projects WHERE id = ?1"@,
        (Change::DeleteProject { id }).statement().params == seq![id],
{
}

/// What is asked for workspaces: one is inserted with its project, its path
/// and its times; those of a project, or those at a path, are deleted.
pub proof fn workspaces_are_changed_by_project_or_path(
    id: Seq<char>,
    row: WorkspaceRow,
    project_id: Seq<char>,
    path: Seq<char>,
)
    ensures
        (Change::InsertWorkspace { id, row }).statement().sql
            == "INSERT INTO project_workspaces (id, project_id, path, created_at, updated_at) VALUES (?1, ?2, ?3, ?4, ?5)"@,
        (Change::InsertWorkspace { id, row }).statement().params == seq![
            id,
            row.project_id,
            row.path,
            row.created_at,
            row.updated_at,
        ],
        (Change::DeleteWorkspacesOf { project_id }).statement().sql
            == "DELETE FROM project_workspaces WHERE project_id = ?1"@,
        (Change::DeleteWorkspacesOf { project_id }).statement().params == seq![project_id],
        (Change::DeleteWorkspacesAt { path }).statement().sql
            == "DELETE FROM project_workspaces WHERE path = ?1"@,
        (Change::DeleteWorkspacesAt { path }).statement().params == seq![path],
{
}

/// What is asked for transactions and for the digests of files, always within
/// one project.
pub proof fn records_are_changed_within_a_project(
    id: Seq<char>,
    project_id: Seq<char>,
    command: Seq<char>,
    created_at: Seq<char>,
    path: Seq<char>,
)
    ensures
        (Change::InsertTransaction { id, project_id, command, created_at }).statement().sql
            == "INSERT INTO transactions (id, project_id, command, created_at) VALUES (?1, ?2, ?3, ?4)"@,
        (Change::InsertTransaction { id, project_id, command, created_at }).statement().params
            == seq![id, project_id, command, created_at],
        (Change::DeleteEventsOf { project_id }).statement().sql
            == "DELETE FROM transaction_events WHERE transaction_id IN (SELECT id FROM transactions WHERE project_id = ?1)"@,
        (Change::DeleteEventsOf { project_id }).statement().params == seq![project_id],
        (Change::DeleteTransactionsOf { project_id }).statement().sql
            == "DELETE FROM transactions WHERE project_id = ?1"@,
        (Change::DeleteTransactionsOf { project_id }).statement().params == seq![project_id],
        (Change::DeleteDigest { path, project_id }).statement().sql
            == "DELETE FROM sync_digests WHERE relative_path = ?1 AND project_id = ?2"@,
        (Change::DeleteDigest { path, project_id }).statement().params == seq![path, project_id],
{
}

/// Projects are asked for all together, the newest first, without the archived
/// ones unless those are wanted; by their id; or by a path that is their root
/// or that of one of their workspaces.
pub proof fn projects_are_asked_for_by_age_id_or_path(id: Seq<char>, path: Seq<char>)
    ensures
        (Query::Projects { include_archived: true }).statement().sql
            == "SELECT id, root, archived_at, created_at, updated_at FROM projects ORDER BY created_at DESC"@,
        (Query::Projects { include_archived: false }).statement().sql
            == "SELECT id, root, archived_at, created_at, updated_at FROM projects WHERE archived_at IS NULL ORDER BY created_at DESC"@,
        (Query::Projects { include_archived: true }).statement().params.len() == 0,
        (Query::Projects { include_archived: false }).statement().params.len() == 0,
        (Query::ProjectById { id }).statement().sql
            == "SELECT id, root, archived_at, created_at, updated_at FROM projects WHERE id = ?1"@,
        (Query::ProjectById { id }).statement().params == seq![id],
        (Query::ProjectByPath { path }).statement().sql
            == "SELECT DISTINCT p.id, p.root, p.archived_at, p.created_at, p.updated_at FROM projects p LEFT JOIN project_workspaces pw ON pw.project_id = p.id WHERE p.root = ?1 OR pw.path = ?1 LIMIT 1"@,
        (Query::ProjectByPath { path }).statement().params == seq![path],
{
}

/// The rows of a project are counted, and their ids asked for, in the table of
/// their kind.
pub proof fn rows_of_a_project_are_asked_for_by_table(project_id: Seq<char>)
    ensures
        (Query::CountOwned { table: Table::Artifacts, project_id }).statement().sql
            == "SELECT COUNT(*) FROM artifacts WHERE project_id = ?1"@,
        (Query::CountOwned { table: Table::Artifacts, project_id }).statement().params == seq![project_id],
        (Query::IdsOwned { table: Table::Artifacts, project_id }).statement().sql
            == "SELECT id FROM artifacts WHERE project_id = ?1"@,
        (Query::IdsOwned { table: Table::Artifacts, project_id }).statement().params == seq![project_id],
        (Query::CountOwned { table: Table::Iterations, project_id }).statement().sql
            == "SELECT COUNT(*) FROM iterations WHERE project_id = ?1"@,
        (Query::CountOwned { table: Table::Iterations, project_id }).statement().params == seq![project_id],
        (Query::IdsOwned { table: Table::Iterations, project_id }).statement().sql
            == "SELECT id FROM iterations WHERE project_id = ?1"@,
        (Query::IdsOwned { table: Table::Iterations, project_id }).statement().params == seq![project_id],
        (Query::CountOwned { table: Table::Tasks, project_id }).statement().sql
            == "SELECT COUNT(*) FROM tasks WHERE project_id = ?1"@,
        (Query::CountOwned { table: Table::Tasks, project_id }).statement().params == seq![project_id],
        (Query::IdsOwned { table: Table::Tasks, project_id }).statement().sql
            == "SELECT id FROM tasks WHERE project_id = ?1"@,
        (Query::IdsOwned { table: Table::Tasks, project_id }).statement().params == seq![project_id],
        (Query::CountWorkspaces { project_id }).statement().sql
            == "SELECT COUNT(*) FROM project_workspaces WHERE project_id = ?1"@,
        (Query::CountWorkspaces { project_id }).statement().params == seq![project_id],
        Table::Artifacts.ident() == "artifacts"@,
        Table::Iterations.ident() == "iterations"@,
        Table::Tasks.ident() == "tasks"@,
        Table::Artifacts.kind() == EntityType::Artifact,
        Table::Iterations.kind() == EntityType::Iteration,
        Table::Tasks.kind() == EntityType::Task,
{
    reveal_strlit("SELECT COUNT(*) FROM ");
    reveal_strlit("SELECT id FROM ");
    reveal_strlit(" WHERE project_id = ?1");
    reveal_strlit("artifacts");
    reveal_strlit("SELECT COUNT(*) FROM artifacts WHERE project_id = ?1");
    reveal_strlit("SELECT id FROM artifacts WHERE project_id = ?1");
    assert("SELECT COUNT(*) FROM "@ + "artifacts"@ + " WHERE project_id = ?1"@
        =~= "SELECT COUNT(*) FROM artifacts WHERE project_id = ?1"@);
    assert("SELECT id FROM "@ + "artifacts"@ + " WHERE project_id = ?1"@
        =~= "SELECT id FROM artifacts WHERE project_id = ?1"@);
    reveal_strlit("iterations");
    reveal_strlit("SELECT COUNT(*) FROM iterations WHERE project_id = ?1");
    reveal_strlit("SELECT id FROM iterations WHERE project_id = ?1");
    assert("SELECT COUNT(*) FROM "@ + "iterations"@ + " WHERE project_id = ?1"@
        =~= "SELECT COUNT(*) FROM iterations WHERE project_id = ?1"@);
    assert("SELECT id FROM "@ + "iterations"@ + " WHERE project_id = ?1"@
        =~= "SELECT id FROM iterations WHERE project_id = ?1"@);
    reveal_strlit("tasks");
    reveal_strlit("SELECT COUNT(*) FROM tasks WHERE project_id = ?1");
    reveal_strlit("SELECT id FROM tasks WHERE project_id = ?1");
    assert("SELECT COUNT(*) FROM "@ + "tasks"@ + " WHERE project_id = ?1"@
        =~= "SELECT COUNT(*) FROM tasks WHERE project_id = ?1"@);
    assert("SELECT id FROM "@ + "tasks"@ + " WHERE project_id = ?1"@
        =~= "SELECT id FROM tasks WHERE project_id = ?1"@);
}

/// A project is archived by four statements: a transaction is opened, the
/// project is marked with the time, its workspaces are deleted, and the
/// transaction is committed.
pub proof fn archiving_takes_four_statements(
    statements: Seq<Statement>,
    id: Seq<char>,
    now: TimestampView,
)
    requires
        take_steps(statements, archive_plan(id, now)),
    ensures
        statements.len() == 4,
        statements[0]@.sql == "BEGIN"@,
        statements[0]@.params.len() == 0,
        statements[1]@.sql == "UPDATE projects SET archived_at = ?1, updated_at = ?1 WHERE id = ?2"@,
        statements[1]@.params == seq![now.text(), id],
        statements[2]@.sql == "DELETE FROM project_workspaces WHERE project_id = ?1"@,
        statements[2]@.params == seq![id],
        statements[3]@.sql == "COMMIT"@,
        statements[3]@.params.len() == 0,
{
    let plan = archive_plan(id, now);
    assert(statements[0]@ == plan[0].statement());
    assert(statements[1]@ == plan[1].statement());
    assert(statements[2]@ == plan[2].statement());
    assert(statements[3]@ == plan[3].statement());
}

/// A project is made active again by one statement, with the time of the
/// change.
pub proof fn unarchiving_takes_one_statement(id: Seq<char>, now: TimestampView)
    ensures
        unarchived_at(id, now).sql
            == "UPDATE projects SET archived_at = NULL, updated_at = ?1 WHERE id = ?2"@,
        unarchived_at(id, now).params == seq![now.text(), id],
{
}

/// A transaction that failed is rolled back.
pub proof fn failed_transactions_are_rolled_back()
    ensures
        TransactionStep::Rollback.statement().sql == "ROLLBACK"@,
        TransactionStep::Rollback.statement().params.len() == 0,
{
}

/// The first candidate is picked where it is marked, and passed over where it
/// is not; none is picked of no candidates.
pub proof fn the_nearest_marked_candidate_is_picked<D>(
    candidate: (D, bool),
    rest: Seq<(D, bool)>,
    found: Option<D>,
)
    ensures
        is_first_marked(Seq::<(D, bool)>::empty(), found) <==> found is None,
        candidate.1 ==> (is_first_marked(seq![candidate] + rest, found) <==> found == Some(
            candidate.0,
        )),
        !candidate.1 ==> (is_first_marked(seq![candidate] + rest, found) <==> is_first_marked(
            rest,
            found,
        )),
{
    let all = seq![candidate] + rest;
    assert(all[0] == candidate);
    if candidate.1 {
        if found == Some(candidate.0) {
            assert(all[0] == (candidate.0, true));
        }
    } else {
        if is_first_marked(all, found) {
            match found {
                Some(dir) => {
                    let i = choose|i: int|
                        0 <= i < all.len() && #[trigger] all[i] == (dir, true) && (forall|j: int|
                            0 <= j < i ==> !(#[trigger] all[j]).1);
                    assert(rest[i - 1] == (dir, true));
                    assert forall|j: int| 0 <= j < i - 1 implies !(#[trigger] rest[j]).1 by {
                        assert(all[j + 1] == rest[j]);
                    }
                },
                None => {
                    assert forall|i: int| 0 <= i < rest.len() implies !(#[trigger] rest[i]).1 by {
                        assert(all[i + 1] == rest[i]);
                    }
                },
            }
        }
        if is_first_marked(rest, found) {
            match found {
                Some(dir) => {
                    let i = choose|i: int|
                        0 <= i < rest.len() && #[trigger] rest[i] == (dir, true) && (forall|j: int|
                            0 <= j < i ==> !(#[trigger] rest[j]).1);
                    assert(all[i + 1] == (dir, true));
                    assert forall|j: int| 0 <= j < i + 1 implies !(#[trigger] all[j]).1 by {
                        if j > 0 {
                            assert(all[j] == rest[j - 1]);
                        }
                    }
                },
                None => {
                    assert forall|i: int| 0 <= i < all.len() implies !(#[trigger] all[i]).1 by {
                        if i > 0 {
                            assert(all[i] == rest[i - 1]);
                        }
                    }
                },
            }
        }
    }
}

/// A count is the number in its answer, and nothing where there is none; rows
/// were deleted where their number is not zero.
pub proof fn counts_are_read_as_they_stand(answer: i64, affected: u64)
    ensures
        count_of(None) == 0,
        0 <= answer <= usize::MAX ==> count_of(Some(answer)) == answer,
        any_deleted(affected) <==> affected != 0,
{
}

/// A project that is made has the identity of its file where there is one,
/// and a fresh one where there is none.
pub proof fn a_stored_identity_comes_first(file: ProjectFileView, fresh: IdentityView)
    ensures
        identity_for(Some(file), fresh) == file.identity,
        identity_for(None, fresh) == fresh,
{
}

/// A project that is made is inserted with its own id, root and times.
pub proof fn a_project_is_inserted_as_it_is_made(creation: CreationView)
    ensures
        creation.insertion() == (Change::InsertProject {
            id: creation.identity.id,
            root: creation.root,
            created_at: creation.identity.created_at.text(),
            updated_at: creation.identity.updated_at.text(),
        }),
{
}

/// The file of a project holds its id and its times, and says that it was not
/// deleted. A file leads to its project unless it was.
pub proof fn files_lead_to_projects_that_live(project: ProjectView, file: ProjectFileView)
    ensures
        written(project).identity.id == project.id,
        written(project).identity.created_at == project.created_at,
        written(project).identity.updated_at == project.updated_at,
        written(project).deleted_at is None,
        synced_id(None) is None,
        file.deleted_at is Some ==> synced_id(Some(file)) is None,
        file.deleted_at is None ==> synced_id(Some(file)) == Some(file.identity.id),
{
}

/// What a project has is seen field by field.
pub proof fn projects_are_seen_field_by_field(
    project: Project,
    identity: Identity,
    file: ProjectFile,
    workspace: ProjectWorkspace,
    at: Timestamp,
)
    ensures
        project@.id == project.id@,
        project@.root == project.root@,
        project@.archived_at == moment(project.archived_at),
        project@.created_at == project.created_at@,
        project@.updated_at == project.updated_at@,
        identity@.id == identity.id@,
        identity@.created_at == identity.created_at@,
        identity@.updated_at == identity.updated_at@,
        file@.identity == file.identity@,
        file@.deleted_at == moment(file.deleted_at),
        moment(None) is None,
        moment(Some(at)) == Some(at@),
        file_view(None) is None,
        file_view(Some(file)) == Some(file@),
        workspace.row().project_id == workspace.project_id@,
        workspace.row().path == workspace.path@,
        workspace.row().created_at == workspace.created_at@.text(),
        workspace.row().updated_at == workspace.updated_at@.text(),
        project@.listed().id == project.id@,
        project@.listed().row.root == project.root@,
        project.archived_at is None <==> project@.listed().row.archived_at is None,
        project.archived_at is Some ==> project@.listed().row.archived_at == Some(
            project.archived_at->0@.text(),
        ),
        project@.listed().row.created_at == project.created_at@.text(),
        project@.listed().row.updated_at == project.updated_at@.text(),
{
}

/// Where the steps for an entity stand among those for all of its kind.
proof fn lemma_entity_places(
    deletion: DeletionView,
    kind: EntityType,
    ids: Seq<Seq<char>>,
    k: int,
)
    requires
        0 <= k < ids.len(),
    ensures
        entity_steps(deletion, kind, ids).len() == 3 * ids.len(),
        entity_steps(deletion, kind, ids)[3 * k] == deletion.steps_for(
            Entity { kind, id: ids[k] },
        )[0],
        entity_steps(deletion, kind, ids)[3 * k + 1] == deletion.steps_for(
            Entity { kind, id: ids[k] },
        )[1],
        entity_steps(deletion, kind, ids)[3 * k + 2] == deletion.steps_for(
            Entity { kind, id: ids[k] },
        )[2],
    decreases ids.len(),
{
    let rest = ids.drop_last();
    if ids.len() == 1 {
        assert(entity_steps(deletion, kind, rest).len() == 0);
    } else {
        lemma_entity_places(
            deletion,
            kind,
            rest,
            if k < rest.len() {
                k
            } else {
                0
            },
        );
    }
}

/// How many steps the entities of one kind take.
proof fn lemma_entity_count(deletion: DeletionView, kind: EntityType)
    ensures
        entity_plan(deletion, kind).len() == 3 * deletion.owned(kind).len(),
{
    if deletion.owned(kind).len() > 0 {
        lemma_entity_places(deletion, kind, deletion.owned(kind), 0);
    }
}

/// Whether three steps delete an entity under a transaction: the entity goes
/// with all that hangs on it, its file is marked, and the digest of the file
/// is forgotten.
pub open spec fn delete_entity(
    steps: Seq<DeleteStep>,
    at: int,
    kind: EntityType,
    id: Seq<char>,
    transaction_id: Seq<char>,
    path: Seq<char>,
    project_id: Seq<char>,
) -> bool {
    &&& steps[at] matches DeleteStep::Cascade { transaction_id: under, kind: k, id: e }
    &&& under@ == transaction_id
    &&& k == kind
    &&& e@ == id
    &&& steps[at + 1] matches DeleteStep::Tombstone { kind: marked_kind, id: marked }
    &&& marked_kind == kind
    &&& marked@ == id
    &&& steps[at + 2] matches DeleteStep::Execute(statement)
    &&& statement@.sql
        == "DELETE FROM sync_digests WHERE relative_path = ?1 AND project_id = ?2"@
    &&& statement@.params == seq![path, project_id]
}

/// Whether a step executes a statement with the given text and values.
pub open spec fn executes(step: DeleteStep, sql: Seq<char>, params: Seq<Seq<char>>) -> bool {
    step matches DeleteStep::Execute(statement) && statement@.sql == sql && statement@.params
        == params
}

/// A project is deleted in this order: a transaction is recorded, its tasks
/// go, then its iterations, then its artifacts, each with its file and the
/// digest of the file; the file of the project is marked; and the events, the
/// transactions, the workspaces and the row of the project are deleted. There
/// is no other step.
pub proof fn deleting_goes_from_tasks_to_the_project(
    steps: Seq<DeleteStep>,
    deletion: DeletionView,
    k: int,
)
    requires
        carry_out(steps, deletion.plan()),
    ensures
        ({
            let p = deletion.project_id;
            let t = deletion.tasks.len() as int;
            let i = deletion.iterations.len() as int;
            let a = deletion.artifacts.len() as int;
            let n = 1 + 3 * t + 3 * i + 3 * a;
            &&& steps.len() == n + 5
            &&& executes(
                steps[0],
                "INSERT INTO transactions (id, project_id, command, created_at) VALUES (?1, ?2, ?3, ?4)"@,
                seq![deletion.transaction_id, p, "project delete"@, deletion.deleted_at.text()],
            )
            &&& 0 <= k < t ==> delete_entity(
                steps,
                1 + 3 * k,
                EntityType::Task,
                deletion.tasks[k],
                deletion.transaction_id,
                deletion.task_dir + "/"@ + deletion.tasks[k] + ".yaml"@,
                p,
            )
            &&& 0 <= k < i ==> delete_entity(
                steps,
                1 + 3 * t + 3 * k,
                EntityType::Iteration,
                deletion.iterations[k],
                deletion.transaction_id,
                deletion.iteration_dir + "/"@ + deletion.iterations[k] + ".yaml"@,
                p,
            )
            &&& 0 <= k < a ==> delete_entity(
                steps,
                1 + 3 * t + 3 * i + 3 * k,
                EntityType::Artifact,
                deletion.artifacts[k],
                deletion.transaction_id,
                deletion.artifact_dir + "/"@ + deletion.artifacts[k] + ".md"@,
                p,
            )
            &&& steps[n] is TombstoneProject
            &&& executes(
                steps[n + 1],
                "DELETE FROM transaction_events WHERE transaction_id IN (SELECT id FROM transactions WHERE project_id = ?1)"@,
                seq![p],
            )
            &&& executes(
                steps[n + 2],
                "DELETE FROM transactions WHERE project_id = ?1"@,
                seq![p],
            )
            &&& executes(
                steps[n + 3],
                "DELETE FROM project_workspaces WHERE project_id = ?1"@,
                seq![p],
            )
            &&& executes(steps[n + 4], "DELETE FROM projects WHERE id = ?1"@, seq![p])
        }),
{
    let plan = deletion.plan();
    let t = deletion.tasks.len() as int;
    let i = deletion.iterations.len() as int;
    let a = deletion.artifacts.len() as int;
    let n = 1 + 3 * t + 3 * i + 3 * a;
    lemma_entity_count(deletion, EntityType::Task);
    lemma_entity_count(deletion, EntityType::Iteration);
    lemma_entity_count(deletion, EntityType::Artifact);
    assert(plan.len() == n + 5);
    assert(steps[0].carries_out(plan[0]));
    if 0 <= k < t {
        lemma_entity_places(deletion, EntityType::Task, deletion.tasks, k);
        assert(steps[1 + 3 * k].carries_out(plan[1 + 3 * k]));
        assert(steps[1 + 3 * k + 1].carries_out(plan[1 + 3 * k + 1]));
        assert(steps[1 + 3 * k + 2].carries_out(plan[1 + 3 * k + 2]));
        assert(plan[1 + 3 * k] == entity_plan(deletion, EntityType::Task)[3 * k]);
        assert(plan[1 + 3 * k + 1] == entity_plan(deletion, EntityType::Task)[3 * k + 1]);
        assert(plan[1 + 3 * k + 2] == entity_plan(deletion, EntityType::Task)[3 * k + 2]);
    }
    if 0 <= k < i {
        let m = 1 + 3 * t + 3 * k;
        lemma_entity_places(deletion, EntityType::Iteration, deletion.iterations, k);
        assert(steps[m].carries_out(plan[m]));
        assert(steps[m + 1].carries_out(plan[m + 1]));
        assert(steps[m + 2].carries_out(plan[m + 2]));
        assert(plan[m] == entity_plan(deletion, EntityType::Iteration)[3 * k]);
        assert(plan[m + 1] == entity_plan(deletion, EntityType::Iteration)[3 * k + 1]);
        assert(plan[m + 2] == entity_plan(deletion, EntityType::Iteration)[3 * k + 2]);
    }
    if 0 <= k < a {
        let m = 1 + 3 * t + 3 * i + 3 * k;
        lemma_entity_places(deletion, EntityType::Artifact, deletion.artifacts, k);
        assert(steps[m].carries_out(plan[m]));
        assert(steps[m + 1].carries_out(plan[m + 1]));
        assert(steps[m + 2].carries_out(plan[m + 2]));
        assert(plan[m] == entity_plan(deletion, EntityType::Artifact)[3 * k]);
        assert(plan[m + 1] == entity_plan(deletion, EntityType::Artifact)[3 * k + 1]);
        assert(plan[m + 2] == entity_plan(deletion, EntityType::Artifact)[3 * k + 2]);
    }
    let last = deletion.closing();
    assert(plan[n] == last[0]);
    assert(plan[n + 1] == last[1]);
    assert(plan[n + 2] == last[2]);
    assert(plan[n + 3] == last[3]);
    assert(plan[n + 4] == last[4]);
    assert(steps[n].carries_out(plan[n]));
    assert(steps[n + 1].carries_out(plan[n + 1]));
    assert(steps[n + 2].carries_out(plan[n + 2]));
    assert(steps[n + 3].carries_out(plan[n + 3]));
    assert(steps[n + 4].carries_out(plan[n + 4]));
}

} // verus!
