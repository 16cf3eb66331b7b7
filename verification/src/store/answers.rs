//! What each operation on the store returns, whatever it is given.
use vstd::prelude::*;

use crate::config;
use crate::store::repo::project::{
    all, archive, archive_at, archive_plan, attach_workspace, carry_out, collect_entity_ids,
    collected, count_of, count_owned, count_project_workspaces, counted, create, delete,
    detach_workspace, detached, entity_counts, file_view, find_by_id, find_by_path, find_gest_dir,
    find_home, find_or_create_from_synced_project, find_project_file, invalidate_sync_digest,
    is_first_marked, owned_ids, project_file, rollback, synced_creation, synced_project, take_steps,
    unarchive, unarchive_at, unarchived_at, written, CascadeReport, Creation, DeleteStep,
    DeleteSummary, DeletionView, EntityCounts, Home, Identity, OwnedIds, Project, ProjectFile,
    ProjectWorkspace, SyncDirs, SyncedProject, Table,
};
use crate::store::repo::tables::{Change, Query, TransactionStep};
use crate::store::statement::{placeholder_text, placeholders, Statement};
use crate::store::{open, open_with_gest_dir, Db, Error, Location, Pragma};
use crate::text::texts;
use crate::time::Timestamp;

verus! {

/// A URL in the settings comes before all else, with its token or an empty
/// one. Without one the database is the file `gest.db` of the directory that
/// was set, else of the project's `.gest` directory, else of the default one;
/// and only where the default one is needed does it matter that there is none.
pub proof fn databases_are_opened_where_settings_say<D>(
    settings: config::Settings<D>,
    gest_dir: Option<D>,
    default_dir: Result<D, config::Error>,
    location: Result<Location<D>, Error>,
)
    requires
        call_ensures(open_with_gest_dir::<D>, (settings, gest_dir, default_dir), location) || (
        call_ensures(open::<D>, (settings, default_dir), location) && gest_dir is None),
    ensures
        settings.database.url is Some ==> match location {
            Ok(Location::Remote { url, auth_token }) => url == settings.database.url->0
                && auth_token@ == match settings.database.auth_token {
                Some(token) => token@,
                None => Seq::empty(),
            },
            _ => false,
        },
        settings.database.url is None ==> match settings.storage.data_dir_override {
            Some(dir) => location == Ok::<Location<D>, Error>(
                Location::Local { dir, file: "gest.db" },
            ),
            None => match gest_dir {
                Some(dir) => location == Ok::<Location<D>, Error>(
                    Location::Local { dir, file: "gest.db" },
                ),
                None => match default_dir {
                    Ok(dir) => location == Ok::<Location<D>, Error>(
                        Location::Local { dir, file: "gest.db" },
                    ),
                    Err(reason) => location == Err::<Location<D>, Error>(Error::Config(reason)),
                },
            },
        },
{
}

/// An error of the store tells its message, and a statement for a connection
/// its text.
pub proof fn errors_and_pragmas_tell_their_texts(
    error: &Error,
    text: Option<String>,
    pragma: Pragma,
    sql: &'static str,
)
    ensures
        call_ensures(Error::message, (error,), text) ==> match text {
            Some(t) => error.text() == Some(t@),
            None => error.text() is None,
        },
        call_ensures(Pragma::sql, (pragma,), sql) ==> sql@ == pragma.text(),
{
}

/// An error of another kind becomes the error of the store that holds it.
pub proof fn errors_are_taken_over(
    settings: config::Error,
    driver: libsql::Error,
    io: std::io::Error,
    json: serde_json::Error,
    yaml: yaml_serde::Error,
    res: Error,
)
    ensures
        call_ensures(<Error as From<config::Error>>::from, (settings,), res) ==> res
            == Error::Config(settings),
        call_ensures(<Error as From<libsql::Error>>::from, (driver,), res) ==> res
            == Error::Database(driver),
        call_ensures(<Error as From<std::io::Error>>::from, (io,), res) ==> res == Error::Io(io),
        call_ensures(<Error as From<serde_json::Error>>::from, (json,), res) ==> res
            == Error::Serialization(json),
        call_ensures(<Error as From<yaml_serde::Error>>::from, (yaml,), res) ==> res
            == Error::Yaml(yaml),
{
}

/// A database that was just opened is a file where it is local. A connection
/// to it enforces references, and writes ahead to a log first where it is a
/// file.
pub proof fn connections_are_prepared<D>(
    location: &Location<D>,
    file_backed: bool,
    db: Db<D>,
    pragmas: Vec<Pragma>,
    context: Option<(&String, &D)>,
)
    ensures
        call_ensures(Location::<D>::opened, (location,), db) ==> (db@.file_backed
            <==> location is Local) && !db@.imported && db@.sync_ctx is None,
        call_ensures(Db::<D>::opened, (file_backed,), db) ==> db@.file_backed == file_backed
            && !db@.imported && db@.sync_ctx is None,
        call_ensures(Db::<D>::connect, (&db,), pragmas) && db@.file_backed ==> pragmas@ == seq![
            Pragma::WriteAheadLog,
            Pragma::ForeignKeys,
        ],
        call_ensures(Db::<D>::connect, (&db,), pragmas) && !db@.file_backed ==> pragmas@ == seq![
            Pragma::ForeignKeys,
        ],
        call_ensures(Db::<D>::export_if_needed, (&db,), context) ==> (context is None
            <==> db@.sync_ctx is None) && (context is Some ==> db@.sync_ctx == Some(
            ((context->0).0@, *(context->0).1),
        )),
{
}

/// Only the first project and directory that are given are kept, and files are
/// imported once at most.
pub proof fn databases_are_kept_in_step<D>(
    db: &mut Db<D>,
    project_id: String,
    gest_dir: D,
    import: bool,
)
    ensures
        call_ensures(Db::<D>::configure_sync, (db, project_id, gest_dir), ()) ==> (
        final(db)@.file_backed == old(db)@.file_backed && final(db)@.imported
            == old(db)@.imported && final(db)@.sync_ctx == match old(db)@.sync_ctx {
            Some(context) => Some(context),
            None => Some((project_id@, gest_dir)),
        }),
        call_ensures(Db::<D>::import_if_needed, (db,), import) ==> (import <==> old(db)@.sync_ctx
            is Some && !old(db)@.imported) && (final(db)@.imported <==> old(db)@.imported
            || old(db)@.sync_ctx is Some) && final(db)@.file_backed == old(db)@.file_backed
            && final(db)@.sync_ctx == old(db)@.sync_ctx,
{
}

/// Statements are made of their text and values, and placeholders are written
/// in order.
pub proof fn statements_are_made(
    sql: &str,
    params: &[&str],
    statement: Statement,
    count: usize,
    start: usize,
    text: String,
)
    ensures
        call_ensures(Statement::new, (sql, params), statement) ==> statement@.sql == sql@
            && statement@.params.len() == params@.len() && forall|i: int|
            0 <= i < params@.len() ==> #[trigger] statement@.params[i] == params@[i]@,
        call_ensures(placeholders, (count, start), text) ==> text@ == placeholder_text(
            count as nat,
            start as nat,
        ),
{
}

/// A project is archived at the time that is given, or at one that the clock
/// of the system gives.
pub proof fn projects_are_archived(
    id: &str,
    now: &Timestamp,
    statements: [Statement; 4],
    last: Statement,
)
    ensures
        call_ensures(archive_at, (id, now), statements) ==> take_steps(
            statements@,
            archive_plan(id@, now@),
        ),
        call_ensures(archive, (id,), statements) ==> exists|at: Timestamp| #[trigger]
            call_ensures(Timestamp::now, (), at) && at@.is_read_off_the_clock() && take_steps(
                statements@,
                archive_plan(id@, at@),
            ),
        call_ensures(rollback, (), last) ==> last@ == TransactionStep::Rollback.statement(),
{
}

/// A project is made active again at the time that is given, or at one that
/// the clock of the system gives.
pub proof fn projects_are_made_active_again(id: &str, now: &Timestamp, statement: Statement)
    ensures
        call_ensures(unarchive_at, (id, now), statement) ==> statement@ == unarchived_at(
            id@,
            now@,
        ),
        call_ensures(unarchive, (id,), statement) ==> exists|at: Timestamp| #[trigger]
            call_ensures(Timestamp::now, (), at) && at@.is_read_off_the_clock() && statement@
                == unarchived_at(id@, at@),
{
}

/// Projects are asked for all together, by id or by path.
pub proof fn projects_are_asked_for(
    include_archived: bool,
    id: &str,
    path: &str,
    statement: Statement,
)
    ensures
        call_ensures(all, (include_archived,), statement) ==> statement@ == (Query::Projects {
            include_archived,
        }).statement(),
        call_ensures(find_by_id, (id,), statement) ==> statement@ == (Query::ProjectById {
            id: id@,
        }).statement(),
        call_ensures(find_by_path, (path,), statement) ==> statement@ == (Query::ProjectByPath {
            path: path@,
        }).statement(),
{
}

/// A workspace is attached with its identity, its project and its path, and
/// detached by its path.
pub proof fn workspaces_are_attached_and_detached(
    identity: Identity,
    project_id: &str,
    path: &str,
    res: (ProjectWorkspace, Statement),
    statement: Statement,
    affected: u64,
    any: bool,
)
    ensures
        call_ensures(attach_workspace, (identity, project_id, path), res) ==> {
            &&& res.0.id@ == identity.id@
            &&& res.0.project_id@ == project_id@
            &&& res.0.path@ == path@
            &&& res.0.created_at@ == identity.created_at@
            &&& res.0.updated_at@ == identity.updated_at@
            &&& res.1@.sql
                == "INSERT INTO project_workspaces (id, project_id, path, created_at, updated_at) VALUES (?1, ?2, ?3, ?4, ?5)"@
            &&& res.1@.params == seq![
                identity.id@,
                project_id@,
                path@,
                identity.created_at@.text(),
                identity.updated_at@.text(),
            ]
        },
        call_ensures(detach_workspace, (path,), statement) ==> statement@ == (
        Change::DeleteWorkspacesAt { path: path@ }).statement(),
        call_ensures(detached, (affected,), any) ==> (any <==> affected != 0),
{
}

/// The rows of a project are counted, kind by kind, and the answers are read
/// in the order in which they were asked for.
pub proof fn rows_of_a_project_are_counted(
    table: Table,
    id: &str,
    statement: Statement,
    statements: [Statement; 4],
    answer: Option<i64>,
    count: usize,
    answers: [Option<i64>; 4],
    counts: EntityCounts,
    zero: EntityCounts,
    ident: &'static str,
)
    ensures
        call_ensures(Table::as_sql_ident, (table,), ident) ==> ident@ == table.ident(),
        call_ensures(count_owned, (table, id), statement) ==> statement@ == (Query::CountOwned {
            table,
            project_id: id@,
        }).statement(),
        call_ensures(count_project_workspaces, (id,), statement) ==> statement@ == (
        Query::CountWorkspaces { project_id: id@ }).statement(),
        call_ensures(entity_counts, (id,), statements) ==> statements@[0]@ == (Query::CountOwned {
            table: Table::Artifacts,
            project_id: id@,
        }).statement() && statements@[1]@ == (Query::CountOwned {
            table: Table::Iterations,
            project_id: id@,
        }).statement() && statements@[2]@ == (Query::CountOwned {
            table: Table::Tasks,
            project_id: id@,
        }).statement() && statements@[3]@ == (Query::CountWorkspaces {
            project_id: id@,
        }).statement(),
        call_ensures(counted, (answer,), count) ==> count == count_of(answer),
        call_ensures(EntityCounts::read, (answers,), counts) ==> counts.artifacts == count_of(
            answers@[0],
        ) && counts.iterations == count_of(answers@[1]) && counts.tasks == count_of(answers@[2])
            && counts.workspaces == count_of(answers@[3]),
        call_ensures(EntityCounts::default, (), zero) ==> zero.artifacts == 0 && zero.iterations
            == 0 && zero.tasks == 0 && zero.workspaces == 0,
{
}

/// Directories and files of a project are looked for from the nearest on. A
/// directory that holds a file comes before one that does not.
pub proof fn directories_are_looked_for_from_the_nearest_on<D>(
    candidates: Vec<(D, bool)>,
    found: Option<D>,
    files: Vec<(D, bool)>,
    dirs: Vec<(D, bool)>,
    home: Home<D>,
)
    ensures
        call_ensures(find_gest_dir::<D>, (candidates,), found) ==> is_first_marked(
            candidates@,
            found,
        ),
        call_ensures(find_project_file::<D>, (candidates,), found) ==> is_first_marked(
            candidates@,
            found,
        ),
        call_ensures(find_home::<D>, (files, dirs), home) ==> match home {
            Home::Stored(dir) => is_first_marked(files@, Some(dir)),
            Home::Empty(dir) => is_first_marked(files@, None) && is_first_marked(dirs@, Some(dir)),
            Home::Nowhere => is_first_marked(files@, None) && is_first_marked(dirs@, None),
        },
{
}

/// A project is made for its root with the identity of its file, or else with
/// a fresh one, and inserted so.
pub proof fn projects_are_made(
    root: &str,
    stored: Option<ProjectFile>,
    fresh: Identity,
    creation: Creation,
    statement: Statement,
    id: &String,
)
    ensures
        call_ensures(create, (root, stored, fresh), creation) ==> creation@.root == root@
            && creation@.identity == match stored {
            Some(file) => file.identity@,
            None => fresh@,
        },
        call_ensures(Creation::insert, (&creation,), statement) ==> statement@.sql
            == "INSERT INTO projects (id, root, created_at, updated_at) VALUES (?1, ?2, ?3, ?4)"@
            && statement@.params == seq![
            creation@.identity.id,
            creation@.root,
            creation@.identity.created_at.text(),
            creation@.identity.updated_at.text(),
        ],
        call_ensures(Creation::id, (&creation,), id) ==> id@ == creation@.identity.id,
{
}

/// A project that was found after it was made is returned, and its file is
/// written where there is a directory for it; one that was not found is an
/// error.
pub proof fn made_projects_are_returned(
    creation: Creation,
    found: Option<Project>,
    has_gest_dir: bool,
    res: Result<(Project, Option<ProjectFile>), Error>,
)
    requires
        call_ensures(Creation::created, (creation, found, has_gest_dir), res),
    ensures
        res is Ok <==> found is Some,
        res is Ok ==> {
            let (project, file) = res->Ok_0;
            &&& project == found->0
            &&& file is Some <==> has_gest_dir
            &&& file is Some ==> file->0.identity@.id == project.id@ && file->0.identity@.created_at
                == project.created_at@ && file->0.identity@.updated_at == project.updated_at@
                && file->0.deleted_at is None
        },
        res is Err ==> match res->Err_0 {
            Error::InvalidValue(reason) => reason@ == "project not found after insert"@,
            _ => false,
        },
{
    if res is Ok {
        let (project, file) = res->Ok_0;
        assert(file_view(file) == if has_gest_dir {
            Some(written(project@))
        } else {
            None
        });
        if has_gest_dir {
            assert(file->0@ == written(project@));
        }
    }
}

/// The project of a file is looked up by the id in the file unless it was
/// deleted; where the store has none, it is made for the root as the file
/// describes it.
pub proof fn projects_of_files_are_found_or_made(
    stored: &Option<ProjectFile>,
    lookup: Option<&String>,
    root: &str,
    file: ProjectFile,
    creation: Creation,
    found: Option<Project>,
    project: SyncedProject,
    of: &Project,
    written_file: ProjectFile,
)
    ensures
        call_ensures(find_or_create_from_synced_project, (stored,), lookup) ==> (lookup is Some
            <==> stored is Some && stored->0.deleted_at is None) && (lookup is Some ==> lookup->0@
            == stored->0.identity.id@),
        call_ensures(synced_creation, (root, file), creation) ==> creation@.identity
            == file.identity@ && creation@.root == root@,
        call_ensures(synced_project, (found, root, file), project) ==> match project {
            SyncedProject::Found(known) => found == Some(known),
            SyncedProject::Create(made) => found is None && made@.identity == file.identity@
                && made@.root == root@,
        },
        call_ensures(project_file, (of,), written_file) ==> written_file@ == written(of@),
{
}

/// The ids of the rows of a project are asked for, the tasks first, then the
/// iterations, then the artifacts; a text that is no id is an error.
pub proof fn rows_of_a_project_are_listed(
    table: Table,
    project_id: &str,
    statement: Statement,
    statements: [Statement; 3],
    parsed: Result<String, String>,
    id: Result<String, Error>,
    relative: &str,
)
    ensures
        call_ensures(collect_entity_ids, (table, project_id), statement) ==> statement@ == (
        Query::IdsOwned { table, project_id: project_id@ }).statement(),
        call_ensures(owned_ids, (project_id,), statements) ==> statements@[0]@ == (
        Query::IdsOwned { table: Table::Tasks, project_id: project_id@ }).statement()
            && statements@[1]@ == (Query::IdsOwned {
            table: Table::Iterations,
            project_id: project_id@,
        }).statement() && statements@[2]@ == (Query::IdsOwned {
            table: Table::Artifacts,
            project_id: project_id@,
        }).statement(),
        call_ensures(collected, (parsed,), id) ==> match parsed {
            Ok(text) => id == Ok::<String, Error>(text),
            Err(reason) => id == Err::<String, Error>(Error::InvalidValue(reason)),
        },
        call_ensures(invalidate_sync_digest, (project_id, relative), statement) ==> statement@ == (
        Change::DeleteDigest { path: relative@, project_id: project_id@ }).statement(),
{
}

/// A deletion is planned for what the project has, and its summary counts the
/// entities; the rows that hang on them are added as they go.
pub proof fn deletions_are_planned_and_counted(
    id: &str,
    owned: &OwnedIds,
    transaction_id: &str,
    deleted_at: &Timestamp,
    dirs: &SyncDirs,
    res: (Vec<DeleteStep>, DeleteSummary),
    zero: DeleteSummary,
)
    ensures
        call_ensures(delete, (id, owned, transaction_id, deleted_at, dirs), res) ==> {
            &&& carry_out(
                res.0@,
                (DeletionView {
                    project_id: id@,
                    artifacts: texts(owned.artifacts@),
                    iterations: texts(owned.iterations@),
                    tasks: texts(owned.tasks@),
                    transaction_id: transaction_id@,
                    deleted_at: deleted_at@,
                    artifact_dir: dirs.artifact@,
                    iteration_dir: dirs.iteration@,
                    task_dir: dirs.task@,
                }).plan(),
            )
            &&& res.1.artifacts == owned.artifacts@.len()
            &&& res.1.iterations == owned.iterations@.len()
            &&& res.1.tasks == owned.tasks@.len()
            &&& res.1.notes == 0
            &&& res.1.relationships == 0
            &&& res.1.tags == 0
        },
        call_ensures(DeleteSummary::default, (), zero) ==> zero.artifacts == 0 && zero.iterations
            == 0 && zero.tasks == 0 && zero.notes == 0 && zero.relationships == 0 && zero.tags
            == 0,
{
}

/// What hung on an entity is added to what was counted before, and nothing
/// else changes.
pub proof fn what_hung_on_an_entity_is_added(summary: &mut DeleteSummary, report: &CascadeReport)
    requires
        old(summary).notes + report.notes <= usize::MAX,
        old(summary).relationships + report.relationships <= usize::MAX,
        old(summary).tags + report.tags <= usize::MAX,
        call_ensures(DeleteSummary::count, (summary, report), ()),
    ensures
        final(summary).notes == old(summary).notes + report.notes,
        final(summary).relationships == old(summary).relationships + report.relationships,
        final(summary).tags == old(summary).tags + report.tags,
        final(summary).artifacts == old(summary).artifacts,
        final(summary).iterations == old(summary).iterations,
        final(summary).tasks == old(summary).tasks,
{
}

} // verus!
