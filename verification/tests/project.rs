use std::path::{Path, PathBuf};

use gest::store::repo::project::{
    all, archive, archive_at, attach_workspace, collect_entity_ids, collected, count_owned,
    count_project_workspaces, counted, create, delete, detach_workspace, detached, entity_counts,
    find_by_id, find_by_path, find_gest_dir, find_home, find_or_create_from_synced_project,
    find_project_file, invalidate_sync_digest, owned_ids, project_file, rollback, synced_creation,
    synced_project, unarchive, unarchive_at, CascadeReport, DeleteStep, DeleteSummary,
    EntityCounts, Home, Identity, OwnedIds, Project, ProjectFile, SyncDirs, SyncedProject, Table,
};
use gest::store::Error;
use gest::time::Timestamp;

const NOON: &str = "2026-04-08T12:00:00+00:00";

fn noon() -> Timestamp {
    Timestamp::new(1775649600, 0).unwrap()
}

fn at(secs: i64) -> Timestamp {
    Timestamp::new(secs, 0).unwrap()
}

fn identity(id: &str) -> Identity {
    Identity { id: id.into(), created_at: noon(), updated_at: at(1775649601) }
}

fn stored(id: &str, deleted: bool) -> ProjectFile {
    ProjectFile {
        identity: identity(id),
        deleted_at: if deleted { Some(noon()) } else { None },
    }
}

fn project(id: &str, root: &str) -> Project {
    Project {
        id: id.into(),
        root: root.into(),
        archived_at: None,
        created_at: noon(),
        updated_at: at(1775649601),
    }
}

fn candidates(start: &Path) -> Vec<(PathBuf, bool)> {
    start
        .ancestors()
        .map(|dir| {
            let candidate = dir.join(".gest");
            let is_dir = candidate.is_dir();
            (candidate, is_dir)
        })
        .collect()
}

fn subdir(root: &Path, name: &str) -> tempfile::TempDir {
    tempfile::Builder::new().prefix(name).rand_bytes(0).tempdir_in(root).unwrap()
}

#[test]
fn it_returns_it_when_gest_dir_at_start() {
    let tmp = tempfile::tempdir().unwrap();
    let root = tmp.path().to_path_buf();
    let gest = subdir(&root, ".gest");

    assert_eq!(find_gest_dir(candidates(&root)), Some(gest.path().to_path_buf()));
}

#[test]
fn it_returns_it_when_gest_dir_in_ancestor() {
    let tmp = tempfile::tempdir().unwrap();
    let ancestor = tmp.path().to_path_buf();
    let gest = subdir(&ancestor, ".gest");
    let child = ancestor.join("sub/dir");

    assert_eq!(find_gest_dir(candidates(&child)), Some(gest.path().to_path_buf()));
}

#[test]
fn it_returns_none_when_no_gest_dir() {
    let tmp = tempfile::tempdir().unwrap();
    let root = tmp.path().to_path_buf();

    assert_eq!(find_gest_dir(candidates(&root)), None);
}

#[test]
fn the_nearest_gest_dir_is_picked() {
    let list = vec![("/a/b/.gest", false), ("/a/.gest", true), ("/.gest", true)];
    assert_eq!(find_gest_dir(list), Some("/a/.gest"));
}

#[test]
fn archived_projects_are_listed_on_request() {
    let active = all(false);
    assert_eq!(
        active.sql,
        "SELECT id, root, archived_at, created_at, updated_at FROM projects WHERE archived_at IS NULL ORDER BY created_at DESC"
    );
    assert!(active.params.is_empty());
    assert_eq!(
        all(true).sql,
        "SELECT id, root, archived_at, created_at, updated_at FROM projects ORDER BY created_at DESC"
    );
}

#[test]
fn archiving_is_one_operation() {
    let [begin, mark, detach, commit] = archive_at("p", &noon());
    assert_eq!(begin.sql, "BEGIN");
    assert_eq!(mark.sql, "UPDATE projects SET archived_at = ?1, updated_at = ?1 WHERE id = ?2");
    assert_eq!(mark.params, vec![NOON, "p"]);
    assert_eq!(detach.sql, "DELETE FROM project_workspaces WHERE project_id = ?1");
    assert_eq!(detach.params, vec!["p"]);
    assert_eq!(commit.sql, "COMMIT");
    assert!(begin.params.is_empty() && commit.params.is_empty());
    assert_eq!(rollback().sql, "ROLLBACK");
    let [_, mark, _, _] = archive("p");
    assert_eq!(mark.params[1], "p");
    assert!(mark.params[0].ends_with("+00:00"));
}

#[test]
fn unarchiving_clears_the_mark() {
    let clear = unarchive_at("p", &noon());
    assert_eq!(clear.sql, "UPDATE projects SET archived_at = NULL, updated_at = ?1 WHERE id = ?2");
    assert_eq!(clear.params, vec![NOON, "p"]);
    assert_eq!(unarchive("p").params[1], "p");
}

#[test]
fn workspaces_are_attached_and_detached() {
    let (workspace, insert) = attach_workspace(identity("w"), "p", "/tmp/ws1");
    assert_eq!(workspace.id, "w");
    assert_eq!(workspace.project_id, "p");
    assert_eq!(workspace.path, "/tmp/ws1");
    assert_eq!(
        insert.sql,
        "INSERT INTO project_workspaces (id, project_id, path, created_at, updated_at) VALUES (?1, ?2, ?3, ?4, ?5)"
    );
    assert_eq!(insert.params, vec!["w", "p", "/tmp/ws1", NOON, "2026-04-08T12:00:01+00:00"]);
    let gone = detach_workspace("/tmp/ws1");
    assert_eq!(gone.sql, "DELETE FROM project_workspaces WHERE path = ?1");
    assert_eq!(gone.params, vec!["/tmp/ws1"]);
    assert!(detached(1));
    assert!(!detached(0));
}

#[test]
fn projects_are_found_by_id_and_path() {
    let by_id = find_by_id("p");
    assert_eq!(
        by_id.sql,
        "SELECT id, root, archived_at, created_at, updated_at FROM projects WHERE id = ?1"
    );
    assert_eq!(by_id.params, vec!["p"]);
    let by_path = find_by_path("/tmp/my-project");
    assert_eq!(
        by_path.sql,
        "SELECT DISTINCT p.id, p.root, p.archived_at, p.created_at, p.updated_at FROM projects p LEFT JOIN project_workspaces pw ON pw.project_id = p.id WHERE p.root = ?1 OR pw.path = ?1 LIMIT 1"
    );
    assert_eq!(by_path.params, vec!["/tmp/my-project"]);
}

#[test]
fn entities_are_counted() {
    let asked = entity_counts("p");
    assert_eq!(asked[0].sql, "SELECT COUNT(*) FROM artifacts WHERE project_id = ?1");
    assert_eq!(asked[1].sql, "SELECT COUNT(*) FROM iterations WHERE project_id = ?1");
    assert_eq!(asked[2].sql, "SELECT COUNT(*) FROM tasks WHERE project_id = ?1");
    assert_eq!(asked[3].sql, "SELECT COUNT(*) FROM project_workspaces WHERE project_id = ?1");
    assert_eq!(asked[3].sql, count_project_workspaces("p").sql);
    assert_eq!(asked[2].params, count_owned(Table::Tasks, "p").params);
    let counts = EntityCounts::read([Some(1), Some(2), None, Some(4)]);
    assert_eq!(counts, EntityCounts { artifacts: 1, iterations: 2, tasks: 0, workspaces: 4 });
    assert_eq!(EntityCounts::default(), EntityCounts::read([None, None, None, None]));
    assert_eq!(counted(Some(7)), 7);
}

#[test]
fn fresh_projects_get_fresh_identities() {
    let creation = create("/tmp/created", None, identity("fresh"));
    assert_eq!(creation.id(), "fresh");
    let insert = creation.insert();
    assert_eq!(
        insert.sql,
        "INSERT INTO projects (id, root, created_at, updated_at) VALUES (?1, ?2, ?3, ?4)"
    );
    assert_eq!(insert.params, vec!["fresh", "/tmp/created", NOON, "2026-04-08T12:00:01+00:00"]);
    let (found, file) = creation.created(Some(project("fresh", "/tmp/created")), false).unwrap();
    assert_eq!(found.root, "/tmp/created");
    assert!(file.is_none());
}

#[test]
fn checkouts_share_the_identity() {
    let first = project("shared", "/home/one");
    let file = project_file(&first);
    assert_eq!(find_or_create_from_synced_project(&Some(file)), Some(&"shared".to_string()));
    let creation = create("/home/two", Some(project_file(&first)), identity("fresh"));
    assert_eq!(creation.id(), "shared");
    assert_eq!(creation.insert().params[1], "/home/two");
    let (_, written) = creation.created(Some(project("shared", "/home/two")), true).unwrap();
    let written = written.unwrap();
    assert_eq!(written.identity.id, "shared");
    assert_eq!(written.identity.created_at.to_rfc3339(), NOON);
    assert!(written.deleted_at.is_none());
}

#[test]
fn a_project_that_vanishes_is_an_error() {
    let creation = create("/tmp/x", None, identity("x"));
    let error = creation.created(None, true).unwrap_err();
    assert!(matches!(
        error,
        Error::InvalidValue(reason) if reason == "project not found after insert"
    ));
}

#[test]
fn deleted_projects_stay_deleted() {
    assert_eq!(find_or_create_from_synced_project(&Some(stored("p", true))), None);
    assert_eq!(find_or_create_from_synced_project(&None), None);
}

#[test]
fn synced_projects_are_made_once() {
    let file = || stored("p", false);
    assert!(matches!(
        synced_project(Some(project("p", "/r")), "/other", file()),
        SyncedProject::Found(found) if found.id == "p" && found.root == "/r"
    ));
    match synced_project(None, "/r", file()) {
        SyncedProject::Create(creation) => {
            assert_eq!(creation.id(), "p");
            assert_eq!(
                creation.insert().params,
                vec!["p", "/r", NOON, "2026-04-08T12:00:01+00:00"]
            );
        }
        other => panic!("{other:?}"),
    }
    assert_eq!(synced_creation("/r", file()).id(), "p");
}

#[test]
fn the_nearest_project_file_is_read() {
    let files = vec![("/a/b/.gest", false), ("/a/.gest", true), ("/.gest", true)];
    assert_eq!(find_project_file(files.clone()), Some("/a/.gest"));
    let dirs = vec![("/a/b/.gest", true), ("/a/.gest", true), ("/.gest", true)];
    assert!(matches!(find_home(files, dirs.clone()), Home::Stored("/a/.gest")));
    let none = vec![("/a/b/.gest", false), ("/a/.gest", false)];
    assert_eq!(find_project_file(none.clone()), None);
    assert!(matches!(find_home(none.clone(), dirs), Home::Empty("/a/b/.gest")));
    assert!(matches!(find_home(none.clone(), none), Home::Nowhere));
}

#[test]
fn ids_are_collected() {
    let asked = owned_ids("p");
    assert_eq!(asked[0].sql, "SELECT id FROM tasks WHERE project_id = ?1");
    assert_eq!(asked[1].sql, "SELECT id FROM iterations WHERE project_id = ?1");
    assert_eq!(asked[2].sql, "SELECT id FROM artifacts WHERE project_id = ?1");
    assert_eq!(asked[2].params, collect_entity_ids(Table::Artifacts, "p").params);
    assert_eq!(collected(Ok("id".into())).unwrap(), "id");
    assert!(matches!(
        collected(Err("bad id".into())),
        Err(Error::InvalidValue(reason)) if reason == "bad id"
    ));
}

fn shown(step: &DeleteStep) -> String {
    match step {
        DeleteStep::Execute(statement) => format!("{} {:?}", statement.sql, statement.params),
        DeleteStep::Cascade { transaction_id, kind, id } => {
            format!("cascade {transaction_id} {kind:?} {id}")
        }
        DeleteStep::Tombstone { kind, id } => format!("tombstone {kind:?} {id}"),
        DeleteStep::TombstoneProject => "tombstone project".to_string(),
    }
}

#[test]
fn deletion_removes_the_project_and_nothing_else() {
    let owned = OwnedIds {
        artifacts: vec!["a1".into()],
        iterations: vec!["i1".into()],
        tasks: vec!["t1".into(), "t2".into()],
    };
    let dirs = SyncDirs {
        artifact: "artifact".into(),
        iteration: "iteration".into(),
        task: "task".into(),
    };
    let (steps, summary) = delete("p", &owned, "tx", &noon(), &dirs);
    let shown: Vec<String> = steps.iter().map(shown).collect();
    assert_eq!(
        shown,
        vec![
            "INSERT INTO transactions (id, project_id, command, created_at) VALUES (?1, ?2, ?3, ?4) [\"tx\", \"p\", \"project delete\", \"2026-04-08T12:00:00+00:00\"]",
            "cascade tx Task t1",
            "tombstone Task t1",
            "DELETE FROM sync_digests WHERE relative_path = ?1 AND project_id = ?2 [\"task/t1.yaml\", \"p\"]",
            "cascade tx Task t2",
            "tombstone Task t2",
            "DELETE FROM sync_digests WHERE relative_path = ?1 AND project_id = ?2 [\"task/t2.yaml\", \"p\"]",
            "cascade tx Iteration i1",
            "tombstone Iteration i1",
            "DELETE FROM sync_digests WHERE relative_path = ?1 AND project_id = ?2 [\"iteration/i1.yaml\", \"p\"]",
            "cascade tx Artifact a1",
            "tombstone Artifact a1",
            "DELETE FROM sync_digests WHERE relative_path = ?1 AND project_id = ?2 [\"artifact/a1.md\", \"p\"]",
            "tombstone project",
            "DELETE FROM transaction_events WHERE transaction_id IN (SELECT id FROM transactions WHERE project_id = ?1) [\"p\"]",
            "DELETE FROM transactions WHERE project_id = ?1 [\"p\"]",
            "DELETE FROM project_workspaces WHERE project_id = ?1 [\"p\"]",
            "DELETE FROM projects WHERE id = ?1 [\"p\"]",
        ]
    );
    assert_eq!(
        summary,
        DeleteSummary { artifacts: 1, iterations: 1, tasks: 2, ..DeleteSummary::default() }
    );
}

#[test]
fn summaries_add_up() {
    let mut summary = DeleteSummary::default();
    summary.count(&CascadeReport { notes: 1, relationships: 2, tags: 3 });
    summary.count(&CascadeReport { notes: 4, relationships: 0, tags: 1 });
    assert_eq!(summary.notes, 5);
    assert_eq!(summary.relationships, 2);
    assert_eq!(summary.tags, 4);
    assert_eq!(summary.tasks, 0);
}

#[test]
fn digests_are_forgotten_by_path_and_project() {
    let forget = invalidate_sync_digest("p", "task/t1.yaml");
    assert_eq!(forget.params, vec!["task/t1.yaml", "p"]);
}
