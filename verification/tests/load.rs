use gest::model::{EntityType, RelationshipType};
use gest::store::statement::placeholders;
use gest::time::Timestamp;
use gest::web::mermaid::build_mermaid;
use gest::web::nodes::{IterationNode, RelationshipEdge, TaskNode};
use gest::web::load::{load_graph_data, IterationRow, PlaceRow};

fn row(id: &str, secs: i64, title: &str) -> IterationRow {
    IterationRow {
        node: IterationNode { id: id.into(), status: "active".into(), title: title.into() },
        created_at: Timestamp::new(secs, 0).unwrap(),
    }
}

fn place(iteration_id: &str, phase: i64, task_id: &str) -> PlaceRow {
    PlaceRow { iteration_id: iteration_id.into(), task_id: task_id.into(), phase }
}

fn task(id: &str, title: &str) -> TaskNode {
    TaskNode { id: id.into(), priority: None, status: "open".into(), title: title.into() }
}

fn link(rel_type: RelationshipType, source_id: &str, target_id: &str) -> RelationshipEdge {
    RelationshipEdge {
        rel_type,
        source_id: source_id.into(),
        source_type: EntityType::Task,
        target_id: target_id.into(),
        target_type: EntityType::Task,
    }
}

#[test]
fn it_builds_a_project_relationship_graph_from_iterations_tasks_and_links() {
    let load = load_graph_data("project", false);
    let load = load.with_iterations(&vec![row("iter", 1, "Graph iteration")]);
    let load = load.with_places(&vec![place("iter", 2, "child")]);
    let load = load.with_relationships(vec![link(RelationshipType::ChildOf, "child", "parent")]);
    let data = load.with_tasks(&vec![task("parent", "Parent task"), task("child", "Child task")]);

    let graph = build_mermaid(
        &data.iterations,
        &data.tasks,
        &data.iteration_tasks,
        &data.relationships,
        "TB",
        true,
    );

    assert!(graph.contains("Graph iteration"));
    assert!(graph.contains("Parent task"));
    assert!(graph.contains("Child task"));
    assert!(graph.contains("-- \"phase 2\" -->"));
    assert!(graph.contains("-- \"parent of\" -->"));
}

#[test]
fn iterations_go_from_the_oldest_to_the_newest() {
    let rows = vec![row("c", 30, ""), row("a", 10, ""), row("b", 20, ""), row("a2", 10, "")];
    let load = load_graph_data("p", true).with_iterations(&rows);
    let ids: Vec<&str> = load.iterations.iter().map(|node| node.id.as_str()).collect();
    assert_eq!(ids, vec!["a", "a2", "b", "c"]);
}

#[test]
fn nothing_is_asked_where_there_is_nothing() {
    let load = load_graph_data("p", false).with_iterations(&Vec::new());
    assert!(load.statement().is_none());
    let load = load.with_places(&Vec::new());
    assert!(load.statement().is_none());
    let load = load.with_relationships(Vec::new());
    assert!(load.statement().is_none());
    let data = load.with_tasks(&Vec::new());
    assert_eq!(data.tasks.len(), 0);
}

#[test]
fn statements_name_what_they_need() {
    let load = load_graph_data("p", false).with_iterations(&vec![row("i1", 1, ""), row("i2", 2, "")]);
    let asked = load.statement().unwrap();
    assert_eq!(
        asked.sql,
        "SELECT iteration_id, task_id, phase FROM iteration_tasks WHERE iteration_id IN (?1, ?2) ORDER BY iteration_id, phase, created_at"
    );
    assert_eq!(asked.params, vec!["i1", "i2"]);
    let load = load.with_places(&vec![
        place("i1", 1, "b"),
        place("i2", 1, "a"),
        place("i2", 2, "b"),
    ]);
    let asked = load.statement().unwrap();
    assert_eq!(
        asked.sql,
        "SELECT id, rel_type, source_id, source_type, target_id, target_type, created_at, updated_at FROM relationships WHERE (source_type = 'task' AND source_id IN (?1, ?2)) OR (target_type = 'task' AND target_id IN (?1, ?2)) ORDER BY rel_type, created_at"
    );
    assert_eq!(asked.params, vec!["a", "b", "a", "b"]);
    let load = load.with_relationships(vec![link(RelationshipType::Blocks, "c", "a")]);
    let asked = load.statement().unwrap();
    assert_eq!(
        asked.sql,
        "SELECT id, project_id, title, priority, status, description, assigned_to, metadata, resolved_at, created_at, updated_at FROM tasks WHERE project_id = ?1 AND id IN (?2, ?3, ?4) AND status NOT IN ('done', 'cancelled') ORDER BY created_at, title"
    );
    assert_eq!(asked.params, vec!["p", "a", "b", "c"]);
}

#[test]
fn all_tasks_are_asked_for_on_request() {
    let load = load_graph_data("p", true).with_iterations(&vec![row("i1", 1, "")]);
    let load = load.with_places(&vec![place("i1", 1, "a")]).with_relationships(Vec::new());
    let asked = load.statement().unwrap();
    assert!(asked.sql.ends_with("AND id IN (?2) ORDER BY created_at, title"));
}

#[test]
fn loaded_data_is_closed() {
    let load = load_graph_data("p", false).with_iterations(&vec![row("i1", 1, "")]);
    let load = load.with_places(&vec![place("i1", 1, "a"), place("i1", 1, "done")]);
    let mut elsewhere = link(RelationshipType::RelatesTo, "a", "artifact");
    elsewhere.target_type = EntityType::Artifact;
    let load = load.with_relationships(vec![
        link(RelationshipType::Blocks, "a", "done"),
        link(RelationshipType::Blocks, "a", "b"),
        elsewhere,
    ]);
    let data = load.with_tasks(&vec![task("b", "B"), task("a", "A")]);
    assert_eq!(data.iterations.len(), 1);
    assert_eq!(data.tasks.len(), 2);
    assert_eq!(data.tasks.get(0).id, "a");
    assert_eq!(data.iteration_tasks.len(), 1);
    assert_eq!(data.iteration_tasks[0].task_id, "a");
    assert_eq!(data.relationships.len(), 2);
    assert_eq!(data.relationships[0].target_id, "b");
    assert_eq!(data.relationships[1].target_id, "artifact");
}

#[test]
fn phases_are_read_as_unsigned_numbers() {
    let load = load_graph_data("p", false).with_iterations(&vec![row("i1", 1, "")]);
    let load = load.with_places(&vec![place("i1", 7, "a"), place("i1", -1, "b")]);
    assert_eq!(load.edges[0].phase, 7);
    assert_eq!(load.edges[1].phase, 4294967295);
}

#[test]
fn placeholders_are_numbered() {
    assert_eq!(placeholders(3, 1), "?1, ?2, ?3");
    assert_eq!(placeholders(2, 9), "?9, ?10");
    assert_eq!(placeholders(0, 1), "");
}

#[test]
fn points_in_time_are_written_as_rfc_3339() {
    let at = Timestamp::new(1775649600, 0).unwrap();
    assert_eq!(at.to_rfc3339(), "2026-04-08T12:00:00+00:00");
    assert_eq!(at.secs(), 1775649600);
    let later = Timestamp::new(1775649600, 500_000_000).unwrap();
    assert_eq!(later.to_rfc3339(), "2026-04-08T12:00:00.500+00:00");
    assert_eq!(later.nanos(), 500_000_000);
    assert!(later.after(&at));
    assert!(!at.after(&later));
    assert!(!at.after(&at.clone()));
    assert!(Timestamp::new(i64::MAX, 0).is_none());
}

#[test]
fn the_present_is_a_point_in_time() {
    let before = chrono::Utc::now().timestamp();
    let now = Timestamp::now();
    let after = chrono::Utc::now().timestamp();
    assert!(before <= now.secs() && now.secs() <= after);
    let same = Timestamp::new(now.secs(), now.nanos()).unwrap();
    assert_eq!(now.to_rfc3339(), same.to_rfc3339());
}
