use gest::model::{EntityType, RelationshipType};
use gest::web::label::{escape_label, label, mermaid_class_for_status, node_id, wrapped_title};
use gest::web::mermaid::{build_mermaid, relationship_display};
use gest::web::nodes::{IterationNode, IterationTaskEdge, RelationshipEdge, TaskNode, TaskTable};
use gest::web::pages::{
    graph_phases, graph_relationships, parse_direction, parse_include_all, GraphParams,
};
use gest::web::phases::{
    build_phase_sections, iteration_phases, related_phase_graph, with_known_ends, GraphData,
};

fn iteration(id: &str, status: &str, title: &str) -> IterationNode {
    IterationNode { id: id.into(), status: status.into(), title: title.into() }
}

fn task(id: &str, priority: Option<u8>, status: &str, title: &str) -> TaskNode {
    TaskNode { id: id.into(), priority, status: status.into(), title: title.into() }
}

fn place(iteration_id: &str, phase: u32, task_id: &str) -> IterationTaskEdge {
    IterationTaskEdge { iteration_id: iteration_id.into(), phase, task_id: task_id.into() }
}

fn link(rel_type: RelationshipType, source_id: &str, target_id: &str) -> RelationshipEdge {
    RelationshipEdge {
        rel_type,
        source_id: source_id.into(),
        source_type: EntityType::Task,
        target_id: target_id.into(),
        target_type: EntityType::Task,
    }
}

fn table(nodes: Vec<TaskNode>) -> TaskTable {
    let mut table = TaskTable::new();
    for node in nodes {
        table.insert(node);
    }
    table
}

const HEADER: &str = "flowchart LR
  classDef iteration fill:#17324d,stroke:#4EA8E0,color:#f6fbff;
  classDef active fill:#17324d,stroke:#4EA8E0,color:#f6fbff;
  classDef open fill:#2f2f2f,stroke:#C4C8D4,color:#ffffff;
  classDef progress fill:#463814,stroke:#CC9820,color:#fff8db;
  classDef done fill:#20382f,stroke:#36BE78,color:#f1fff3;
  classDef cancelled fill:#3d2525,stroke:#D05830,color:#fff4f4;";

#[test]
fn it_sanitizes_graph_options() {
    assert_eq!(parse_direction(Some("LR")), "LR");
    assert_eq!(parse_direction(Some("sideways")), "TB");
    assert!(parse_include_all(Some("1")));
    assert!(!parse_include_all(Some("0")));
}

#[test]
fn every_known_direction_is_kept() {
    for direction in ["TD", "BT", "LR", "RL"] {
        assert_eq!(parse_direction(Some(direction)), direction);
    }
    assert_eq!(parse_direction(Some("TB")), "TB");
    assert_eq!(parse_direction(Some("lr")), "TB");
    assert_eq!(parse_direction(None), "TB");
}

#[test]
fn all_is_asked_for_by_four_words() {
    for value in ["1", "true", "yes", "all"] {
        assert!(parse_include_all(Some(value)));
    }
    assert!(!parse_include_all(Some("TRUE")));
    assert!(!parse_include_all(None));
}

#[test]
fn labels_are_escaped() {
    assert_eq!(escape_label("a\\b\"c\nd"), "a\\\\b\\\"c d");
    assert_eq!(escape_label("\\n"), "\\\\n");
    assert_eq!(escape_label(""), "");
}

#[test]
fn escaped_quotes_stand_behind_backslashes() {
    let text = escape_label("say \"hi\"\n\\\" twice");
    let chars: Vec<char> = text.chars().collect();
    assert!(!chars.contains(&'\n'));
    for i in 0..chars.len() {
        if chars[i] == '"' {
            let run = chars[..i].iter().rev().take_while(|c| **c == '\\').count();
            assert_eq!(run % 2, 1);
        }
    }
}

#[test]
fn different_labels_stay_different() {
    let list = ["\\", "\\\\", "\"", "\\\"", "a", ""];
    for a in list {
        for b in list {
            assert_eq!(escape_label(a) == escape_label(b), a == b);
        }
    }
}

#[test]
fn labels_leave_out_empty_parts() {
    let parts = vec!["abc".to_string(), String::new(), "x\"y".to_string()];
    assert_eq!(label(parts), "abc | x\\\"y");
    assert_eq!(label(Vec::new()), "");
}

#[test]
fn node_names_are_short() {
    assert_eq!(node_id("T", "abcdefghijklmnop"), "T_abcdefghijkl");
    assert_eq!(node_id("I", "short"), "I_short");
    assert_eq!(node_id("T", "ääääääääääääää"), "T_ääääääääääää");
}

#[test]
fn short_titles_stay_as_they_are() {
    assert_eq!(wrapped_title("  one two   three four "), "  one two   three four ");
}

#[test]
fn long_titles_are_wrapped() {
    assert_eq!(wrapped_title(" one two  three four\tfive "), "one two three four<br/>five");
    assert_eq!(
        wrapped_title("1 2 3 4 5 6 7 8 9"),
        "1 2 3 4<br/>5 6 7 8<br/>9"
    );
    assert_eq!(wrapped_title("1 2 3 4 5 6 7 8"), "1 2 3 4<br/>5 6 7 8");
}

#[test]
fn statuses_have_classes() {
    assert_eq!(mermaid_class_for_status("active"), "active");
    assert_eq!(mermaid_class_for_status("open"), "open");
    assert_eq!(mermaid_class_for_status("in-progress"), "progress");
    assert_eq!(mermaid_class_for_status("done"), "done");
    assert_eq!(mermaid_class_for_status("completed"), "done");
    assert_eq!(mermaid_class_for_status("cancelled"), "cancelled");
    assert_eq!(mermaid_class_for_status("blocked"), "open");
}

#[test]
fn relationships_are_shown_from_the_active_end() {
    let child = link(RelationshipType::ChildOf, "a", "b");
    assert_eq!(relationship_display(&child), ("b", "a", "parent of"));
    let parent = link(RelationshipType::ParentOf, "b", "a");
    assert_eq!(relationship_display(&parent), relationship_display(&child));
    let blocked = link(RelationshipType::BlockedBy, "a", "b");
    assert_eq!(relationship_display(&blocked), ("b", "a", "blocks"));
    let blocks = link(RelationshipType::Blocks, "b", "a");
    assert_eq!(relationship_display(&blocks), relationship_display(&blocked));
    let relates = link(RelationshipType::RelatesTo, "a", "b");
    assert_eq!(relationship_display(&relates), ("a", "b", "relates to"));
}

#[test]
fn a_graph_is_drawn_line_by_line() {
    let iterations = vec![
        iteration("iteration-one-long", "active", "First"),
        iteration("iter2", "", "Second \"quoted\""),
    ];
    let tasks = table(vec![
        task("taskb-0123456789", Some(2), "in-progress", "one two three four five"),
        task("taska", None, "done", "A"),
    ]);
    let places = vec![place("iter2", 3, "taska"), place("iter2", 3, "unknown")];
    let links = vec![
        link(RelationshipType::BlockedBy, "taska", "taskb-0123456789"),
        link(RelationshipType::Blocks, "taska", "unknown"),
    ];
    let graph = build_mermaid(&iterations, &tasks, &places, &links, "LR", true);
    let expected = "
  I_iteration-on[\"iteratio | First | active\"]
  class I_iteration-on iteration;
  click I_iteration-on \"/iterations/iteration-one-long\" _self
  I_iter2[\"iter2 | Second \\\"quoted\\\"\"]
  class I_iter2 iteration;
  click I_iter2 \"/iterations/iter2\" _self
  I_iteration-on -. \"next iteration\" .-> I_iter2
  T_taska[\"taska | A | done\"]
  class T_taska done;
  click T_taska \"/tasks/taska\" _self
  T_taskb-012345[\"taskb-01 | one two three four<br/>five | in-progress | P2\"]
  class T_taskb-012345 progress;
  click T_taskb-012345 \"/tasks/taskb-0123456789\" _self
  I_iter2 -- \"phase 3\" --> T_taska
  T_taskb-012345 -- \"blocks\" --> T_taska";
    assert_eq!(graph, format!("{HEADER}{expected}"));
}

#[test]
fn iterations_are_stacked_only_where_asked() {
    let iterations = vec![iteration("a", "active", "A"), iteration("b", "active", "B")];
    let graph = build_mermaid(&iterations, &TaskTable::new(), &Vec::new(), &Vec::new(), "TB", false);
    assert!(!graph.contains("next iteration"));
}

#[test]
fn an_empty_graph_has_its_header() {
    let graph = build_mermaid(&Vec::new(), &TaskTable::new(), &Vec::new(), &Vec::new(), "LR", true);
    assert_eq!(graph, HEADER);
}

#[test]
fn tables_keep_the_last_task_of_an_id_in_order() {
    let tasks = table(vec![
        task("b", None, "open", "first"),
        task("a", None, "open", "A"),
        task("b", Some(1), "done", "second"),
    ]);
    assert_eq!(tasks.len(), 2);
    assert_eq!(tasks.get(0).id, "a");
    assert_eq!(tasks.get(1).id, "b");
    assert_eq!(tasks.get(1).title, "second");
    assert!(tasks.contains_key("a"));
    assert!(!tasks.contains_key("c"));
    let some = tasks.select(&vec!["b".to_string(), "z".to_string()]);
    assert_eq!(some.len(), 1);
    assert_eq!(some.get(0).id, "b");
}

fn sample() -> GraphData {
    GraphData {
        iteration_tasks: vec![
            place("i1", 2, "a"),
            place("i1", 1, "b"),
            place("i1", 2, "c"),
            place("i3", 1, "d"),
        ],
        iterations: vec![
            iteration("i1", "active", "One"),
            iteration("i2", "active", "Empty"),
            iteration("i3", "active", "Three"),
        ],
        relationships: vec![
            link(RelationshipType::Blocks, "b", "a"),
            link(RelationshipType::RelatesTo, "c", "d"),
            link(RelationshipType::RelatesTo, "b", "e"),
        ],
        tasks: table(vec![
            task("a", None, "open", "A"),
            task("b", None, "open", "B"),
            task("c", None, "open", "C"),
            task("d", None, "open", "D"),
            task("e", None, "open", "E"),
        ]),
    }
}

#[test]
fn phases_are_ascending_without_repetition() {
    let data = sample();
    assert_eq!(iteration_phases(&data.iteration_tasks, "i1"), vec![1, 2]);
    assert_eq!(iteration_phases(&data.iteration_tasks, "i2"), Vec::<u32>::new());
    let many = vec![place("i", 5, "a"), place("i", 0, "b"), place("i", 5, "c"), place("i", 3, "d")];
    assert_eq!(iteration_phases(&many, "i"), vec![0, 3, 5]);
}

#[test]
fn sections_leave_out_iterations_without_tasks() {
    let data = sample();
    let sections = build_phase_sections(&data, "TB");
    assert_eq!(sections.len(), 2);
    assert_eq!(sections[0].iteration_id, "i1");
    assert_eq!(sections[0].iteration_title, "One");
    assert_eq!(sections[0].phases.len(), 2);
    assert_eq!(sections[0].phases[0].number, 1);
    assert_eq!(sections[0].phases[1].number, 2);
    assert_eq!(sections[1].iteration_id, "i3");
}

#[test]
fn sections_show_short_ids() {
    let data = GraphData {
        iteration_tasks: vec![place("0123456789", 1, "a")],
        iterations: vec![iteration("0123456789", "active", "One")],
        relationships: Vec::new(),
        tasks: table(vec![task("a", None, "open", "A")]),
    };
    let sections = build_phase_sections(&data, "TB");
    assert_eq!(sections[0].iteration_short_id, "01234567");
}

#[test]
fn phase_graphs_reach_the_other_ends() {
    let data = sample();
    let graph = related_phase_graph(&data, "i1", 2, "TB");
    assert_eq!(graph.title, "phase 2");
    assert_eq!(graph.task_count, 4);
    assert!(graph.mermaid.contains("T_b -- \"blocks\" --> T_a"));
    assert!(graph.mermaid.contains("T_c -- \"relates to\" --> T_d"));
    assert!(!graph.mermaid.contains("T_e"));
    assert!(!graph.mermaid.contains("next iteration"));
}

#[test]
fn relationships_with_other_kinds_belong_to_every_phase() {
    let mut data = sample();
    data.relationships = vec![RelationshipEdge {
        rel_type: RelationshipType::RelatesTo,
        source_id: "e".into(),
        source_type: EntityType::Task,
        target_id: "artifact".into(),
        target_type: EntityType::Artifact,
    }];
    let graph = related_phase_graph(&data, "i1", 1, "TB");
    assert_eq!(graph.task_count, 2);
    assert!(graph.mermaid.contains("T_e["));
    assert!(!graph.mermaid.contains("artifact"));
}

#[test]
fn links_to_unknown_tasks_are_dropped() {
    let links = vec![
        link(RelationshipType::Blocks, "a", "b"),
        link(RelationshipType::Blocks, "a", "gone"),
    ];
    let known = table(vec![task("a", None, "open", "A"), task("b", None, "open", "B")]);
    let kept = with_known_ends(&links, &known);
    assert_eq!(kept.len(), 1);
    assert_eq!(kept[0].target_id, "b");
}

#[test]
fn pages_follow_their_parameters() {
    let data = sample();
    let params = GraphParams { all: Some("yes".into()), direction: Some("RL".into()) };
    let page = graph_relationships(&params, &data);
    assert_eq!(page.direction, "RL");
    assert!(page.include_all);
    assert_eq!(page.graph.title, "project relationships");
    assert_eq!(page.graph.task_count, 5);
    assert!(page.graph.mermaid.starts_with("flowchart RL\n"));
    assert!(page.graph.mermaid.contains("I_i1 -. \"next iteration\" .-> I_i2"));
    let params = GraphParams { all: None, direction: None };
    let page = graph_phases(&params, &data);
    assert_eq!(page.direction, "TB");
    assert!(!page.include_all);
    assert_eq!(page.sections.len(), 2);
}
