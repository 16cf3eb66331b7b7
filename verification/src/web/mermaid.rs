//! Graphs as Mermaid text.
use vstd::prelude::*;

use crate::model::{EntityType, RelationshipType};
use crate::seqs::lemma_filter_take;
use crate::text::{decimal, decimal_text, first_chars, join, join_text, take_chars, texts};
use crate::web::label::{
    escape_label, escaped, label, label_text, mermaid_class_for_status, node_id, node_name,
    status_class, wrapped, wrapped_title,
};
use crate::web::nodes::{
    has_task, iteration_task_views, iteration_views, relationship_views, IterationNode,
    IterationTaskEdge, IterationTaskView, IterationView, RelationshipEdge, RelationshipView,
    TaskNode, TaskTable, TaskView,
};

verus! {

/// The lines that begin every graph: its direction and its style classes.
pub open spec fn header_lines(direction: Seq<char>) -> Seq<Seq<char>> {
    seq![
        "flowchart "@ + direction,
        "  classDef iteration fill:#17324d,stroke:#4EA8E0,color:#f6fbff;"@,
        "  classDef active fill:#17324d,stroke:#4EA8E0,color:#f6fbff;"@,
        "  classDef open fill:#2f2f2f,stroke:#C4C8D4,color:#ffffff;"@,
        "  classDef progress fill:#463814,stroke:#CC9820,color:#fff8db;"@,
        "  classDef done fill:#20382f,stroke:#36BE78,color:#f1fff3;"@,
        "  classDef cancelled fill:#3d2525,stroke:#D05830,color:#fff4f4;"@,
    ]
}

/// The lines that draw an iteration; one more draws the arrow from the
/// iteration before it, where there is one to draw.
pub open spec fn iteration_block(
    node: IterationView,
    previous: Option<Seq<char>>,
) -> Seq<Seq<char>> {
    let ident = node_name("I"@, node.id);
    let own = seq![
        "  "@ + ident + "[\""@ + label_text(
            seq![first_chars(node.id, 8), wrapped(node.title), node.status],
        ) + "\"]"@,
        "  class "@ + ident + " iteration;"@,
        "  click "@ + ident + " \"/iterations/"@ + node.id + "\" _self"@,
    ];
    match previous {
        Some(id) => own.push(
            "  "@ + node_name("I"@, id) + " -. \"next iteration\" .-> "@ + ident,
        ),
        None => own,
    }
}

/// The lines that draw iterations, each linked to the one before it where
/// they are stacked.
pub open spec fn iteration_lines(iterations: Seq<IterationView>, stacked: bool) -> Seq<Seq<char>>
    decreases iterations.len(),
{
    if iterations.len() == 0 {
        Seq::empty()
    } else {
        let previous = if stacked && iterations.len() > 1 {
            Some(iterations[iterations.len() - 2].id)
        } else {
            None
        };
        iteration_lines(iterations.drop_last(), stacked) + iteration_block(
            iterations.last(),
            previous,
        )
    }
}

/// A priority as a label shows it; nothing where there is none.
pub open spec fn priority_text(priority: Option<u8>) -> Seq<char> {
    match priority {
        Some(p) => "P"@ + decimal_text(p as nat),
        None => Seq::empty(),
    }
}

/// The lines that draw a task.
pub open spec fn task_block(task: TaskView) -> Seq<Seq<char>> {
    let ident = node_name("T"@, task.id);
    seq![
        "  "@ + ident + "[\""@ + label_text(
            seq![
                first_chars(task.id, 8),
                wrapped(task.title),
                task.status,
                priority_text(task.priority),
            ],
        ) + "\"]"@,
        "  class "@ + ident + " "@ + status_class(task.status) + ";"@,
        "  click "@ + ident + " \"/tasks/"@ + task.id + "\" _self"@,
    ]
}

/// The lines that draw tasks.
pub open spec fn task_lines(tasks: Seq<TaskView>) -> Seq<Seq<char>>
    decreases tasks.len(),
{
    if tasks.len() == 0 {
        Seq::empty()
    } else {
        task_lines(tasks.drop_last()) + task_block(tasks.last())
    }
}

/// The line that draws a task's place in a phase.
pub open spec fn phase_line(edge: IterationTaskView) -> Seq<char> {
    "  "@ + node_name("I"@, edge.iteration_id) + " -- \"phase "@ + decimal_text(edge.phase as nat)
        + "\" --> "@ + node_name("T"@, edge.task_id)
}

/// The lines that draw the places in phases of those tasks that are drawn.
pub open spec fn phase_lines(
    edges: Seq<IterationTaskView>,
    tasks: Seq<TaskView>,
) -> Seq<Seq<char>> {
    edges.filter(|edge: IterationTaskView| has_task(tasks, edge.task_id)).map_values(
        |edge: IterationTaskView| phase_line(edge),
    )
}

/// How a relationship is drawn: from where, to where, and what stands on the
/// arrow. One and the same arrow is drawn for a relationship and its inverse.
pub open spec fn display_of(rel: RelationshipView) -> (Seq<char>, Seq<char>, Seq<char>) {
    match rel.rel_type {
        RelationshipType::ChildOf => (rel.target_id, rel.source_id, "parent of"@),
        RelationshipType::ParentOf => (rel.source_id, rel.target_id, "parent of"@),
        RelationshipType::BlockedBy => (rel.target_id, rel.source_id, "blocks"@),
        RelationshipType::Blocks => (rel.source_id, rel.target_id, "blocks"@),
        RelationshipType::RelatesTo => (rel.source_id, rel.target_id, "relates to"@),
    }
}

/// Whether a relationship is drawn: it links two tasks that are both drawn.
pub open spec fn is_drawn(rel: RelationshipView, tasks: Seq<TaskView>) -> bool {
    &&& rel.source_type == EntityType::Task
    &&& rel.target_type == EntityType::Task
    &&& has_task(tasks, rel.source_id)
    &&& has_task(tasks, rel.target_id)
}

/// The line that draws a relationship.
pub open spec fn relationship_line(rel: RelationshipView) -> Seq<char> {
    let (source, target, name) = display_of(rel);
    "  "@ + node_name("T"@, source) + " -- \""@ + escaped(name) + "\" --> "@ + node_name(
        "T"@,
        target,
    )
}

/// The lines that draw relationships.
pub open spec fn relationship_lines(
    relationships: Seq<RelationshipView>,
    tasks: Seq<TaskView>,
) -> Seq<Seq<char>> {
    relationships.filter(|rel: RelationshipView| is_drawn(rel, tasks)).map_values(
        |rel: RelationshipView| relationship_line(rel),
    )
}

/// The lines of a graph.
pub open spec fn graph_lines(
    iterations: Seq<IterationView>,
    tasks: Seq<TaskView>,
    iteration_tasks: Seq<IterationTaskView>,
    relationships: Seq<RelationshipView>,
    direction: Seq<char>,
    stacked: bool,
) -> Seq<Seq<char>> {
    header_lines(direction) + iteration_lines(iterations, stacked) + task_lines(tasks)
        + phase_lines(iteration_tasks, tasks) + relationship_lines(relationships, tasks)
}

/// The text of a graph.
pub open spec fn mermaid_text(
    iterations: Seq<IterationView>,
    tasks: Seq<TaskView>,
    iteration_tasks: Seq<IterationTaskView>,
    relationships: Seq<RelationshipView>,
    direction: Seq<char>,
    stacked: bool,
) -> Seq<char> {
    join_text(
        graph_lines(iterations, tasks, iteration_tasks, relationships, direction, stacked),
        "\n"@,
    )
}

/// Says how a relationship is drawn.
pub fn relationship_display(rel: &RelationshipEdge) -> (res: (&str, &str, &'static str))
    ensures
        (res.0@, res.1@, res.2@) == display_of(rel@),
{
    match rel.rel_type {
        RelationshipType::ChildOf => (rel.target_id.as_str(), rel.source_id.as_str(), "parent of"),
        RelationshipType::ParentOf => (rel.source_id.as_str(), rel.target_id.as_str(), "parent of"),
        RelationshipType::BlockedBy => (rel.target_id.as_str(), rel.source_id.as_str(), "blocks"),
        RelationshipType::Blocks => (rel.source_id.as_str(), rel.target_id.as_str(), "blocks"),
        RelationshipType::RelatesTo => (
            rel.source_id.as_str(),
            rel.target_id.as_str(),
            "relates to",
        ),
    }
}

/// Adds the lines that begin every graph.
fn push_header(lines: &mut Vec<String>, direction: &str)
    requires
        old(lines)@.len() == 0,
    ensures
        texts(final(lines)@) == header_lines(direction@),
{
    lines.push("flowchart ".to_owned().concat(direction));
    lines.push("  classDef iteration fill:#17324d,stroke:#4EA8E0,color:#f6fbff;".to_owned());
    lines.push("  classDef active fill:#17324d,stroke:#4EA8E0,color:#f6fbff;".to_owned());
    lines.push("  classDef open fill:#2f2f2f,stroke:#C4C8D4,color:#ffffff;".to_owned());
    lines.push("  classDef progress fill:#463814,stroke:#CC9820,color:#fff8db;".to_owned());
    lines.push("  classDef done fill:#20382f,stroke:#36BE78,color:#f1fff3;".to_owned());
    lines.push("  classDef cancelled fill:#3d2525,stroke:#D05830,color:#fff4f4;".to_owned());
    assert(texts(lines@) =~= header_lines(direction@));
}

/// Adds the lines that draw an iteration.
fn push_iteration(lines: &mut Vec<String>, node: &IterationNode, previous: Option<&str>)
    ensures
        texts(final(lines)@) == texts(old(lines)@) + iteration_block(
            node@,
            match previous {
                Some(id) => Some(id@),
                None => None,
            },
        ),
{
    let ident = node_id("I", node.id.as_str());
    let mut parts: Vec<String> = Vec::new();
    parts.push(take_chars(node.id.as_str(), 8));
    parts.push(wrapped_title(node.title.as_str()));
    parts.push(node.status.clone());
    assert(texts(parts@) =~= seq![
        first_chars(node@.id, 8),
        wrapped(node@.title),
        node@.status,
    ]);
    let name = label(parts);
    lines.push(
        "  ".to_owned().concat(ident.as_str()).concat("[\"").concat(name.as_str()).concat("\"]"),
    );
    lines.push("  class ".to_owned().concat(ident.as_str()).concat(" iteration;"));
    lines.push(
        "  click ".to_owned().concat(ident.as_str()).concat(" \"/iterations/").concat(
            node.id.as_str(),
        ).concat("\" _self"),
    );
    match previous {
        Some(id) => {
            let from = node_id("I", id);
            lines.push(
                "  ".to_owned().concat(from.as_str()).concat(
                    " -. \"next iteration\" .-> ",
                ).concat(ident.as_str()),
            );
            assert(texts(lines@) =~= texts(old(lines)@) + iteration_block(node@, Some(id@)));
        },
        None => {
            assert(texts(lines@) =~= texts(old(lines)@) + iteration_block(node@, None));
        },
    }
}

/// Adds the lines that draw a task.
fn push_task(lines: &mut Vec<String>, task: &TaskNode)
    ensures
        texts(final(lines)@) == texts(old(lines)@) + task_block(task@),
{
    let ident = node_id("T", task.id.as_str());
    let priority = match task.priority {
        Some(p) => {
            let number = decimal(p as u128);
            "P".to_owned().concat(number.as_str())
        },
        None => String::new(),
    };
    let mut parts: Vec<String> = Vec::new();
    parts.push(take_chars(task.id.as_str(), 8));
    parts.push(wrapped_title(task.title.as_str()));
    parts.push(task.status.clone());
    parts.push(priority);
    assert(texts(parts@) =~= seq![
        first_chars(task@.id, 8),
        wrapped(task@.title),
        task@.status,
        priority_text(task@.priority),
    ]);
    let name = label(parts);
    lines.push(
        "  ".to_owned().concat(ident.as_str()).concat("[\"").concat(name.as_str()).concat("\"]"),
    );
    lines.push(
        "  class ".to_owned().concat(ident.as_str()).concat(" ").concat(
            mermaid_class_for_status(task.status.as_str()),
        ).concat(";"),
    );
    lines.push(
        "  click ".to_owned().concat(ident.as_str()).concat(" \"/tasks/").concat(
            task.id.as_str(),
        ).concat("\" _self"),
    );
    assert(texts(lines@) =~= texts(old(lines)@) + task_block(task@));
}

/// Writes a graph: iterations, tasks, the places of tasks in phases and the
/// relationships between tasks. An arrow is drawn only to tasks that are
/// drawn themselves.
pub fn build_mermaid(
    iterations: &Vec<IterationNode>,
    tasks: &TaskTable,
    iteration_tasks: &Vec<IterationTaskEdge>,
    relationships: &Vec<RelationshipEdge>,
    direction: &str,
    stack_iterations: bool,
) -> (graph: String)
    ensures
        graph@ == mermaid_text(
            iteration_views(iterations@),
            tasks@,
            iteration_task_views(iteration_tasks@),
            relationship_views(relationships@),
            direction@,
            stack_iterations,
        ),
{
    let mut lines: Vec<String> = Vec::new();
    push_header(&mut lines, direction);
    let ghost head = texts(lines@);

    let ghost nodes = iteration_views(iterations@);
    let mut i: usize = 0;
    assert(nodes.take(0) =~= Seq::<IterationView>::empty());
    assert(texts(lines@) =~= head + iteration_lines(nodes.take(0), stack_iterations));
    while i < iterations.len()
        invariant
            i <= iterations.len(),
            nodes == iteration_views(iterations@),
            texts(lines@) == head + iteration_lines(nodes.take(i as int), stack_iterations),
        decreases iterations.len() - i,
    {
        let ghost before = texts(lines@);
        let previous: Option<&str> = if stack_iterations && i > 0 {
            Some(iterations[i - 1].id.as_str())
        } else {
            None
        };
        push_iteration(&mut lines, &iterations[i], previous);
        proof {
            let upto = nodes.take(i + 1);
            assert(upto.drop_last() =~= nodes.take(i as int));
            assert(upto.last() == iterations[i as int]@);
            if i > 0 {
                assert(upto[upto.len() - 2].id == iterations[i - 1].id@);
            }
            assert(texts(lines@) =~= head + iteration_lines(upto, stack_iterations));
        }
        i += 1;
    }
    assert(nodes.take(nodes.len() as int) =~= nodes);
    let ghost head = texts(lines@);

    let mut i: usize = 0;
    assert(tasks@.take(0) =~= Seq::<TaskView>::empty());
    assert(texts(lines@) =~= head + task_lines(tasks@.take(0)));
    let count: usize = tasks.len();
    while i < count
        invariant
            count == tasks@.len(),
            i <= count,
            texts(lines@) == head + task_lines(tasks@.take(i as int)),
        decreases count - i,
    {
        push_task(&mut lines, tasks.get(i));
        proof {
            assert(tasks@.take(i + 1).drop_last() =~= tasks@.take(i as int));
            assert(texts(lines@) =~= head + task_lines(tasks@.take(i + 1)));
        }
        i += 1;
    }
    assert(tasks@.take(tasks@.len() as int) =~= tasks@);
    let ghost head = texts(lines@);

    let ghost edges = iteration_task_views(iteration_tasks@);
    let ghost shown = |edge: IterationTaskView| has_task(tasks@, edge.task_id);
    let ghost draw = |edge: IterationTaskView| phase_line(edge);
    let mut i: usize = 0;
    proof {
        reveal(Seq::filter);
        assert(texts(lines@) =~= head + edges.take(0).filter(shown).map_values(draw));
    }
    while i < iteration_tasks.len()
        invariant
            i <= iteration_tasks.len(),
            edges == iteration_task_views(iteration_tasks@),
            shown == (|edge: IterationTaskView| has_task(tasks@, edge.task_id)),
            draw == (|edge: IterationTaskView| phase_line(edge)),
            texts(lines@) == head + edges.take(i as int).filter(shown).map_values(draw),
        decreases iteration_tasks.len() - i,
    {
        let edge = &iteration_tasks[i];
        let ghost kept = edges.take(i as int).filter(shown);
        let ghost before = texts(lines@);
        proof {
            lemma_filter_take(edges, shown, i as int);
        }
        if tasks.contains_key(edge.task_id.as_str()) {
            let from = node_id("I", edge.iteration_id.as_str());
            let number = decimal(edge.phase as u128);
            let to = node_id("T", edge.task_id.as_str());
            let line = "  ".to_owned().concat(from.as_str()).concat(" -- \"phase ").concat(
                number.as_str(),
            ).concat("\" --> ").concat(to.as_str());
            lines.push(line);
            proof {
                assert(texts(lines@) =~= before.push(line@));
                assert(kept.push(edge@).map_values(draw) =~= kept.map_values(draw).push(line@));
                assert(head + kept.map_values(draw).push(line@) =~= before.push(line@));
            }
        }
        i += 1;
    }
    assert(edges.take(edges.len() as int) =~= edges);
    let ghost head = texts(lines@);

    let ghost rels = relationship_views(relationships@);
    let ghost shown = |rel: RelationshipView| is_drawn(rel, tasks@);
    let ghost draw = |rel: RelationshipView| relationship_line(rel);
    let mut i: usize = 0;
    proof {
        reveal(Seq::filter);
        assert(texts(lines@) =~= head + rels.take(0).filter(shown).map_values(draw));
    }
    while i < relationships.len()
        invariant
            i <= relationships.len(),
            rels == relationship_views(relationships@),
            shown == (|rel: RelationshipView| is_drawn(rel, tasks@)),
            draw == (|rel: RelationshipView| relationship_line(rel)),
            texts(lines@) == head + rels.take(i as int).filter(shown).map_values(draw),
        decreases relationships.len() - i,
    {
        let rel = &relationships[i];
        let ghost kept = rels.take(i as int).filter(shown);
        let ghost before = texts(lines@);
        proof {
            lemma_filter_take(rels, shown, i as int);
        }
        if rel.source_type == EntityType::Task && rel.target_type == EntityType::Task
            && tasks.contains_key(rel.source_id.as_str()) && tasks.contains_key(
            rel.target_id.as_str(),
        ) {
            let (source, target, name) = relationship_display(rel);
            let from = node_id("T", source);
            let shown_name = escape_label(name);
            let to = node_id("T", target);
            let line = "  ".to_owned().concat(from.as_str()).concat(" -- \"").concat(
                shown_name.as_str(),
            ).concat("\" --> ").concat(to.as_str());
            lines.push(line);
            proof {
                assert(texts(lines@) =~= before.push(line@));
                assert(kept.push(rel@).map_values(draw) =~= kept.map_values(draw).push(line@));
                assert(head + kept.map_values(draw).push(line@) =~= before.push(line@));
            }
        }
        i += 1;
    }
    assert(rels.take(rels.len() as int) =~= rels);

    join(&lines, "\n")
}

} // verus!
