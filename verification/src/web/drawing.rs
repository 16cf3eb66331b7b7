//! What a graph's text says, and how it grows with what is drawn.
use vstd::prelude::*;

use crate::model::{EntityType, RelationshipType};
use crate::text::laws::{joining_goes_list_by_list, joining_goes_text_by_text};
use crate::text::{decimal_text, first_chars, join_text, words_of};
use crate::web::label::{
    escaped, escaped_char, label_text, node_name, shown_parts, status_class, word_lines, wrapped,
};
use crate::web::mermaid::{
    graph_lines, header_lines, is_drawn, iteration_block, iteration_lines, mermaid_text, phase_line,
    phase_lines, priority_text, relationship_line, relationship_lines, task_block, task_lines,
};
use crate::web::nodes::{has_task, IterationTaskView, IterationView, RelationshipView, TaskView};

verus! {

/// Escaping goes character by character: a backslash or a double quote gets
/// one more backslash before it, a line end becomes a space, and every other
/// character stays.
pub proof fn escaping_goes_character_by_character(s: Seq<char>, c: char)
    ensures
        escaped(Seq::empty()) == Seq::<char>::empty(),
        c == '\\' ==> escaped(s.push(c)) == escaped(s) + seq!['\\', '\\'],
        c == '"' ==> escaped(s.push(c)) == escaped(s) + seq!['\\', '"'],
        c == '\n' ==> escaped(s.push(c)) == escaped(s).push(' '),
        c != '\\' && c != '"' && c != '\n' ==> escaped(s.push(c)) == escaped(s).push(c),
{
    assert(s.push(c).drop_last() =~= s);
    assert(escaped(s.push(c)) == escaped(s) + escaped_char(c));
}

/// A label shows its parts in order: an empty one is passed over, the first
/// that is shown begins the label, and each further one stands escaped behind
/// a bar.
pub proof fn labels_show_their_parts(parts: Seq<Seq<char>>, part: Seq<char>)
    ensures
        label_text(Seq::empty()) == Seq::<char>::empty(),
        part.len() == 0 ==> label_text(parts.push(part)) == label_text(parts),
        part.len() > 0 && (forall|i: int| 0 <= i < parts.len() ==> (#[trigger] parts[i]).len() == 0)
            ==> label_text(parts.push(part)) == escaped(part),
        part.len() > 0 && (exists|i: int| 0 <= i < parts.len() && (#[trigger] parts[i]).len() > 0)
            ==> label_text(parts.push(part)) == label_text(parts) + " | "@ + escaped(part),
{
    reveal(Seq::filter);
    let write = |p: Seq<char>| escaped(p);
    let empty = Seq::<Seq<char>>::empty();
    assert(shown_parts(empty).map_values(write) =~= empty);
    assert(parts.push(part).drop_last() =~= parts);
    let before = shown_parts(parts);
    lemma_shown_parts(parts);
    if part.len() > 0 {
        assert(shown_parts(parts.push(part)) == before.push(part));
        assert(before.push(part).map_values(write) =~= before.map_values(write).push(
            escaped(part),
        ));
        joining_goes_text_by_text(before.map_values(write), escaped(part), " | "@);
        if before.len() == 0 {
            assert(before.map_values(write).push(escaped(part)) =~= seq![escaped(part)]);
        }
    }
}

/// A label has parts to show where one of them is not empty.
proof fn lemma_shown_parts(parts: Seq<Seq<char>>)
    ensures
        shown_parts(parts).len() > 0 <==> exists|i: int|
            0 <= i < parts.len() && (#[trigger] parts[i]).len() > 0,
    decreases parts.len(),
{
    reveal(Seq::filter);
    if parts.len() > 0 {
        let rest = parts.drop_last();
        lemma_shown_parts(rest);
        if exists|i: int| 0 <= i < rest.len() && (#[trigger] rest[i]).len() > 0 {
            let i = choose|i: int| 0 <= i < rest.len() && (#[trigger] rest[i]).len() > 0;
            assert(parts[i].len() > 0);
        }
        if exists|i: int| 0 <= i < parts.len() && (#[trigger] parts[i]).len() > 0 {
            let i = choose|i: int| 0 <= i < parts.len() && (#[trigger] parts[i]).len() > 0;
            if i < rest.len() {
                assert(rest[i].len() > 0);
            }
        }
        if parts.last().len() > 0 {
            assert(parts[parts.len() - 1].len() > 0);
        }
    }
}

/// A node is named by its kind, an underscore and the first twelve characters
/// of its entity's id.
pub proof fn nodes_are_named_by_kind_and_id(kind: Seq<char>, id: Seq<char>)
    ensures
        id.len() <= 12 ==> node_name(kind, id) == kind + "_"@ + id,
        id.len() > 12 ==> node_name(kind, id) == kind + "_"@ + id.subrange(0, 12),
{
}

/// A title of up to four words is shown as it stands. A longer one is shown
/// as lines of four words, the last of which may have fewer, with single
/// spaces between words and line breaks between lines.
pub proof fn titles_break_behind_four_words(title: Seq<char>)
    ensures
        words_of(title).len() <= 4 ==> wrapped(title) == title,
        words_of(title).len() > 4 ==> exists|lines: Seq<Seq<char>>|
            {
                &&& wrapped(title) == join_text(lines, "<br/>"@)
                &&& 4 * (lines.len() - 1) < words_of(title).len() <= 4 * lines.len()
                &&& forall|k: int|
                    0 <= k < lines.len() ==> #[trigger] lines[k] == join_text(
                        words_of(title).subrange(
                            4 * k,
                            if k == lines.len() - 1 {
                                words_of(title).len() as int
                            } else {
                                4 * k + 4
                            },
                        ),
                        " "@,
                    )
            },
{
    let words = words_of(title);
    if words.len() > 4 {
        let lines = word_lines(words).map_values(|line: Seq<Seq<char>>| join_text(line, " "@));
        assert(wrapped(title) == join_text(lines, "<br/>"@));
        assert(lines.len() == (words.len() + 3) / 4);
        assert forall|k: int| 0 <= k < lines.len() implies #[trigger] lines[k] == join_text(
            words.subrange(
                4 * k,
                if k == lines.len() - 1 {
                    words.len() as int
                } else {
                    4 * k + 4
                },
            ),
            " "@,
        ) by {
            assert(lines[k] == join_text(word_lines(words)[k], " "@));
        }
    }
}

/// A status is drawn in its own style: work in progress, work that is done
/// (which is also called completed), cancelled work and active work each have
/// one, and everything else is open.
pub proof fn statuses_have_their_styles(status: Seq<char>)
    ensures
        status_class("active"@) == "active"@,
        status_class("in-progress"@) == "progress"@,
        status_class("done"@) == "done"@,
        status_class("completed"@) == "done"@,
        status_class("cancelled"@) == "cancelled"@,
        status != "active"@ && status != "in-progress"@ && status != "done"@ && status
            != "completed"@ && status != "cancelled"@ ==> status_class(status) == "open"@,
{
    reveal_strlit("active");
    reveal_strlit("in-progress");
    reveal_strlit("done");
    reveal_strlit("completed");
    reveal_strlit("cancelled");
    assert("active"@.len() != "in-progress"@.len());
    assert("active"@.len() != "done"@.len());
    assert("active"@.len() != "completed"@.len());
    assert("active"@.len() != "cancelled"@.len());
    assert("done"@.len() != "in-progress"@.len());
    assert("completed"@.len() != "in-progress"@.len());
    assert("cancelled"@.len() != "in-progress"@.len());
    assert("cancelled"@.len() != "done"@.len());
    assert("completed"@[1] == 'o');
    assert("cancelled"@[1] == 'a');
}

/// A priority is shown as its number behind a `P`.
pub proof fn priorities_are_shown_as_numbers(priority: u8)
    ensures
        priority_text(Some(priority)) == "P"@ + decimal_text(priority as nat),
        priority_text(None) == Seq::<char>::empty(),
{
}

/// A graph of nothing consists of its direction and the style classes.
pub proof fn an_empty_graph_is_its_head(direction: Seq<char>, stacked: bool)
    ensures
        mermaid_text(
            Seq::empty(),
            Seq::empty(),
            Seq::empty(),
            Seq::empty(),
            direction,
            stacked,
        ) == "flowchart "@ + direction
            + "\n"@ + "  classDef iteration fill:#17324d,stroke:#4EA8E0,color:#f6fbff;"@
            + "\n"@ + "  classDef active fill:#17324d,stroke:#4EA8E0,color:#f6fbff;"@
            + "\n"@ + "  classDef open fill:#2f2f2f,stroke:#C4C8D4,color:#ffffff;"@
            + "\n"@ + "  classDef progress fill:#463814,stroke:#CC9820,color:#fff8db;"@
            + "\n"@ + "  classDef done fill:#20382f,stroke:#36BE78,color:#f1fff3;"@
            + "\n"@ + "  classDef cancelled fill:#3d2525,stroke:#D05830,color:#fff4f4;"@,
{
    reveal(Seq::filter);
    let none = Seq::<TaskView>::empty();
    let head = header_lines(direction);
    assert(phase_lines(Seq::empty(), none) =~= Seq::<Seq<char>>::empty());
    assert(relationship_lines(Seq::empty(), none) =~= Seq::<Seq<char>>::empty());
    assert(graph_lines(
        Seq::empty(),
        Seq::empty(),
        Seq::empty(),
        Seq::empty(),
        direction,
        stacked,
    ) =~= head);
    let n = "\n"@;
    assert(head.drop_last() =~= head.take(6));
    assert(head.take(6).drop_last() =~= head.take(5));
    assert(head.take(5).drop_last() =~= head.take(4));
    assert(head.take(4).drop_last() =~= head.take(3));
    assert(head.take(3).drop_last() =~= head.take(2));
    assert(head.take(2).drop_last() =~= head.take(1));
    assert(join_text(head.take(1), n) == head[0]);
    assert(join_text(head.take(2), n) == join_text(head.take(1), n) + n + head[1]);
    assert(join_text(head.take(3), n) == join_text(head.take(2), n) + n + head[2]);
    assert(join_text(head.take(4), n) == join_text(head.take(3), n) + n + head[3]);
    assert(join_text(head.take(5), n) == join_text(head.take(4), n) + n + head[4]);
    assert(join_text(head.take(6), n) == join_text(head.take(5), n) + n + head[5]);
    assert(join_text(head, n) == join_text(head.take(6), n) + n + head[6]);
}

/// Three more lines.
proof fn lemma_three_lines(lines: Seq<Seq<char>>, a: Seq<char>, b: Seq<char>, c: Seq<char>)
    requires
        lines.len() > 0,
    ensures
        join_text(lines + seq![a, b, c], "\n"@) == join_text(lines, "\n"@) + "\n"@ + a + "\n"@ + b
            + "\n"@ + c,
{
    joining_goes_text_by_text(lines, a, "\n"@);
    joining_goes_text_by_text(lines.push(a), b, "\n"@);
    joining_goes_text_by_text(lines.push(a).push(b), c, "\n"@);
    assert(lines + seq![a, b, c] =~= lines.push(a).push(b).push(c));
}

/// One iteration more adds three lines to a graph of iterations: its node,
/// the node's style and its link. Where iterations are stacked, a fourth line
/// draws an arrow to it from the one right before it.
pub proof fn an_iteration_is_drawn_behind_the_one_before_it(
    iterations: Seq<IterationView>,
    node: IterationView,
    direction: Seq<char>,
    stacked: bool,
)
    ensures
        ({
            let none = Seq::<TaskView>::empty();
            let name = node_name("I"@, node.id);
            let before = mermaid_text(
                iterations,
                none,
                Seq::empty(),
                Seq::empty(),
                direction,
                stacked,
            );
            let after = mermaid_text(
                iterations.push(node),
                none,
                Seq::empty(),
                Seq::empty(),
                direction,
                stacked,
            );
            let drawn = before + "\n"@ + ("  "@ + name + "[\""@ + label_text(
                seq![first_chars(node.id, 8), wrapped(node.title), node.status],
            ) + "\"]"@) + "\n"@ + ("  class "@ + name + " iteration;"@) + "\n"@ + ("  click "@
                + name + " \"/iterations/"@ + node.id + "\" _self"@);
            &&& !stacked || iterations.len() == 0 ==> after == drawn
            &&& stacked && iterations.len() > 0 ==> after == drawn + "\n"@ + ("  "@ + node_name(
                "I"@,
                iterations[iterations.len() - 1].id,
            ) + " -. \"next iteration\" .-> "@ + name)
        }),
{
    reveal(Seq::filter);
    let none = Seq::<TaskView>::empty();
    assert(phase_lines(Seq::empty(), none) =~= Seq::<Seq<char>>::empty());
    assert(relationship_lines(Seq::empty(), none) =~= Seq::<Seq<char>>::empty());
    assert(task_lines(none) =~= Seq::<Seq<char>>::empty());
    let head = header_lines(direction);
    let all = iterations.push(node);
    assert(all.drop_last() =~= iterations);
    let lines = head + iteration_lines(iterations, stacked);
    assert(graph_lines(iterations, none, Seq::empty(), Seq::empty(), direction, stacked)
        =~= lines);
    let previous = if stacked && iterations.len() > 0 {
        Some(iterations[iterations.len() - 1].id)
    } else {
        None
    };
    if iterations.len() > 0 {
        assert(all[all.len() - 2] == iterations[iterations.len() - 1]);
    }
    assert(iteration_lines(all, stacked) == iteration_lines(iterations, stacked)
        + iteration_block(node, previous));
    assert(graph_lines(all, none, Seq::empty(), Seq::empty(), direction, stacked) =~= lines
        + iteration_block(node, previous));
    let own = iteration_block(node, None);
    lemma_three_lines(lines, own[0], own[1], own[2]);
    assert(own =~= seq![own[0], own[1], own[2]]);
    if let Some(id) = previous {
        let arrow = iteration_block(node, previous)[3];
        assert(lines + iteration_block(node, previous) =~= (lines + own).push(arrow));
        joining_goes_text_by_text(lines + own, arrow, "\n"@);
    }
}

/// One task more adds three lines to a graph of iterations and tasks: its
/// node, the node's style and its link.
pub proof fn a_task_is_drawn_with_its_style_and_link(
    iterations: Seq<IterationView>,
    tasks: Seq<TaskView>,
    task: TaskView,
    direction: Seq<char>,
    stacked: bool,
)
    ensures
        ({
            let name = node_name("T"@, task.id);
            let before = mermaid_text(
                iterations,
                tasks,
                Seq::empty(),
                Seq::empty(),
                direction,
                stacked,
            );
            let after = mermaid_text(
                iterations,
                tasks.push(task),
                Seq::empty(),
                Seq::empty(),
                direction,
                stacked,
            );
            after == before + "\n"@ + ("  "@ + name + "[\""@ + label_text(
                seq![
                    first_chars(task.id, 8),
                    wrapped(task.title),
                    task.status,
                    match task.priority {
                        Some(p) => "P"@ + decimal_text(p as nat),
                        None => Seq::empty(),
                    },
                ],
            ) + "\"]"@) + "\n"@ + ("  class "@ + name + " "@ + status_class(task.status) + ";"@)
                + "\n"@ + ("  click "@ + name + " \"/tasks/"@ + task.id + "\" _self"@)
        }),
{
    reveal(Seq::filter);
    assert(phase_lines(Seq::empty(), tasks) =~= Seq::<Seq<char>>::empty());
    assert(relationship_lines(Seq::empty(), tasks) =~= Seq::<Seq<char>>::empty());
    let all = tasks.push(task);
    assert(phase_lines(Seq::empty(), all) =~= Seq::<Seq<char>>::empty());
    assert(relationship_lines(Seq::empty(), all) =~= Seq::<Seq<char>>::empty());
    assert(all.drop_last() =~= tasks);
    let lines = graph_lines(iterations, tasks, Seq::empty(), Seq::empty(), direction, stacked);
    let own = task_block(task);
    assert(own =~= seq![own[0], own[1], own[2]]);
    assert(graph_lines(iterations, all, Seq::empty(), Seq::empty(), direction, stacked) =~= lines
        + own);
    lemma_three_lines(lines, own[0], own[1], own[2]);
    let shown = seq![
        first_chars(task.id, 8),
        wrapped(task.title),
        task.status,
        priority_text(task.priority),
    ];
    assert(shown =~= seq![
        first_chars(task.id, 8),
        wrapped(task.title),
        task.status,
        match task.priority {
            Some(p) => "P"@ + decimal_text(p as nat),
            None => Seq::empty(),
        },
    ]);
}

/// One place more adds a line where its task is drawn, an arrow from the
/// iteration to the task with the number of the phase on it, and nothing
/// where it is not.
pub proof fn a_place_is_drawn_where_its_task_is(
    iterations: Seq<IterationView>,
    tasks: Seq<TaskView>,
    edges: Seq<IterationTaskView>,
    edge: IterationTaskView,
    direction: Seq<char>,
    stacked: bool,
)
    ensures
        ({
            let before = mermaid_text(
                iterations,
                tasks,
                edges,
                Seq::empty(),
                direction,
                stacked,
            );
            let after = mermaid_text(
                iterations,
                tasks,
                edges.push(edge),
                Seq::empty(),
                direction,
                stacked,
            );
            after == if exists|i: int| 0 <= i < tasks.len() && (#[trigger] tasks[i]).id
                == edge.task_id {
                before + "\n"@ + ("  "@ + node_name("I"@, edge.iteration_id) + " -- \"phase "@
                    + decimal_text(edge.phase as nat) + "\" --> "@ + node_name("T"@, edge.task_id))
            } else {
                before
            }
        }),
{
    reveal(Seq::filter);
    assert(relationship_lines(Seq::empty(), tasks) =~= Seq::<Seq<char>>::empty());
    let shown = |e: IterationTaskView| has_task(tasks, e.task_id);
    let write = |e: IterationTaskView| phase_line(e);
    let lines = graph_lines(iterations, tasks, edges, Seq::empty(), direction, stacked);
    assert(edges.push(edge).drop_last() =~= edges);
    let kept = edges.filter(shown);
    if has_task(tasks, edge.task_id) {
        assert(edges.push(edge).filter(shown) == kept.push(edge));
        assert(kept.push(edge).map_values(write) =~= kept.map_values(write).push(
            phase_line(edge),
        ));
        assert(graph_lines(iterations, tasks, edges.push(edge), Seq::empty(), direction, stacked)
            =~= lines.push(phase_line(edge)));
        joining_goes_text_by_text(lines, phase_line(edge), "\n"@);
    } else {
        assert(edges.push(edge).filter(shown) == kept);
    }
}

/// One relationship more adds a line where it links two tasks that are both
/// drawn, and nothing where it does not. A child is drawn below its parent
/// and a blocked task behind the one that blocks it, whichever way round the
/// relationship was written; tasks that relate to each other are drawn as
/// written.
pub proof fn a_relationship_is_drawn_where_its_tasks_are(
    iterations: Seq<IterationView>,
    tasks: Seq<TaskView>,
    edges: Seq<IterationTaskView>,
    rels: Seq<RelationshipView>,
    rel: RelationshipView,
    direction: Seq<char>,
    stacked: bool,
)
    ensures
        ({
            let before = mermaid_text(iterations, tasks, edges, rels, direction, stacked);
            let after = mermaid_text(
                iterations,
                tasks,
                edges,
                rels.push(rel),
                direction,
                stacked,
            );
            let source = "  "@ + node_name("T"@, rel.source_id);
            let target = "  "@ + node_name("T"@, rel.target_id);
            let drawn = rel.source_type == EntityType::Task && rel.target_type == EntityType::Task
                && (exists|i: int| 0 <= i < tasks.len() && (#[trigger] tasks[i]).id
                == rel.source_id) && (exists|i: int|
                0 <= i < tasks.len() && (#[trigger] tasks[i]).id == rel.target_id);
            &&& !drawn ==> after == before
            &&& drawn ==> after == before + "\n"@ + match rel.rel_type {
                RelationshipType::Blocks => source + " -- \""@ + "blocks"@ + "\" --> "@
                    + node_name("T"@, rel.target_id),
                RelationshipType::BlockedBy => target + " -- \""@ + "blocks"@ + "\" --> "@
                    + node_name("T"@, rel.source_id),
                RelationshipType::ParentOf => source + " -- \""@ + "parent of"@ + "\" --> "@
                    + node_name("T"@, rel.target_id),
                RelationshipType::ChildOf => target + " -- \""@ + "parent of"@ + "\" --> "@
                    + node_name("T"@, rel.source_id),
                RelationshipType::RelatesTo => source + " -- \""@ + "relates to"@ + "\" --> "@
                    + node_name("T"@, rel.target_id),
            }
        }),
{
    reveal(Seq::filter);
    let shown = |r: RelationshipView| is_drawn(r, tasks);
    let write = |r: RelationshipView| relationship_line(r);
    let lines = graph_lines(iterations, tasks, edges, rels, direction, stacked);
    assert(rels.push(rel).drop_last() =~= rels);
    let kept = rels.filter(shown);
    reveal_strlit("blocks");
    reveal_strlit("parent of");
    reveal_strlit("relates to");
    lemma_plain_text("blocks"@);
    lemma_plain_text("parent of"@);
    lemma_plain_text("relates to"@);
    if is_drawn(rel, tasks) {
        assert(rels.push(rel).filter(shown) == kept.push(rel));
        assert(kept.push(rel).map_values(write) =~= kept.map_values(write).push(
            relationship_line(rel),
        ));
        assert(graph_lines(iterations, tasks, edges, rels.push(rel), direction, stacked)
            =~= lines.push(relationship_line(rel)));
        joining_goes_text_by_text(lines, relationship_line(rel), "\n"@);
    } else {
        assert(rels.push(rel).filter(shown) == kept);
    }
}

/// Text without backslashes, double quotes and line ends stays as it is.
pub proof fn lemma_plain_text(s: Seq<char>)
    requires
        forall|i: int|
            0 <= i < s.len() ==> #[trigger] s[i] != '\\' && s[i] != '"' && s[i] != '\n',
    ensures
        escaped(s) == s,
    decreases s.len(),
{
    if s.len() > 0 {
        let rest = s.drop_last();
        assert forall|i: int| 0 <= i < rest.len() implies #[trigger] rest[i] != '\\' && rest[i]
            != '"' && rest[i] != '\n' by {
            assert(rest[i] == s[i]);
        }
        lemma_plain_text(rest);
        let c = s[s.len() - 1];
        assert(escaped(s) =~= s);
    } else {
        assert(escaped(s) =~= s);
    }
}

/// What a joined list of several texts begins with.
proof fn lemma_join_begins(parts: Seq<Seq<char>>, sep: Seq<char>)
    requires
        parts.len() > 1,
    ensures
        (parts[0] + sep).is_prefix_of(join_text(parts, sep)),
{
    let rest = parts.skip(1);
    joining_goes_list_by_list(seq![parts[0]], rest, sep);
    assert(seq![parts[0]] + rest =~= parts);
    assert(join_text(seq![parts[0]], sep) == parts[0]);
}

/// Whatever is drawn, the first line of a graph names the direction that was
/// asked for.
pub proof fn every_graph_flows_as_asked(
    iterations: Seq<IterationView>,
    tasks: Seq<TaskView>,
    edges: Seq<IterationTaskView>,
    rels: Seq<RelationshipView>,
    direction: Seq<char>,
    stacked: bool,
)
    ensures
        ("flowchart "@ + direction + "\n"@).is_prefix_of(
            mermaid_text(iterations, tasks, edges, rels, direction, stacked),
        ),
{
    let lines = graph_lines(iterations, tasks, edges, rels, direction, stacked);
    assert(lines[0] == "flowchart "@ + direction);
    lemma_join_begins(lines, "\n"@);
}

/// Where the lines of an iteration stand among those of all iterations.
proof fn lemma_stacked_lines(iterations: Seq<IterationView>, k: int)
    requires
        0 < k < iterations.len(),
    ensures
        iteration_lines(iterations, true).len() == 4 * iterations.len() - 1,
        iteration_lines(iterations, true)[4 * k + 2] == "  "@ + node_name(
            "I"@,
            iterations[k - 1].id,
        ) + " -. \"next iteration\" .-> "@ + node_name("I"@, iterations[k].id),
    decreases iterations.len(),
{
    let rest = iterations.drop_last();
    let n = iterations.len() as int;
    let block = iteration_block(iterations.last(), Some(iterations[n - 2].id));
    assert(iteration_lines(iterations, true) == iteration_lines(rest, true) + block);
    if n == 2 {
        assert(rest.drop_last() =~= Seq::<IterationView>::empty());
        assert(iteration_lines(rest.drop_last(), true).len() == 0);
        assert(iteration_lines(rest, true).len() == 3);
    } else {
        lemma_stacked_lines(rest, if k < n - 1 {
            k
        } else {
            1
        });
    }
}

/// In a graph whose iterations are stacked each iteration but the first has an
/// arrow to it from the one right before it, and there is no other arrow
/// between iterations: the iterations have four lines each, but for the first,
/// which has three, and the arrow is the last of the four.
pub proof fn stacked_iterations_form_a_chain(
    iterations: Seq<IterationView>,
    tasks: Seq<TaskView>,
    edges: Seq<IterationTaskView>,
    rels: Seq<RelationshipView>,
    direction: Seq<char>,
    k: int,
)
    requires
        0 < k < iterations.len(),
    ensures
        ({
            let lines = graph_lines(iterations, tasks, edges, rels, direction, true);
            &&& lines.len() >= 7 + 4 * iterations.len() - 1
            &&& lines[4 * k + 9] == "  "@ + node_name("I"@, iterations[k - 1].id)
                + " -. \"next iteration\" .-> "@ + node_name("I"@, iterations[k].id)
            &&& mermaid_text(iterations, tasks, edges, rels, direction, true) == join_text(
                lines,
                "\n"@,
            )
        }),
{
    lemma_stacked_lines(iterations, k);
}

} // verus!
