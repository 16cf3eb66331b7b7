//! What holds of every graph.
use vstd::prelude::*;

use crate::model::RelationshipType;
use crate::seqs::lemma_filter_members;
use crate::text::{text_less, text_order_is_total, text_order_is_transitive};
use crate::web::label::{MAX_WORDS_PER_LINE, escaped, escaped_char, word_lines};
use crate::web::load::{
    answer_places, assembled, by_age, by_age_is_a_stable_order, is_latest, is_table_of,
    iteration_ids, lemma_latest_pushed, loaded_iterations, table_of, IterationRowView,
};
use crate::web::mermaid::{display_of, is_drawn, relationship_line};
use crate::web::nodes::{
    has_task, in_id_order, lemma_inserted, lemma_replaced, IterationTaskView, IterationView,
    RelationshipView, TaskView,
};
use crate::web::pages::{is_direction, GraphParams};
use crate::web::phases::{
    ends_known, has_phase, has_phases, in_phase, is_end_among, phase_relationships, phase_sections,
    phase_tasks, phases_are_the_phases, phases_of, section_of, touching, GraphDataView,
};

verus! {

/// How many backslashes stand right before a place in a text.
pub open spec fn backslashes_before(s: Seq<char>, i: int) -> nat
    decreases i,
{
    if 0 < i <= s.len() && s[i - 1] == '\\' {
        1 + backslashes_before(s, i - 1)
    } else {
        0
    }
}

/// What stands behind a place does not matter.
proof fn lemma_backslashes_before(s: Seq<char>, more: Seq<char>, i: int)
    requires
        0 <= i <= s.len(),
    ensures
        backslashes_before(s + more, i) == backslashes_before(s, i),
    decreases i,
{
    if i > 0 {
        lemma_backslashes_before(s, more, i - 1);
    }
}

/// Escaped text ends in backslashes that escape each other.
proof fn lemma_escaped_end(s: Seq<char>)
    ensures
        backslashes_before(escaped(s), escaped(s).len() as int) % 2 == 0,
    decreases s.len(),
{
    if s.len() > 0 {
        lemma_escaped_end(s.drop_last());
        let before = escaped(s.drop_last());
        let code = escaped_char(s.last());
        let n = before.len() as int;
        assert(escaped(s) == before + code);
        lemma_backslashes_before(before, code, n);
        reveal_with_fuel(backslashes_before, 3);
        if s.last() == '\\' {
            assert(escaped(s)[n] == '\\' && escaped(s)[n + 1] == '\\');
        } else {
            assert(escaped(s)[escaped(s).len() - 1] == code[code.len() - 1]);
        }
    }
}

/// A label never breaks out of its quotes or its line: escaped text holds no
/// line end, and a double quote in it is itself escaped, as it stands behind
/// an odd number of backslashes.
pub proof fn escaped_text_stays_quoted(s: Seq<char>)
    ensures
        forall|i: int| 0 <= i < escaped(s).len() ==> #[trigger] escaped(s)[i] != '\n',
        forall|i: int|
            0 <= i < escaped(s).len() && #[trigger] escaped(s)[i] == '"' ==> backslashes_before(
                escaped(s),
                i,
            ) % 2 == 1,
    decreases s.len(),
{
    if s.len() > 0 {
        escaped_text_stays_quoted(s.drop_last());
        lemma_escaped_end(s.drop_last());
        let before = escaped(s.drop_last());
        let code = escaped_char(s.last());
        let n = before.len() as int;
        assert(escaped(s) == before + code);
        assert forall|i: int| 0 <= i < escaped(s).len() && #[trigger] escaped(s)[i] == '"' implies
            backslashes_before(escaped(s), i) % 2 == 1 by {
            if i < n {
                assert(before[i] == '"');
                lemma_backslashes_before(before, code, i);
            } else {
                assert(code[i - n] == '"');
                assert(i == n + 1 && escaped(s)[n] == '\\');
                lemma_backslashes_before(before, code, n);
                reveal_with_fuel(backslashes_before, 2);
            }
        }
        assert forall|i: int| 0 <= i < escaped(s).len() implies #[trigger] escaped(s)[i] != '\n' by {
            if i < n {
                assert(before[i] != '\n');
            } else {
                assert(code[i - n] != '\n');
            }
        }
    }
}

/// Different texts without line ends have different labels.
pub proof fn escaping_loses_nothing(a: Seq<char>, b: Seq<char>)
    requires
        !a.contains('\n'),
        !b.contains('\n'),
        escaped(a) == escaped(b),
    ensures
        a == b,
    decreases a.len(),
{
    if a.len() == 0 {
        if b.len() > 0 {
            assert(escaped(b).len() > 0);
        }
        assert(a =~= b);
    } else if b.len() == 0 {
        assert(escaped(a).len() > 0);
    } else {
        let x = escaped(a.drop_last());
        let y = escaped(b.drop_last());
        let p = escaped_char(a.last());
        let q = escaped_char(b.last());
        assert(a.contains(a[a.len() - 1]));
        assert(b.contains(b[b.len() - 1]));
        assert((x + p).last() == p.last());
        assert((y + q).last() == q.last());
        assert(a.last() == b.last());
        assert(x =~= (x + p).take(x.len() as int));
        assert(y =~= (y + q).take(y.len() as int));
        assert forall|c: char| a.drop_last().contains(c) implies a.contains(c) by {
            let k = choose|k: int| 0 <= k < a.drop_last().len() && a.drop_last()[k] == c;
            assert(a[k] == c);
        }
        assert forall|c: char| b.drop_last().contains(c) implies b.contains(c) by {
            let k = choose|k: int| 0 <= k < b.drop_last().len() && b.drop_last()[k] == c;
            assert(b[k] == c);
        }
        escaping_loses_nothing(a.drop_last(), b.drop_last());
        assert(a =~= a.drop_last().push(a.last()));
        assert(b =~= b.drop_last().push(b.last()));
    }
}

/// The relationship that says the same from the other end.
pub open spec fn inverse(rel: RelationshipView) -> RelationshipView {
    RelationshipView {
        rel_type: match rel.rel_type {
            RelationshipType::BlockedBy => RelationshipType::Blocks,
            RelationshipType::Blocks => RelationshipType::BlockedBy,
            RelationshipType::ChildOf => RelationshipType::ParentOf,
            RelationshipType::ParentOf => RelationshipType::ChildOf,
            RelationshipType::RelatesTo => RelationshipType::RelatesTo,
        },
        source_id: rel.target_id,
        source_type: rel.target_type,
        target_id: rel.source_id,
        target_type: rel.source_type,
    }
}

/// Parents and children, and blockers and blocked, are drawn the same from
/// either end.
pub proof fn inverses_are_drawn_alike(rel: RelationshipView, tasks: Seq<TaskView>)
    requires
        rel.rel_type != RelationshipType::RelatesTo,
    ensures
        display_of(inverse(rel)) == display_of(rel),
        relationship_line(inverse(rel)) == relationship_line(rel),
        is_drawn(inverse(rel), tasks) == is_drawn(rel, tasks),
{
}

/// A wrapped title keeps all its words in order: read one after the other,
/// its lines are the words of the title. No line is empty, none is longer
/// than allowed, and only the last may be shorter.
pub proof fn wrapping_keeps_words(words: Seq<Seq<char>>)
    ensures
        word_lines(words).flatten() == words,
        forall|i: int|
            0 <= i < word_lines(words).len() ==> 1 <= (#[trigger] word_lines(words)[i]).len()
                <= MAX_WORDS_PER_LINE,
        forall|i: int|
            0 <= i < word_lines(words).len() - 1 ==> (#[trigger] word_lines(words)[i]).len()
                == MAX_WORDS_PER_LINE,
    decreases words.len(),
{
    let lines = word_lines(words);
    if words.len() == 0 {
        assert(lines =~= Seq::empty());
        assert(words =~= Seq::empty());
    } else {
        let n = if words.len() <= MAX_WORDS_PER_LINE {
            words.len() as int
        } else {
            MAX_WORDS_PER_LINE as int
        };
        let rest = words.skip(n);
        wrapping_keeps_words(rest);
        assert(lines.len() == word_lines(rest).len() + 1);
        assert(lines.first() =~= words.take(n));
        assert forall|i: int| 0 <= i < word_lines(rest).len() implies lines.drop_first()[i]
            == word_lines(rest)[i] by {
            assert(lines[i + 1] =~= word_lines(rest)[i]);
        }
        assert(lines.drop_first() =~= word_lines(rest));
        assert(lines.flatten() == lines.first() + lines.drop_first().flatten());
        assert(words =~= words.take(n) + rest);
        assert forall|i: int| 0 <= i < lines.len() implies 1 <= (#[trigger] lines[i]).len()
            <= MAX_WORDS_PER_LINE by {
            if i > 0 {
                assert(lines[i] == lines.drop_first()[i - 1]);
            }
        }
        assert forall|i: int| 0 <= i < lines.len() - 1 implies (#[trigger] lines[i]).len()
            == MAX_WORDS_PER_LINE by {
            if i > 0 {
                assert(lines[i] == lines.drop_first()[i - 1]);
            }
        }
    }
}

/// Whatever a request says, a graph flows in one of the known directions.
pub proof fn graphs_flow_in_known_directions(params: GraphParams)
    ensures
        is_direction(params.flow()) || params.flow() == "TB"@,
{
}

/// Each section belongs to an iteration that has tasks in phases, and shows
/// all its phases, in ascending order.
pub proof fn sections_show_all_phases(data: GraphDataView, direction: Seq<char>, i: int)
    requires
        0 <= i < phase_sections(data, direction).len(),
    ensures
        exists|k: int|
            0 <= k < data.iterations.len() && phase_sections(data, direction)[i] == section_of(
                data,
                #[trigger] data.iterations[k],
                direction,
            ),
        phase_sections(data, direction)[i].phases.len() > 0,
        forall|p: u32|
            has_phase(data.iteration_tasks, phase_sections(data, direction)[i].iteration_id, p)
                <==> exists|k: int|
                0 <= k < phase_sections(data, direction)[i].phases.len() && (
                #[trigger] phase_sections(data, direction)[i].phases[k]).number == p,
        forall|j: int, k: int|
            0 <= j < k < phase_sections(data, direction)[i].phases.len() ==> (
            #[trigger] phase_sections(data, direction)[i].phases[j]).number < (
            #[trigger] phase_sections(data, direction)[i].phases[k]).number,
{
    let shown = |iteration: IterationView| has_phases(data, iteration);
    let kept = data.iterations.filter(shown);
    lemma_filter_members(data.iterations, shown);
    let iteration = kept[i];
    assert(kept.contains(iteration));
    let m = choose|m: int| 0 <= m < data.iterations.len() && data.iterations[m] == iteration;
    let section = phase_sections(data, direction)[i];
    assert(section == section_of(data, data.iterations[m], direction));
    let phases = phases_of(data.iteration_tasks, iteration.id);
    phases_are_the_phases(data.iteration_tasks, iteration.id);
    let p = choose|p: u32| #[trigger] has_phase(data.iteration_tasks, iteration.id, p);
    assert(phases.contains(p));
    assert forall|p: u32|
        has_phase(data.iteration_tasks, section.iteration_id, p) <==> exists|k: int|
            0 <= k < section.phases.len() && (#[trigger] section.phases[k]).number == p by {
        assert(phases.contains(p) <==> has_phase(data.iteration_tasks, iteration.id, p));
        if phases.contains(p) {
            let k = choose|k: int| 0 <= k < phases.len() && phases[k] == p;
            assert(section.phases[k].number == p);
        }
        if exists|k: int| 0 <= k < section.phases.len() && (#[trigger] section.phases[k]).number == p {
            let k = choose|k: int|
                0 <= k < section.phases.len() && (#[trigger] section.phases[k]).number == p;
            assert(phases[k] == p);
        }
    }
}

/// The graph of a phase shows every task of the phase that is known, and an
/// arrow in it never leads to a task that it does not show.
pub proof fn phase_graphs_are_complete_and_closed(
    data: GraphDataView,
    iteration_id: Seq<char>,
    phase: u32,
)
    ensures
        forall|id: Seq<char>|
            has_task(data.tasks, id) && in_phase(data, iteration_id, phase, id) ==> has_task(
                phase_tasks(data, iteration_id, phase),
                id,
            ),
        forall|i: int|
            0 <= i < phase_relationships(data, iteration_id, phase).len() ==> ends_known(
                #[trigger] phase_relationships(data, iteration_id, phase)[i],
                phase_tasks(data, iteration_id, phase),
            ),
{
    let tasks = phase_tasks(data, iteration_id, phase);
    let wanted = |task: TaskView|
        in_phase(data, iteration_id, phase, task.id) || is_end_among(
            touching(data, iteration_id, phase),
            task.id,
        );
    lemma_filter_members(data.tasks, wanted);
    assert forall|id: Seq<char>|
        has_task(data.tasks, id) && in_phase(data, iteration_id, phase, id) implies has_task(
        tasks,
        id,
    ) by {
        let k = choose|k: int| 0 <= k < data.tasks.len() && (#[trigger] data.tasks[k]).id == id;
        assert(data.tasks.contains(data.tasks[k]));
        assert(tasks.contains(data.tasks[k]));
        let m = choose|m: int| 0 <= m < tasks.len() && tasks[m] == data.tasks[k];
        assert(tasks[m].id == id);
    }
    let rels = phase_relationships(data, iteration_id, phase);
    let known = |rel: RelationshipView| ends_known(rel, tasks);
    lemma_filter_members(touching(data, iteration_id, phase), known);
    assert forall|i: int| 0 <= i < rels.len() implies ends_known(#[trigger] rels[i], tasks) by {
        assert(rels.contains(rels[i]));
    }
}

/// Any tasks can be put in the order of their ids: `table_of` are they.
pub proof fn tables_hold_the_latest(nodes: Seq<TaskView>)
    ensures
        is_table_of(table_of(nodes), nodes),
    decreases nodes.len(),
{
    if nodes.len() == 0 {
        assert(is_table_of(Seq::<TaskView>::empty(), nodes));
    } else {
        let rest = nodes.drop_last();
        let node = nodes.last();
        tables_hold_the_latest(rest);
        let before = table_of(rest);
        let at = lemma_task_place(before, node);
        let after = if at < before.len() && before[at].id == node.id {
            lemma_replaced(before, at, node);
            before.update(at, node)
        } else {
            lemma_inserted(before, at, node);
            before.insert(at, node)
        };
        assert(nodes =~= rest.push(node));
        assert forall|task: TaskView| #[trigger] after.contains(task) <==> is_latest(nodes, task) by {
            lemma_latest_pushed(rest, node, task);
            assert(before.contains(task) <==> is_latest(rest, task));
        }
        assert(is_table_of(after, nodes));
    }
}

/// Where a task goes in the order of the ids.
proof fn lemma_task_place(tasks: Seq<TaskView>, item: TaskView) -> (at: int)
    requires
        in_id_order(tasks),
    ensures
        0 <= at <= tasks.len(),
        forall|j: int| 0 <= j < at ==> text_less((#[trigger] tasks[j]).id, item.id),
        at < tasks.len() ==> !text_less(tasks[at].id, item.id),
    decreases tasks.len(),
{
    if tasks.len() == 0 {
        0
    } else if text_less(tasks.last().id, item.id) {
        assert forall|j: int| 0 <= j < tasks.len() implies text_less(
            (#[trigger] tasks[j]).id,
            item.id,
        ) by {
            if j < tasks.len() - 1 {
                text_order_is_transitive(tasks[j].id, tasks[tasks.len() - 1].id, item.id);
            }
        }
        tasks.len() as int
    } else {
        let rest = tasks.drop_last();
        assert forall|i: int, j: int| 0 <= i < j < rest.len() implies text_less(
            (#[trigger] rest[i]).id,
            (#[trigger] rest[j]).id,
        ) by {
            assert(rest[i] == tasks[i] && rest[j] == tasks[j]);
        }
        let at = lemma_task_place(rest, item);
        assert forall|j: int| 0 <= j < at implies text_less((#[trigger] tasks[j]).id, item.id) by {
            assert(tasks[j] == rest[j]);
        }
        if at < rest.len() {
            assert(tasks[at] == rest[at]);
        }
        at
    }
}

/// What graphs are drawn from is closed: the tasks stand in the order of
/// their ids, every place is that of a task that is there, and so is every
/// end of a relationship that is a task. Nothing is there that was not
/// loaded.
pub proof fn loaded_data_is_closed(
    iterations: Seq<IterationView>,
    edges: Seq<IterationTaskView>,
    rels: Seq<RelationshipView>,
    nodes: Seq<TaskView>,
)
    ensures
        ({
            let data = assembled(iterations, edges, rels, nodes);
            &&& data.iterations == iterations
            &&& in_id_order(data.tasks)
            &&& forall|task: TaskView| #[trigger]
                data.tasks.contains(task) ==> nodes.contains(task)
            &&& forall|id: Seq<char>| #[trigger] has_task(nodes, id) ==> has_task(data.tasks, id)
            &&& forall|edge: IterationTaskView| #[trigger]
                data.iteration_tasks.contains(edge) <==> edges.contains(edge) && has_task(
                    data.tasks,
                    edge.task_id,
                )
            &&& forall|rel: RelationshipView| #[trigger]
                data.relationships.contains(rel) <==> rels.contains(rel) && ends_known(
                    rel,
                    data.tasks,
                )
        }),
{
    let data = assembled(iterations, edges, rels, nodes);
    tables_hold_the_latest(nodes);
    assert forall|task: TaskView| #[trigger] data.tasks.contains(task) implies nodes.contains(
        task,
    ) by {
        assert(is_latest(nodes, task));
    }
    assert forall|id: Seq<char>| #[trigger] has_task(nodes, id) implies has_task(data.tasks, id) by {
        let task = lemma_latest_exists(nodes, id);
        assert(data.tasks.contains(task));
        let k = choose|k: int| 0 <= k < data.tasks.len() && data.tasks[k] == task;
        assert(data.tasks[k].id == id);
    }
    lemma_filter_members(edges, |edge: IterationTaskView| has_task(data.tasks, edge.task_id));
    lemma_filter_members(rels, |rel: RelationshipView| ends_known(rel, data.tasks));
}

/// Of the tasks with one id there is a last.
proof fn lemma_latest_exists(nodes: Seq<TaskView>, id: Seq<char>) -> (task: TaskView)
    requires
        has_task(nodes, id),
    ensures
        task.id == id,
        is_latest(nodes, task),
    decreases nodes.len(),
{
    let rest = nodes.drop_last();
    assert(nodes =~= rest.push(nodes.last()));
    if nodes.last().id == id {
        lemma_latest_pushed(rest, nodes.last(), nodes.last());
        nodes.last()
    } else {
        let k = choose|k: int| 0 <= k < nodes.len() && (#[trigger] nodes[k]).id == id;
        assert(rest[k].id == id);
        let task = lemma_latest_exists(rest, id);
        lemma_latest_pushed(rest, nodes.last(), task);
        task
    }
}

/// What graphs are drawn from refers to nothing that is missing, given
/// iterations, the places that answer what is asked about them, and whatever
/// relationships and tasks: the iteration and the task of each place are
/// there, and so is each task at an end of a relationship. No two tasks have
/// the same id, and no iteration stands behind a newer one.
pub proof fn loaded_data_refers_to_nothing_missing(
    rows: Seq<IterationRowView>,
    edges: Seq<IterationTaskView>,
    rels: Seq<RelationshipView>,
    nodes: Seq<TaskView>,
)
    requires
        answer_places(iteration_ids(loaded_iterations(rows)), edges),
    ensures
        ({
            let data = assembled(loaded_iterations(rows), edges, rels, nodes);
            &&& forall|edge: IterationTaskView| #[trigger]
                data.iteration_tasks.contains(edge) ==> has_task(data.tasks, edge.task_id) && (
                exists|i: int|
                    0 <= i < data.iterations.len() && (#[trigger] data.iterations[i]).id
                        == edge.iteration_id)
            &&& forall|rel: RelationshipView| #[trigger]
                data.relationships.contains(rel) ==> ends_known(rel, data.tasks)
            &&& forall|i: int, j: int|
                0 <= i < j < data.tasks.len() ==> (#[trigger] data.tasks[i]).id != (
                #[trigger] data.tasks[j]).id
            &&& data.iterations.len() == by_age(rows).len()
            &&& forall|i: int|
                0 <= i < data.iterations.len() ==> #[trigger] data.iterations[i] == by_age(
                    rows,
                )[i].node
            &&& forall|i: int, j: int|
                0 <= i < j < by_age(rows).len() ==> !(#[trigger] by_age(rows)[i]).created_at.after(
                    (#[trigger] by_age(rows)[j]).created_at,
                )
        }),
{
    let iterations = loaded_iterations(rows);
    let data = assembled(iterations, edges, rels, nodes);
    loaded_data_is_closed(iterations, edges, rels, nodes);
    by_age_is_a_stable_order(rows);
    assert forall|edge: IterationTaskView| #[trigger] data.iteration_tasks.contains(edge) implies
        exists|i: int|
        0 <= i < data.iterations.len() && (#[trigger] data.iterations[i]).id == edge.iteration_id by {
        let k = choose|k: int| 0 <= k < edges.len() && edges[k] == edge;
        let ids = iteration_ids(iterations);
        assert(ids.contains(edges[k].iteration_id));
        let i = choose|i: int| 0 <= i < ids.len() && ids[i] == edge.iteration_id;
        assert(data.iterations[i].id == edge.iteration_id);
    }
    assert forall|i: int, j: int| 0 <= i < j < data.tasks.len() implies (
    #[trigger] data.tasks[i]).id != (#[trigger] data.tasks[j]).id by {
        assert(text_less(data.tasks[i].id, data.tasks[j].id));
        text_order_is_total(data.tasks[i].id, data.tasks[j].id);
    }
}

} // verus!
