//! Which rows are asked for, and what is kept of them.
use vstd::prelude::*;

use crate::model::EntityType;
use crate::seqs::lemma_filter_agree;
use crate::store::statement::placeholder_text;
use crate::text::text_less;
use crate::time::TimestampView;
use crate::web::laws::tables_hold_the_latest;
use crate::web::load::{
    answer_places, assembled, by_age, by_age_is_a_stable_order, is_latest, is_placed, iteration_ids,
    loaded_iterations, of_age, place_of, placed_ids, placed_ids_are_the_placed, places_query,
    relationships_query, table_of, tasks_query, wanted_ids, wanted_ids_are_the_wanted,
    IterationRowView, PlaceRow,
};
use crate::web::nodes::{has_task, IterationTaskView, IterationView, RelationshipView, TaskView};
use crate::web::phases::{ends_known, is_end_among, is_task_end};

verus! {

/// One point in time is after another where it is a later second, or the same
/// second and a later nanosecond.
pub proof fn later_points_in_time_come_after(a: TimestampView, b: TimestampView)
    ensures
        a.secs > b.secs ==> a.after(b),
        a.secs < b.secs ==> !a.after(b),
        a.secs == b.secs ==> (a.after(b) <==> a.nanos > b.nanos),
{
}

/// Iterations are loaded from the oldest to the newest: none is lost or
/// added, none stands before an older one, and those that were made at the
/// same time stay in the order in which they came.
pub proof fn iterations_are_loaded_oldest_first(rows: Seq<IterationRowView>)
    ensures
        loaded_iterations(rows).len() == rows.len(),
        exists|sorted: Seq<IterationRowView>|
            {
                &&& sorted.to_multiset() == rows.to_multiset()
                &&& sorted.len() == rows.len()
                &&& forall|i: int|
                    0 <= i < sorted.len() ==> #[trigger] loaded_iterations(rows)[i]
                        == sorted[i].node
                &&& forall|i: int, j: int|
                    0 <= i < j < sorted.len() ==> (#[trigger] sorted[i]).created_at.secs < (
                    #[trigger] sorted[j]).created_at.secs || (sorted[i].created_at.secs
                        == sorted[j].created_at.secs && sorted[i].created_at.nanos
                        <= sorted[j].created_at.nanos)
                &&& forall|at: TimestampView| #[trigger] of_age(sorted, at) == of_age(rows, at)
            },
{
    by_age_is_a_stable_order(rows);
    let sorted = by_age(rows);
    broadcast use vstd::seq_lib::group_to_multiset_ensures;

    assert(sorted.to_multiset().len() == sorted.len());
    assert(rows.to_multiset().len() == rows.len());
    assert forall|i: int, j: int| 0 <= i < j < sorted.len() implies (
    #[trigger] sorted[i]).created_at.secs < (#[trigger] sorted[j]).created_at.secs || (
    sorted[i].created_at.secs == sorted[j].created_at.secs && sorted[i].created_at.nanos
        <= sorted[j].created_at.nanos) by {
        assert(!by_age(rows)[i].created_at.after(by_age(rows)[j].created_at));
    }
}

/// The rows of one age are picked out one by one, in order.
pub proof fn rows_of_one_age_are_picked_out(
    rows: Seq<IterationRowView>,
    row: IterationRowView,
    at: TimestampView,
)
    ensures
        of_age(Seq::empty(), at) == Seq::<IterationRowView>::empty(),
        of_age(rows.push(row), at) == if row.created_at.secs == at.secs && row.created_at.nanos
            == at.nanos {
            of_age(rows, at).push(row)
        } else {
            of_age(rows, at)
        },
{
    reveal(Seq::filter);
    assert(rows.push(row).drop_last() =~= rows);
}

/// The places are asked for of every iteration, in the order of the
/// iterations.
pub proof fn places_are_asked_for_of_every_iteration(iterations: Seq<IterationView>)
    ensures
        ({
            let query = places_query(iteration_ids(iterations));
            &&& query.params.len() == iterations.len()
            &&& forall|i: int|
                0 <= i < iterations.len() ==> #[trigger] query.params[i] == iterations[i].id
            &&& query.sql
                == "SELECT iteration_id, task_id, phase FROM iteration_tasks WHERE iteration_id IN ("@
                + placeholder_text(iterations.len(), 1)
                + ") ORDER BY iteration_id, phase, created_at"@
        }),
{
}

/// An answer about places is about the iterations that were asked about.
pub proof fn answers_are_about_what_was_asked(
    ids: Seq<Seq<char>>,
    edges: Seq<IterationTaskView>,
    edge: IterationTaskView,
)
    ensures
        answer_places(ids, Seq::empty()),
        answer_places(ids, edges.push(edge)) <==> answer_places(ids, edges) && ids.contains(
            edge.iteration_id,
        ),
{
    let all = edges.push(edge);
    if answer_places(ids, all) {
        assert forall|i: int| 0 <= i < edges.len() implies ids.contains(
            (#[trigger] edges[i]).iteration_id,
        ) by {
            assert(all[i] == edges[i]);
        }
        assert(all[edges.len() as int] == edge);
    }
    if answer_places(ids, edges) && ids.contains(edge.iteration_id) {
        assert forall|i: int| 0 <= i < all.len() implies ids.contains(
            (#[trigger] all[i]).iteration_id,
        ) by {
            if i < edges.len() {
                assert(all[i] == edges[i]);
            }
        }
    }
}

/// A stored place is read as it stands: its iteration, its task, and the
/// lower 32 bits of its phase, which are the phase where it is one.
pub proof fn places_are_read_as_stored(row: PlaceRow)
    ensures
        place_of(row).iteration_id == row.iteration_id@,
        place_of(row).task_id == row.task_id@,
        0 <= row.phase <= 0xffff_ffff ==> place_of(row).phase == row.phase,
        place_of(row).phase as int == row.phase as int % 0x1_0000_0000,
{
    let p: i64 = row.phase;
    assert((p as u32) as int == p as int % 0x1_0000_0000) by {
        let q: u32 = p as u32;
        assert(p >= 0 ==> (p as u32) as u64 == (p as u64) % 0x1_0000_0000u64) by (bit_vector);
        assert(p < 0 ==> (p as u32) as u64 == (p as u64) % 0x1_0000_0000u64) by (bit_vector);
        assert(p < 0 ==> p as u64 == p + 0x1_0000_0000_0000_0000) by (bit_vector);
    }
}

/// Every task that has a place is asked about once at either end of a
/// relationship, and no other task is: the values are the ids in ascending
/// order, and then the same again.
pub proof fn relationships_are_asked_for_of_every_placed_task(
    edges: Seq<IterationTaskView>,
    id: Seq<char>,
)
    ensures
        ({
            let query = relationships_query(placed_ids(edges));
            let n = placed_ids(edges).len();
            &&& query.params.len() == 2 * n
            &&& n > 0 <==> edges.len() > 0
            &&& forall|i: int|
                0 <= i < n ==> #[trigger] query.params[i] == query.params[(i + n) as int]
            &&& forall|i: int, j: int|
                0 <= i < j < n ==> text_less(#[trigger] query.params[i], #[trigger] query.params[j])
            &&& query.params.contains(id) <==> exists|i: int|
                0 <= i < edges.len() && (#[trigger] edges[i]).task_id == id
            &&& query.sql
                == "SELECT id, rel_type, source_id, source_type, target_id, target_type, created_at, updated_at FROM relationships WHERE (source_type = 'task' AND source_id IN ("@
                + placeholder_text(n, 1) + ")) OR (target_type = 'task' AND target_id IN ("@
                + placeholder_text(n, 1) + ")) ORDER BY rel_type, created_at"@
        }),
{
    let ids = placed_ids(edges);
    let n = ids.len();
    let params = relationships_query(ids).params;
    placed_ids_are_the_placed(edges);
    assert(params.contains(id) <==> ids.contains(id)) by {
        if params.contains(id) {
            let k = choose|k: int| 0 <= k < params.len() && params[k] == id;
            assert(ids[if k < n { k } else { k - n }] == id);
        }
        if ids.contains(id) {
            let k = choose|k: int| 0 <= k < ids.len() && ids[k] == id;
            assert(params[k] == id);
        }
    }
    assert(ids.contains(id) <==> is_placed(edges, id));
    if edges.len() > 0 {
        assert(is_placed(edges, edges[0].task_id));
        assert(ids.contains(edges[0].task_id));
    }
    if n > 0 {
        assert(ids.contains(ids[0]));
        assert(is_placed(edges, ids[0]));
    }
    assert forall|i: int, j: int| 0 <= i < j < n implies text_less(
        #[trigger] params[i],
        #[trigger] params[j],
    ) by {
        assert(params[i] == ids[i] && params[j] == ids[j]);
    }
}

/// Every task that anything leads to is asked for: one that has a place, one
/// that a relationship comes from, and one that a relationship goes to. None
/// is asked for twice, and no other task is. The project comes first, and the
/// ids follow in ascending order.
pub proof fn every_task_that_is_led_to_is_asked_for(
    project_id: Seq<char>,
    edges: Seq<IterationTaskView>,
    rels: Seq<RelationshipView>,
    include_all: bool,
    id: Seq<char>,
)
    ensures
        ({
            let ids = wanted_ids(edges, rels);
            let query = tasks_query(project_id, ids, include_all);
            &&& query.params.len() == 1 + ids.len()
            &&& query.params[0] == project_id
            &&& forall|i: int, j: int|
                1 <= i < j < query.params.len() ==> text_less(
                    #[trigger] query.params[i],
                    #[trigger] query.params[j],
                )
            &&& forall|i: int|
                0 <= i < edges.len() ==> query.params.skip(1).contains(
                    (#[trigger] edges[i]).task_id,
                )
            &&& forall|i: int|
                0 <= i < rels.len() && (#[trigger] rels[i]).source_type == EntityType::Task
                    ==> query.params.skip(1).contains(rels[i].source_id)
            &&& forall|i: int|
                0 <= i < rels.len() && (#[trigger] rels[i]).target_type == EntityType::Task
                    ==> query.params.skip(1).contains(rels[i].target_id)
            &&& query.params.skip(1).contains(id) ==> (exists|i: int|
                0 <= i < edges.len() && (#[trigger] edges[i]).task_id == id) || (exists|i: int|
                0 <= i < rels.len() && (#[trigger] rels[i]).source_type == EntityType::Task
                    && rels[i].source_id == id) || (exists|i: int|
                0 <= i < rels.len() && (#[trigger] rels[i]).target_type == EntityType::Task
                    && rels[i].target_id == id)
        }),
{
    let ids = wanted_ids(edges, rels);
    let query = tasks_query(project_id, ids, include_all);
    wanted_ids_are_the_wanted(edges, rels);
    assert(query.params.skip(1) =~= ids);
    assert forall|i: int, j: int| 1 <= i < j < query.params.len() implies text_less(
        #[trigger] query.params[i],
        #[trigger] query.params[j],
    ) by {
        assert(query.params[i] == ids[i - 1] && query.params[j] == ids[j - 1]);
    }
    assert forall|i: int| 0 <= i < edges.len() implies query.params.skip(1).contains(
        (#[trigger] edges[i]).task_id,
    ) by {
        assert(is_placed(edges, edges[i].task_id));
        assert(ids.contains(edges[i].task_id));
    }
    assert forall|i: int|
        0 <= i < rels.len() && (#[trigger] rels[i]).source_type
            == EntityType::Task implies query.params.skip(1).contains(rels[i].source_id) by {
        assert(is_task_end(rels[i], rels[i].source_id));
        assert(is_end_among(rels, rels[i].source_id));
        assert(ids.contains(rels[i].source_id));
    }
    assert forall|i: int|
        0 <= i < rels.len() && (#[trigger] rels[i]).target_type
            == EntityType::Task implies query.params.skip(1).contains(rels[i].target_id) by {
        assert(is_task_end(rels[i], rels[i].target_id));
        assert(is_end_among(rels, rels[i].target_id));
        assert(ids.contains(rels[i].target_id));
    }
    if ids.contains(id) && is_end_among(rels, id) {
        let i = choose|i: int| 0 <= i < rels.len() && is_task_end(#[trigger] rels[i], id);
        assert(rels[i].source_type == EntityType::Task && rels[i].source_id == id
            || rels[i].target_type == EntityType::Task && rels[i].target_id == id);
    }
}

/// Finished tasks are left out unless all are wanted, and that is the only
/// difference that it makes.
pub proof fn finished_tasks_are_asked_for_where_wanted(
    project_id: Seq<char>,
    ids: Seq<Seq<char>>,
)
    ensures
        ({
            let head =
                "SELECT id, project_id, title, priority, status, description, assigned_to, metadata, resolved_at, created_at, updated_at FROM tasks WHERE project_id = ?1 AND id IN ("@
                + placeholder_text(ids.len(), 2) + ")"@;
            &&& tasks_query(project_id, ids, true).sql == head + " ORDER BY created_at, title"@
            &&& tasks_query(project_id, ids, false).sql == head
                + " AND status NOT IN ('done', 'cancelled')"@ + " ORDER BY created_at, title"@
            &&& tasks_query(project_id, ids, true).params == tasks_query(
                project_id,
                ids,
                false,
            ).params
        }),
{
    reveal_strlit("");
    reveal_strlit("SELECT ");
    reveal_strlit(
        "id, project_id, title, priority, status, description, assigned_to, metadata, resolved_at, created_at, updated_at",
    );
    reveal_strlit(" FROM tasks WHERE project_id = ?1 AND id IN (");
    reveal_strlit(
        "SELECT id, project_id, title, priority, status, description, assigned_to, metadata, resolved_at, created_at, updated_at FROM tasks WHERE project_id = ?1 AND id IN (",
    );
    let columns =
        "id, project_id, title, priority, status, description, assigned_to, metadata, resolved_at, created_at, updated_at"@;
    let whole =
        "SELECT id, project_id, title, priority, status, description, assigned_to, metadata, resolved_at, created_at, updated_at FROM tasks WHERE project_id = ?1 AND id IN ("@;
    assert("SELECT "@ + columns + " FROM tasks WHERE project_id = ?1 AND id IN ("@ =~= whole);
    let head = whole + placeholder_text(ids.len(), 2) + ")"@;
    assert(tasks_query(project_id, ids, true).sql =~= head + " ORDER BY created_at, title"@);
}

/// Loaded tasks stand in the order of their ids, each id once, and of several
/// tasks with one id the last stays.
pub proof fn the_last_task_with_an_id_stays(nodes: Seq<TaskView>, task: TaskView)
    ensures
        forall|i: int, j: int|
            0 <= i < j < table_of(nodes).len() ==> text_less(
                (#[trigger] table_of(nodes)[i]).id,
                (#[trigger] table_of(nodes)[j]).id,
            ),
        table_of(nodes).contains(task) <==> exists|i: int|
            0 <= i < nodes.len() && #[trigger] nodes[i] == task && forall|j: int|
                i < j < nodes.len() ==> (#[trigger] nodes[j]).id != task.id,
{
    tables_hold_the_latest(nodes);
    let tasks = table_of(nodes);
    assert(tasks.contains(task) <==> is_latest(nodes, task));
    assert forall|i: int, j: int| 0 <= i < j < tasks.len() implies text_less(
        (#[trigger] tasks[i]).id,
        (#[trigger] tasks[j]).id,
    ) by {}
}

/// Of the places, those are kept whose task was loaded; of the relationships,
/// those are kept that have no task at an end which was not loaded. Both stay
/// in the order in which they came, and all iterations are kept.
pub proof fn what_is_kept_links_loaded_tasks(
    iterations: Seq<IterationView>,
    edges: Seq<IterationTaskView>,
    rels: Seq<RelationshipView>,
    nodes: Seq<TaskView>,
)
    ensures
        ({
            let data = assembled(iterations, edges, rels, nodes);
            &&& data.iterations == iterations
            &&& data.tasks == table_of(nodes)
            &&& data.iteration_tasks == edges.filter(
                |edge: IterationTaskView|
                    exists|k: int|
                        0 <= k < nodes.len() && (#[trigger] nodes[k]).id == edge.task_id,
            )
            &&& data.relationships == rels.filter(
                |rel: RelationshipView|
                    {
                        &&& rel.source_type == EntityType::Task ==> exists|k: int|
                            0 <= k < nodes.len() && (#[trigger] nodes[k]).id == rel.source_id
                        &&& rel.target_type == EntityType::Task ==> exists|k: int|
                            0 <= k < nodes.len() && (#[trigger] nodes[k]).id == rel.target_id
                    },
            )
        }),
{
    let tasks = table_of(nodes);
    let f = |edge: IterationTaskView| has_task(tasks, edge.task_id);
    let g = |edge: IterationTaskView|
        exists|k: int| 0 <= k < nodes.len() && (#[trigger] nodes[k]).id == edge.task_id;
    assert forall|i: int| 0 <= i < edges.len() implies f(#[trigger] edges[i]) == g(edges[i]) by {
        lemma_loaded(nodes, edges[i].task_id);
    }
    lemma_filter_agree(edges, f, g);
    let p = |rel: RelationshipView| ends_known(rel, tasks);
    let q = |rel: RelationshipView|
        {
            &&& rel.source_type == EntityType::Task ==> exists|k: int|
                0 <= k < nodes.len() && (#[trigger] nodes[k]).id == rel.source_id
            &&& rel.target_type == EntityType::Task ==> exists|k: int|
                0 <= k < nodes.len() && (#[trigger] nodes[k]).id == rel.target_id
        };
    assert forall|i: int| 0 <= i < rels.len() implies p(#[trigger] rels[i]) == q(rels[i]) by {
        lemma_loaded(nodes, rels[i].source_id);
        lemma_loaded(nodes, rels[i].target_id);
    }
    lemma_filter_agree(rels, p, q);
}

/// The ids in the table are those of the loaded tasks.
proof fn lemma_loaded(nodes: Seq<TaskView>, id: Seq<char>)
    ensures
        has_task(table_of(nodes), id) <==> exists|k: int|
            0 <= k < nodes.len() && (#[trigger] nodes[k]).id == id,
{
    let tasks = table_of(nodes);
    tables_hold_the_latest(nodes);
    if has_task(tasks, id) {
        let k = choose|k: int| 0 <= k < tasks.len() && (#[trigger] tasks[k]).id == id;
        assert(tasks.contains(tasks[k]));
        assert(is_latest(nodes, tasks[k]));
        let i = choose|i: int|
            0 <= i < nodes.len() && #[trigger] nodes[i] == tasks[k] && forall|j: int|
                i < j < nodes.len() ==> (#[trigger] nodes[j]).id != tasks[k].id;
        assert(nodes[i].id == id);
    }
    if exists|k: int| 0 <= k < nodes.len() && (#[trigger] nodes[k]).id == id {
        let k = choose|k: int| 0 <= k < nodes.len() && (#[trigger] nodes[k]).id == id;
        lemma_last_with_id(nodes, k);
        let task = choose|task: TaskView| task.id == id && #[trigger] is_latest(nodes, task);
        assert(tasks.contains(task));
        let m = choose|m: int| 0 <= m < tasks.len() && tasks[m] == task;
        assert(tasks[m].id == id);
    }
}

/// Of tasks with one id there is a last.
proof fn lemma_last_with_id(nodes: Seq<TaskView>, k: int)
    requires
        0 <= k < nodes.len(),
    ensures
        exists|task: TaskView| task.id == nodes[k].id && #[trigger] is_latest(nodes, task),
    decreases nodes.len() - k,
{
    if forall|j: int| k < j < nodes.len() ==> (#[trigger] nodes[j]).id != nodes[k].id {
        assert(is_latest(nodes, nodes[k]));
    } else {
        let j = choose|j: int| k < j < nodes.len() && (#[trigger] nodes[j]).id == nodes[k].id;
        lemma_last_with_id(nodes, j);
    }
}

} // verus!
