//! Loading what graphs are drawn from: which rows are asked for, step by
//! step, and what is kept of the answers.
//!
//! The steps follow each other: the iterations of the project, the places of
//! tasks in them, the relationships of those tasks, and the tasks themselves.
//! Each step names the statement that it needs an answer to, where it needs
//! one, and takes the answer.
use vstd::prelude::*;

use crate::model::EntityType;
use crate::seqs::lemma_filter_take;
use crate::store::statement::{placeholder_text, placeholders, Statement, StatementView};
use crate::text::{
    ascending, insert_text, lemma_ascending_exists, lemma_ascending_unique, text_less,
    text_order_is_total, texts,
};
use crate::time::{Timestamp, TimestampView};
use crate::web::nodes::{
    has_task, in_id_order, iteration_task_views, iteration_views, relationship_views, task_views,
    IterationNode, IterationTaskEdge, IterationTaskView, IterationView, RelationshipEdge,
    RelationshipView, TaskNode, TaskTable, TaskView,
};
use crate::web::phases::{
    ends_known, is_end_among, is_task_end, with_known_ends, GraphData, GraphDataView,
};

verus! {

/// An iteration as it is stored.
#[derive(Debug)]
pub struct IterationRow {
    pub node: IterationNode,
    pub created_at: Timestamp,
}

/// What an [`IterationRow`] holds.
#[verifier::ext_equal]
pub struct IterationRowView {
    pub node: IterationView,
    pub created_at: TimestampView,
}

impl View for IterationRow {
    type V = IterationRowView;

    open spec fn view(&self) -> IterationRowView {
        IterationRowView { node: self.node@, created_at: self.created_at@ }
    }
}

/// What a list of stored iterations holds.
pub open spec fn iteration_row_views(list: Seq<IterationRow>) -> Seq<IterationRowView> {
    list.map_values(|row: IterationRow| row@)
}

/// `rows` with `row` behind all those that are not newer, given that `rows`
/// stand from the oldest to the newest.
pub open spec fn insert_by_age(
    rows: Seq<IterationRowView>,
    row: IterationRowView,
) -> Seq<IterationRowView>
    decreases rows.len(),
{
    if rows.len() == 0 || !rows.last().created_at.after(row.created_at) {
        rows.push(row)
    } else {
        insert_by_age(rows.drop_last(), row).push(rows.last())
    }
}

/// `rows` from the oldest to the newest; those of the same age stay in the
/// order in which they came.
pub open spec fn by_age(rows: Seq<IterationRowView>) -> Seq<IterationRowView>
    decreases rows.len(),
{
    if rows.len() == 0 {
        Seq::empty()
    } else {
        insert_by_age(by_age(rows.drop_last()), rows.last())
    }
}

/// Stored iterations as a graph shows them, from the oldest to the newest.
pub open spec fn loaded_iterations(rows: Seq<IterationRowView>) -> Seq<IterationView> {
    by_age(rows).map_values(|row: IterationRowView| row.node)
}

/// Where a row goes.
proof fn lemma_insert_by_age(rows: Seq<IterationRowView>, row: IterationRowView, at: int)
    requires
        0 <= at <= rows.len(),
        at > 0 ==> !rows[at - 1].created_at.after(row.created_at),
        forall|j: int| at <= j < rows.len() ==> (#[trigger] rows[j]).created_at.after(row.created_at),
    ensures
        insert_by_age(rows, row) == rows.insert(at, row),
    decreases rows.len(),
{
    if at < rows.len() {
        assert(rows[rows.len() - 1].created_at.after(row.created_at));
        lemma_insert_by_age(rows.drop_last(), row, at);
        assert(rows.insert(at, row) =~= rows.drop_last().insert(at, row).push(rows.last()));
    } else {
        assert(rows.insert(at, row) =~= rows.push(row));
    }
}

/// Puts stored iterations in order, from the oldest to the newest.
pub fn order_iterations(rows: &Vec<IterationRow>) -> (nodes: Vec<IterationNode>)
    ensures
        iteration_views(nodes@) == loaded_iterations(iteration_row_views(rows@)),
{
    let ghost all = iteration_row_views(rows@);
    let mut sorted: Vec<IterationRow> = Vec::new();
    let mut i: usize = 0;
    assert(all.take(0) =~= Seq::<IterationRowView>::empty());
    assert(iteration_row_views(sorted@) =~= Seq::<IterationRowView>::empty());
    while i < rows.len()
        invariant
            i <= rows.len(),
            all == iteration_row_views(rows@),
            iteration_row_views(sorted@) == by_age(all.take(i as int)),
        decreases rows.len() - i,
    {
        let ghost before = iteration_row_views(sorted@);
        let row = &rows[i];
        let mut at: usize = sorted.len();
        while at > 0 && sorted[at - 1].created_at.after(&row.created_at)
            invariant
                at <= sorted.len(),
                before == iteration_row_views(sorted@),
                forall|j: int|
                    at <= j < before.len() ==> (#[trigger] before[j]).created_at.after(
                        row@.created_at,
                    ),
            decreases at,
        {
            assert(before[at - 1] == sorted[at - 1]@);
            at -= 1;
        }
        let node = IterationNode {
            id: row.node.id.clone(),
            status: row.node.status.clone(),
            title: row.node.title.clone(),
        };
        let copy = IterationRow { node, created_at: row.created_at.clone() };
        proof {
            if at > 0 {
                assert(before[at - 1] == sorted[at - 1]@);
            }
            lemma_insert_by_age(before, row@, at as int);
        }
        sorted.insert(at, copy);
        proof {
            assert(copy@ == row@);
            assert(iteration_row_views(sorted@) =~= before.insert(at as int, row@));
            assert(all.take(i + 1).drop_last() =~= all.take(i as int));
            assert(all.take(i + 1).last() == row@);
        }
        i += 1;
    }
    assert(all.take(all.len() as int) =~= all);

    let mut nodes: Vec<IterationNode> = Vec::new();
    let mut i: usize = 0;
    while i < sorted.len()
        invariant
            i <= sorted.len(),
            nodes.len() == i,
            forall|k: int| 0 <= k < i ==> (#[trigger] nodes@[k])@ == sorted@[k]@.node,
        decreases sorted.len() - i,
    {
        let node = &sorted[i].node;
        nodes.push(
            IterationNode {
                id: node.id.clone(),
                status: node.status.clone(),
                title: node.title.clone(),
            },
        );
        i += 1;
    }
    assert(iteration_views(nodes@) =~= by_age(all).map_values(|row: IterationRowView| row.node));
    nodes
}

/// The ids of iterations.
pub open spec fn iteration_ids(iterations: Seq<IterationView>) -> Seq<Seq<char>> {
    iterations.map_values(|node: IterationView| node.id)
}

/// The statement that asks for the places of tasks in the given iterations.
pub open spec fn places_query(ids: Seq<Seq<char>>) -> StatementView {
    StatementView {
        sql: "SELECT iteration_id, task_id, phase FROM iteration_tasks WHERE iteration_id IN ("@
            + placeholder_text(ids.len(), 1) + ") ORDER BY iteration_id, phase, created_at"@,
        params: ids,
    }
}

/// Whether places can be the answer to [`places_query`]: each is one in an
/// iteration that is asked about.
pub open spec fn answer_places(ids: Seq<Seq<char>>, edges: Seq<IterationTaskView>) -> bool {
    forall|i: int| 0 <= i < edges.len() ==> ids.contains((#[trigger] edges[i]).iteration_id)
}

/// Asks for the places of tasks in iterations, where there are any
/// iterations.
pub fn fetch_iteration_task_edges(iterations: &Vec<IterationNode>) -> (query: Option<Statement>)
    ensures
        query is Some <==> iterations@.len() > 0,
        query matches Some(q) ==> q@ == places_query(
            iteration_ids(iteration_views(iterations@)),
        ),
{
    if iterations.len() == 0 {
        return None;
    }
    let marks = placeholders(iterations.len(), 1);
    let sql = "SELECT iteration_id, task_id, phase FROM iteration_tasks WHERE iteration_id IN (".to_owned().concat(
        marks.as_str(),
    ).concat(") ORDER BY iteration_id, phase, created_at");
    let mut params: Vec<String> = Vec::new();
    let mut i: usize = 0;
    while i < iterations.len()
        invariant
            i <= iterations.len(),
            params.len() == i,
            forall|k: int| 0 <= k < i ==> (#[trigger] params@[k])@ == iterations@[k].id@,
        decreases iterations.len() - i,
    {
        params.push(iterations[i].id.clone());
        i += 1;
    }
    assert(texts(params@) =~= iteration_ids(iteration_views(iterations@)));
    Some(Statement { sql, params })
}

/// Whether a task has one of the given places.
pub open spec fn is_placed(edges: Seq<IterationTaskView>, task_id: Seq<char>) -> bool {
    exists|i: int| 0 <= i < edges.len() && (#[trigger] edges[i]).task_id == task_id
}

/// Whether `ids` are the ids of the placed tasks, in ascending order, each
/// once.
pub open spec fn are_placed_ids(ids: Seq<Seq<char>>, edges: Seq<IterationTaskView>) -> bool {
    &&& ascending(ids)
    &&& forall|id: Seq<char>| #[trigger] ids.contains(id) <==> is_placed(edges, id)
}

/// The ids of the placed tasks, in ascending order.
pub open spec fn placed_ids(edges: Seq<IterationTaskView>) -> Seq<Seq<char>> {
    choose|ids: Seq<Seq<char>>| are_placed_ids(ids, edges)
}

/// Lists the ids of the placed tasks, in ascending order.
pub fn placed_task_ids(edges: &Vec<IterationTaskEdge>) -> (ids: Vec<String>)
    ensures
        are_placed_ids(texts(ids@), iteration_task_views(edges@)),
        texts(ids@) == placed_ids(iteration_task_views(edges@)),
{
    let ghost all = iteration_task_views(edges@);
    let mut ids: Vec<String> = Vec::new();
    let mut i: usize = 0;
    while i < edges.len()
        invariant
            i <= edges.len(),
            all == iteration_task_views(edges@),
            ascending(texts(ids@)),
            forall|id: Seq<char>| #[trigger]
                texts(ids@).contains(id) <==> exists|k: int|
                    0 <= k < i && (#[trigger] all[k]).task_id == id,
        decreases edges.len() - i,
    {
        let ghost before = texts(ids@);
        insert_text(&mut ids, edges[i].task_id.clone());
        proof {
            assert(all[i as int].task_id == edges[i as int].task_id@);
            assert forall|id: Seq<char>| #[trigger]
                texts(ids@).contains(id) <==> exists|k: int|
                    0 <= k < i + 1 && (#[trigger] all[k]).task_id == id by {
                assert(before.contains(id) <==> exists|k: int|
                    0 <= k < i && (#[trigger] all[k]).task_id == id);
            }
        }
        i += 1;
    }
    proof {
        assert(are_placed_ids(texts(ids@), all));
        let chosen = placed_ids(all);
        assert forall|id: Seq<char>| texts(ids@).contains(id) <==> chosen.contains(id) by {
            assert(texts(ids@).contains(id) <==> is_placed(all, id));
            assert(chosen.contains(id) <==> is_placed(all, id));
        }
        lemma_ascending_unique(texts(ids@), chosen);
    }
    ids
}

/// The statement that asks for the relationships of the given tasks.
pub open spec fn relationships_query(ids: Seq<Seq<char>>) -> StatementView {
    StatementView {
        sql: "SELECT id, rel_type, source_id, source_type, target_id, target_type, created_at, updated_at FROM relationships WHERE (source_type = 'task' AND source_id IN ("@
            + placeholder_text(ids.len(), 1)
            + ")) OR (target_type = 'task' AND target_id IN ("@ + placeholder_text(ids.len(), 1)
            + ")) ORDER BY rel_type, created_at"@,
        params: ids + ids,
    }
}

/// A copy of a list of strings.
fn copy_texts(list: &Vec<String>) -> (copy: Vec<String>)
    ensures
        texts(copy@) == texts(list@),
{
    let mut copy: Vec<String> = Vec::new();
    let mut i: usize = 0;
    while i < list.len()
        invariant
            i <= list.len(),
            copy.len() == i,
            forall|k: int| 0 <= k < i ==> (#[trigger] copy@[k])@ == list@[k]@,
        decreases list.len() - i,
    {
        copy.push(list[i].clone());
        i += 1;
    }
    assert(texts(copy@) =~= texts(list@));
    copy
}

/// Asks for the relationships of tasks, where there are any tasks.
pub fn fetch_task_relationship_edges(ids: &Vec<String>) -> (query: Option<Statement>)
    ensures
        query is Some <==> ids@.len() > 0,
        query matches Some(q) ==> q@ == relationships_query(texts(ids@)),
{
    if ids.len() == 0 {
        return None;
    }
    let marks = placeholders(ids.len(), 1);
    let sql = "SELECT id, rel_type, source_id, source_type, target_id, target_type, created_at, updated_at FROM relationships WHERE (source_type = 'task' AND source_id IN (".to_owned().concat(
        marks.as_str(),
    ).concat(")) OR (target_type = 'task' AND target_id IN (").concat(marks.as_str()).concat(
        ")) ORDER BY rel_type, created_at",
    );
    let mut params = copy_texts(ids);
    let mut again = copy_texts(ids);
    let ghost first = params@;
    let ghost second = again@;
    params.append(&mut again);
    proof {
        assert(params@ =~= first + second);
        assert(texts(params@) =~= texts(first) + texts(second));
    }
    Some(Statement { sql, params })
}

/// The columns of a task.
pub open spec fn task_columns() -> Seq<char> {
    "id, project_id, title, priority, status, description, assigned_to, metadata, resolved_at, created_at, updated_at"@
}

/// The condition that leaves out finished tasks, unless all are wanted.
pub open spec fn unfinished_filter(include_all: bool) -> Seq<char> {
    if include_all {
        ""@
    } else {
        " AND status NOT IN ('done', 'cancelled')"@
    }
}

/// The statement that asks for the given tasks of a project.
pub open spec fn tasks_query(
    project_id: Seq<char>,
    ids: Seq<Seq<char>>,
    include_all: bool,
) -> StatementView {
    StatementView {
        sql: "SELECT "@ + task_columns() + " FROM tasks WHERE project_id = ?1 AND id IN ("@
            + placeholder_text(ids.len(), 2) + ")"@ + unfinished_filter(include_all)
            + " ORDER BY created_at, title"@,
        params: seq![project_id] + ids,
    }
}

/// Asks for tasks of a project, where any are wanted.
pub fn fetch_task_nodes(project_id: &str, ids: &Vec<String>, include_all: bool) -> (query: Option<
    Statement,
>)
    ensures
        query is Some <==> ids@.len() > 0,
        query matches Some(q) ==> q@ == tasks_query(project_id@, texts(ids@), include_all),
{
    if ids.len() == 0 {
        return None;
    }
    let marks = placeholders(ids.len(), 2);
    let filter = if include_all {
        ""
    } else {
        " AND status NOT IN ('done', 'cancelled')"
    };
    let sql = "SELECT ".to_owned().concat(
        "id, project_id, title, priority, status, description, assigned_to, metadata, resolved_at, created_at, updated_at",
    ).concat(" FROM tasks WHERE project_id = ?1 AND id IN (").concat(marks.as_str()).concat(
        ")",
    ).concat(filter).concat(" ORDER BY created_at, title");
    let mut params: Vec<String> = Vec::new();
    params.push(project_id.to_owned());
    let mut rest = copy_texts(ids);
    let ghost first = params@;
    let ghost second = rest@;
    params.append(&mut rest);
    proof {
        assert(params@ =~= first + second);
        assert(texts(params@) =~= seq![project_id@] + texts(second));
    }
    Some(Statement { sql, params })
}

/// A task's place in an iteration as it is stored.
#[derive(Debug)]
pub struct PlaceRow {
    pub iteration_id: String,
    pub task_id: String,
    pub phase: i64,
}

/// The place that a stored row stands for.
pub open spec fn place_of(row: PlaceRow) -> IterationTaskView {
    IterationTaskView {
        iteration_id: row.iteration_id@,
        phase: row.phase as u32,
        task_id: row.task_id@,
    }
}

/// Reads stored places.
pub fn iteration_task_edges(rows: &Vec<PlaceRow>) -> (edges: Vec<IterationTaskEdge>)
    ensures
        iteration_task_views(edges@) == rows@.map_values(|row: PlaceRow| place_of(row)),
{
    let mut edges: Vec<IterationTaskEdge> = Vec::new();
    let mut i: usize = 0;
    while i < rows.len()
        invariant
            i <= rows.len(),
            edges.len() == i,
            forall|k: int| 0 <= k < i ==> (#[trigger] edges@[k])@ == place_of(rows@[k]),
        decreases rows.len() - i,
    {
        let row = &rows[i];
        let phase: u32 = #[verifier::truncate] (row.phase as u32);
        edges.push(
            IterationTaskEdge {
                iteration_id: row.iteration_id.clone(),
                phase,
                task_id: row.task_id.clone(),
            },
        );
        i += 1;
    }
    assert(iteration_task_views(edges@) =~= rows@.map_values(|row: PlaceRow| place_of(row)));
    edges
}

/// Whether a task is wanted: it has a place, or is an end of one of the
/// relationships.
pub open spec fn is_wanted(
    edges: Seq<IterationTaskView>,
    rels: Seq<RelationshipView>,
    task_id: Seq<char>,
) -> bool {
    is_placed(edges, task_id) || is_end_among(rels, task_id)
}

/// Whether `ids` are the ids of the wanted tasks, in ascending order, each
/// once.
pub open spec fn are_wanted_ids(
    ids: Seq<Seq<char>>,
    edges: Seq<IterationTaskView>,
    rels: Seq<RelationshipView>,
) -> bool {
    &&& ascending(ids)
    &&& forall|id: Seq<char>| #[trigger] ids.contains(id) <==> is_wanted(edges, rels, id)
}

/// The ids of the wanted tasks, in ascending order.
pub open spec fn wanted_ids(
    edges: Seq<IterationTaskView>,
    rels: Seq<RelationshipView>,
) -> Seq<Seq<char>> {
    choose|ids: Seq<Seq<char>>| are_wanted_ids(ids, edges, rels)
}

/// Lists the ids of the wanted tasks, in ascending order.
pub fn wanted_task_ids(edges: &Vec<IterationTaskEdge>, rels: &Vec<RelationshipEdge>) -> (ids: Vec<
    String,
>)
    ensures
        are_wanted_ids(texts(ids@), iteration_task_views(edges@), relationship_views(rels@)),
        texts(ids@) == wanted_ids(iteration_task_views(edges@), relationship_views(rels@)),
{
    let ghost places = iteration_task_views(edges@);
    let ghost all = relationship_views(rels@);
    let mut ids = placed_task_ids(edges);
    let mut i: usize = 0;
    while i < rels.len()
        invariant
            i <= rels.len(),
            all == relationship_views(rels@),
            ascending(texts(ids@)),
            forall|id: Seq<char>| #[trigger]
                texts(ids@).contains(id) <==> is_placed(places, id) || exists|k: int|
                    0 <= k < i && is_task_end(#[trigger] all[k], id),
        decreases rels.len() - i,
    {
        let rel = &rels[i];
        let ghost before = texts(ids@);
        if rel.source_type == EntityType::Task {
            insert_text(&mut ids, rel.source_id.clone());
        }
        let ghost middle = texts(ids@);
        if rel.target_type == EntityType::Task {
            insert_text(&mut ids, rel.target_id.clone());
        }
        proof {
            assert(all[i as int] == rel@);
            assert forall|id: Seq<char>| #[trigger]
                texts(ids@).contains(id) <==> is_placed(places, id) || exists|k: int|
                    0 <= k < i + 1 && is_task_end(#[trigger] all[k], id) by {
                assert(before.contains(id) <==> is_placed(places, id) || exists|k: int|
                    0 <= k < i && is_task_end(#[trigger] all[k], id));
                assert(middle.contains(id) <==> before.contains(id) || (rel@.source_type
                    == EntityType::Task && rel@.source_id == id));
                assert(texts(ids@).contains(id) <==> before.contains(id) || is_task_end(
                    all[i as int],
                    id,
                ));
            }
        }
        i += 1;
    }
    proof {
        assert(are_wanted_ids(texts(ids@), places, all));
        let chosen = wanted_ids(places, all);
        assert forall|id: Seq<char>| texts(ids@).contains(id) <==> chosen.contains(id) by {
            assert(texts(ids@).contains(id) <==> is_wanted(places, all, id));
            assert(chosen.contains(id) <==> is_wanted(places, all, id));
        }
        lemma_ascending_unique(texts(ids@), chosen);
    }
    ids
}

/// Whether a task is the last of `nodes` with its id.
pub open spec fn is_latest(nodes: Seq<TaskView>, task: TaskView) -> bool {
    exists|i: int|
        0 <= i < nodes.len() && #[trigger] nodes[i] == task && forall|j: int|
            i < j < nodes.len() ==> (#[trigger] nodes[j]).id != task.id
}

/// Whether `tasks` are the tasks of `nodes` in the order of their ids; of
/// those with one id, the last.
pub open spec fn is_table_of(tasks: Seq<TaskView>, nodes: Seq<TaskView>) -> bool {
    &&& in_id_order(tasks)
    &&& forall|task: TaskView| #[trigger] tasks.contains(task) <==> is_latest(nodes, task)
}

/// The tasks of `nodes` in the order of their ids.
pub open spec fn table_of(nodes: Seq<TaskView>) -> Seq<TaskView> {
    choose|tasks: Seq<TaskView>| is_table_of(tasks, nodes)
}

/// The last of tasks in the order of their ids has the greatest id.
proof fn lemma_last_task(tasks: Seq<TaskView>, task: TaskView)
    requires
        in_id_order(tasks),
        tasks.contains(task),
    ensures
        task == tasks.last() || text_less(task.id, tasks.last().id),
{
    let k = choose|k: int| 0 <= k < tasks.len() && tasks[k] == task;
    if k < tasks.len() - 1 {
        assert(text_less(tasks[k].id, tasks[tasks.len() - 1].id));
    }
}

/// The same tasks stand in the order of their ids in one way only.
pub proof fn lemma_id_order_unique(a: Seq<TaskView>, b: Seq<TaskView>)
    requires
        in_id_order(a),
        in_id_order(b),
        forall|task: TaskView| a.contains(task) <==> b.contains(task),
    ensures
        a == b,
    decreases a.len(),
{
    if a.len() == 0 {
        if b.len() > 0 {
            assert(b.contains(b[0]));
        }
        assert(a =~= b);
    } else {
        assert(a.contains(a[a.len() - 1]));
        lemma_last_task(b, a.last());
        assert(b.contains(b[b.len() - 1]));
        lemma_last_task(a, b.last());
        text_order_is_total(a.last().id, b.last().id);
        assert(a.last() == b.last());
        let x = a.drop_last();
        let y = b.drop_last();
        assert forall|i: int, j: int| 0 <= i < j < x.len() implies text_less(
            (#[trigger] x[i]).id,
            (#[trigger] x[j]).id,
        ) by {
            assert(x[i] == a[i] && x[j] == a[j]);
        }
        assert forall|i: int, j: int| 0 <= i < j < y.len() implies text_less(
            (#[trigger] y[i]).id,
            (#[trigger] y[j]).id,
        ) by {
            assert(y[i] == b[i] && y[j] == b[j]);
        }
        assert forall|t: TaskView| x.contains(t) <==> y.contains(t) by {
            if x.contains(t) {
                let i = choose|i: int| 0 <= i < x.len() && x[i] == t;
                assert(a[i] == t);
                text_order_is_total(a[i].id, a[a.len() - 1].id);
                assert(a.contains(t));
                let j = choose|j: int| 0 <= j < b.len() && b[j] == t;
                assert(y[j] == t);
            }
            if y.contains(t) {
                let j = choose|j: int| 0 <= j < y.len() && y[j] == t;
                assert(b[j] == t);
                text_order_is_total(b[j].id, b[b.len() - 1].id);
                assert(b.contains(t));
                let i = choose|i: int| 0 <= i < a.len() && a[i] == t;
                assert(x[i] == t);
            }
        }
        lemma_id_order_unique(x, y);
        assert(a =~= x.push(a.last()));
        assert(b =~= y.push(b.last()));
    }
}

/// Which tasks are the latest when one more has come.
pub(crate) proof fn lemma_latest_pushed(nodes: Seq<TaskView>, node: TaskView, task: TaskView)
    ensures
        is_latest(nodes.push(node), task) <==> task == node || (is_latest(nodes, task) && task.id
            != node.id),
{
    let after = nodes.push(node);
    if task == node {
        assert(after[nodes.len() as int] == task);
    }
    if is_latest(nodes, task) && task.id != node.id {
        let i = choose|i: int|
            0 <= i < nodes.len() && #[trigger] nodes[i] == task && forall|j: int|
                i < j < nodes.len() ==> (#[trigger] nodes[j]).id != task.id;
        assert(after[i] == task);
        assert forall|j: int| i < j < after.len() implies (#[trigger] after[j]).id != task.id by {
            if j < nodes.len() {
                assert(after[j] == nodes[j]);
            }
        }
    }
    if is_latest(after, task) && task != node {
        let i = choose|i: int|
            0 <= i < after.len() && #[trigger] after[i] == task && forall|j: int|
                i < j < after.len() ==> (#[trigger] after[j]).id != task.id;
        assert(nodes[i] == task);
        assert(after[nodes.len() as int].id != task.id);
        assert forall|j: int| i < j < nodes.len() implies (#[trigger] nodes[j]).id != task.id by {
            assert(after[j] == nodes[j]);
        }
    }
}

/// Puts tasks in the order of their ids.
pub fn task_table(nodes: &Vec<TaskNode>) -> (table: TaskTable)
    ensures
        is_table_of(table@, task_views(nodes@)),
        table@ == table_of(task_views(nodes@)),
{
    let ghost all = task_views(nodes@);
    let mut table = TaskTable::new();
    let mut i: usize = 0;
    while i < nodes.len()
        invariant
            i <= nodes.len(),
            all == task_views(nodes@),
            is_table_of(table@, all.take(i as int)),
        decreases nodes.len() - i,
    {
        let ghost before = table@;
        let node = nodes[i].clone();
        let ghost item = node@;
        table.insert(node);
        proof {
            assert(all[i as int] == item);
            assert(all.take(i + 1) =~= all.take(i as int).push(item));
            assert forall|task: TaskView| #[trigger]
                table@.contains(task) <==> is_latest(all.take(i + 1), task) by {
                lemma_latest_pushed(all.take(i as int), item, task);
                assert(before.contains(task) <==> is_latest(all.take(i as int), task));
            }
        }
        i += 1;
    }
    proof {
        assert(all.take(all.len() as int) =~= all);
        let chosen = table_of(all);
        assert(is_table_of(chosen, all));
        assert forall|task: TaskView| table@.contains(task) <==> chosen.contains(task) by {
            assert(table@.contains(task) <==> is_latest(all, task));
            assert(chosen.contains(task) <==> is_latest(all, task));
        }
        lemma_id_order_unique(table@, chosen);
    }
    table
}

/// What is kept of loaded rows: the tasks, the places of those tasks, and
/// the relationships whose ends, where they are tasks, are among them.
pub open spec fn assembled(
    iterations: Seq<IterationView>,
    edges: Seq<IterationTaskView>,
    rels: Seq<RelationshipView>,
    nodes: Seq<TaskView>,
) -> GraphDataView {
    let tasks = table_of(nodes);
    GraphDataView {
        iteration_tasks: edges.filter(|edge: IterationTaskView| has_task(tasks, edge.task_id)),
        iterations,
        relationships: rels.filter(|rel: RelationshipView| ends_known(rel, tasks)),
        tasks,
    }
}

/// The first step: the iterations of a project are asked for, finished ones
/// too where all are wanted.
#[derive(Debug)]
pub struct GraphLoad {
    pub project_id: String,
    pub include_all: bool,
}

/// The second step: the places of tasks in the iterations are asked for.
#[derive(Debug)]
pub struct PlaceLoad {
    pub project_id: String,
    pub include_all: bool,
    pub iterations: Vec<IterationNode>,
}

/// The third step: the relationships of the placed tasks are asked for.
#[derive(Debug)]
pub struct RelationshipLoad {
    pub project_id: String,
    pub include_all: bool,
    pub iterations: Vec<IterationNode>,
    pub edges: Vec<IterationTaskEdge>,
}

/// The last step: the tasks are asked for.
#[derive(Debug)]
pub struct TaskLoad {
    pub project_id: String,
    pub include_all: bool,
    pub iterations: Vec<IterationNode>,
    pub edges: Vec<IterationTaskEdge>,
    pub relationships: Vec<RelationshipEdge>,
}

/// Begins to load what the graphs of a project are drawn from.
pub fn load_graph_data(project_id: &str, include_all: bool) -> (load: GraphLoad)
    ensures
        load.project_id@ == project_id@,
        load.include_all == include_all,
{
    GraphLoad { project_id: project_id.to_owned(), include_all }
}

impl GraphLoad {
    /// Takes the iterations, and goes on with them from the oldest to the
    /// newest.
    pub fn with_iterations(self, rows: &Vec<IterationRow>) -> (next: PlaceLoad)
        ensures
            next.project_id == self.project_id,
            next.include_all == self.include_all,
            iteration_views(next.iterations@) == loaded_iterations(iteration_row_views(rows@)),
    {
        PlaceLoad {
            project_id: self.project_id,
            include_all: self.include_all,
            iterations: order_iterations(rows),
        }
    }
}

impl PlaceLoad {
    /// The statement whose answer this step takes; none is needed where there
    /// are no iterations.
    pub fn statement(&self) -> (query: Option<Statement>)
        ensures
            query is Some <==> self.iterations@.len() > 0,
            query matches Some(q) ==> q@ == places_query(
                iteration_ids(iteration_views(self.iterations@)),
            ),
    {
        fetch_iteration_task_edges(&self.iterations)
    }

    /// Takes the places.
    pub fn with_places(self, rows: &Vec<PlaceRow>) -> (next: RelationshipLoad)
        ensures
            next.project_id == self.project_id,
            next.include_all == self.include_all,
            next.iterations == self.iterations,
            iteration_task_views(next.edges@) == rows@.map_values(|row: PlaceRow| place_of(row)),
    {
        RelationshipLoad {
            project_id: self.project_id,
            include_all: self.include_all,
            iterations: self.iterations,
            edges: iteration_task_edges(rows),
        }
    }
}

impl RelationshipLoad {
    /// The statement whose answer this step takes; none is needed where no
    /// task has a place.
    pub fn statement(&self) -> (query: Option<Statement>)
        ensures
            query is Some <==> self.edges@.len() > 0,
            query matches Some(q) ==> q@ == relationships_query(
                placed_ids(iteration_task_views(self.edges@)),
            ),
    {
        let ids = placed_task_ids(&self.edges);
        proof {
            let places = iteration_task_views(self.edges@);
            if self.edges@.len() > 0 {
                assert(places[0].task_id == places[0].task_id);
                assert(is_placed(places, places[0].task_id));
                assert(texts(ids@).contains(places[0].task_id));
            } else if ids@.len() > 0 {
                assert(texts(ids@).contains(texts(ids@)[0]));
                assert(is_placed(places, texts(ids@)[0]));
            }
        }
        fetch_task_relationship_edges(&ids)
    }

    /// Takes the relationships.
    pub fn with_relationships(self, relationships: Vec<RelationshipEdge>) -> (next: TaskLoad)
        ensures
            next.project_id == self.project_id,
            next.include_all == self.include_all,
            next.iterations == self.iterations,
            next.edges == self.edges,
            next.relationships == relationships,
    {
        TaskLoad {
            project_id: self.project_id,
            include_all: self.include_all,
            iterations: self.iterations,
            edges: self.edges,
            relationships,
        }
    }
}

impl TaskLoad {
    /// The statement whose answer this step takes; none is needed where no
    /// task is wanted.
    pub fn statement(&self) -> (query: Option<Statement>)
        ensures
            query is Some <==> wanted_ids(
                iteration_task_views(self.edges@),
                relationship_views(self.relationships@),
            ).len() > 0,
            query matches Some(q) ==> q@ == tasks_query(
                self.project_id@,
                wanted_ids(
                    iteration_task_views(self.edges@),
                    relationship_views(self.relationships@),
                ),
                self.include_all,
            ),
    {
        let ids = wanted_task_ids(&self.edges, &self.relationships);
        assert(texts(ids@).len() == ids@.len());
        fetch_task_nodes(self.project_id.as_str(), &ids, self.include_all)
    }

    /// Takes the tasks, and keeps what links them.
    pub fn with_tasks(self, nodes: &Vec<TaskNode>) -> (data: GraphData)
        ensures
            data@ == assembled(
                iteration_views(self.iterations@),
                iteration_task_views(self.edges@),
                relationship_views(self.relationships@),
                task_views(nodes@),
            ),
    {
        let tasks = task_table(nodes);
        let ghost all = iteration_task_views(self.edges@);
        let ghost known = |edge: IterationTaskView| has_task(tasks@, edge.task_id);
        let mut kept: Vec<IterationTaskEdge> = Vec::new();
        let mut i: usize = 0;
        proof {
            reveal(Seq::filter);
            assert(iteration_task_views(kept@) =~= all.take(0).filter(known));
        }
        while i < self.edges.len()
            invariant
                i <= self.edges.len(),
                all == iteration_task_views(self.edges@),
                known == (|edge: IterationTaskView| has_task(tasks@, edge.task_id)),
                iteration_task_views(kept@) == all.take(i as int).filter(known),
            decreases self.edges.len() - i,
        {
            let edge = &self.edges[i];
            let ghost before = iteration_task_views(kept@);
            proof {
                assert(all[i as int] == edge@);
                lemma_filter_take(all, known, i as int);
            }
            if tasks.contains_key(edge.task_id.as_str()) {
                let copy = IterationTaskEdge {
                    iteration_id: edge.iteration_id.clone(),
                    phase: edge.phase,
                    task_id: edge.task_id.clone(),
                };
                kept.push(copy);
                assert(iteration_task_views(kept@) =~= before.push(edge@));
            }
            i += 1;
        }
        assert(all.take(all.len() as int) =~= all);
        let relationships = with_known_ends(&self.relationships, &tasks);
        GraphData { iteration_tasks: kept, iterations: self.iterations, relationships, tasks }
    }
}

/// Whatever the places, their tasks' ids can be listed in ascending order:
/// `placed_ids` is that list.
pub proof fn placed_ids_are_the_placed(edges: Seq<IterationTaskView>)
    ensures
        are_placed_ids(placed_ids(edges), edges),
{
    let list = edges.map_values(|edge: IterationTaskView| edge.task_id);
    let sorted = lemma_ascending_exists(list);
    assert forall|id: Seq<char>| #[trigger] sorted.contains(id) <==> is_placed(edges, id) by {
        assert(sorted.contains(id) <==> list.contains(id));
        if list.contains(id) {
            let k = choose|k: int| 0 <= k < list.len() && list[k] == id;
            assert(edges[k].task_id == id);
        }
        if is_placed(edges, id) {
            let k = choose|k: int| 0 <= k < edges.len() && (#[trigger] edges[k]).task_id == id;
            assert(list[k] == id);
        }
    }
    assert(are_placed_ids(sorted, edges));
}

/// The ids of the tasks at the ends of relationships.
spec fn end_ids(rels: Seq<RelationshipView>) -> Seq<Seq<char>>
    decreases rels.len(),
{
    if rels.len() == 0 {
        Seq::empty()
    } else {
        let rel = rels.last();
        let source = if rel.source_type == EntityType::Task {
            seq![rel.source_id]
        } else {
            Seq::empty()
        };
        let target = if rel.target_type == EntityType::Task {
            seq![rel.target_id]
        } else {
            Seq::empty()
        };
        end_ids(rels.drop_last()) + source + target
    }
}

/// A text is in two lists together where it is in either.
proof fn lemma_contains_add<A>(a: Seq<A>, b: Seq<A>, x: A)
    ensures
        (a + b).contains(x) <==> a.contains(x) || b.contains(x),
{
    if a.contains(x) {
        let k = choose|k: int| 0 <= k < a.len() && a[k] == x;
        assert((a + b)[k] == x);
    }
    if b.contains(x) {
        let k = choose|k: int| 0 <= k < b.len() && b[k] == x;
        assert((a + b)[a.len() + k] == x);
    }
    if (a + b).contains(x) {
        let k = choose|k: int| 0 <= k < (a + b).len() && (a + b)[k] == x;
        if k < a.len() {
            assert(a[k] == x);
        } else {
            assert(b[k - a.len()] == x);
        }
    }
}

/// The ends of relationships are the ids listed of them.
proof fn lemma_end_ids(rels: Seq<RelationshipView>, id: Seq<char>)
    ensures
        end_ids(rels).contains(id) <==> is_end_among(rels, id),
    decreases rels.len(),
{
    if rels.len() > 0 {
        let rest = rels.drop_last();
        let rel = rels.last();
        lemma_end_ids(rest, id);
        let source = if rel.source_type == EntityType::Task {
            seq![rel.source_id]
        } else {
            Seq::empty()
        };
        let target = if rel.target_type == EntityType::Task {
            seq![rel.target_id]
        } else {
            Seq::empty()
        };
        lemma_contains_add(end_ids(rest), source, id);
        lemma_contains_add(end_ids(rest) + source, target, id);
        assert(source.contains(id) <==> rel.source_type == EntityType::Task && rel.source_id == id)
            by {
            if rel.source_type == EntityType::Task {
                assert(source[0] == rel.source_id);
            }
        }
        assert(target.contains(id) <==> rel.target_type == EntityType::Task && rel.target_id == id)
            by {
            if rel.target_type == EntityType::Task {
                assert(target[0] == rel.target_id);
            }
        }
        if is_end_among(rels, id) {
            let k = choose|k: int| 0 <= k < rels.len() && is_task_end(#[trigger] rels[k], id);
            if k < rest.len() {
                assert(is_task_end(rest[k], id));
            }
        }
        if is_end_among(rest, id) {
            let k = choose|k: int| 0 <= k < rest.len() && is_task_end(#[trigger] rest[k], id);
            assert(is_task_end(rels[k], id));
        }
        if is_task_end(rel, id) {
            assert(is_task_end(rels[rels.len() - 1], id));
        }
    }
}

/// Whatever the places and relationships, the ids of the tasks that they name
/// can be listed in ascending order: `wanted_ids` is that list.
pub proof fn wanted_ids_are_the_wanted(
    edges: Seq<IterationTaskView>,
    rels: Seq<RelationshipView>,
)
    ensures
        are_wanted_ids(wanted_ids(edges, rels), edges, rels),
{
    placed_ids_are_the_placed(edges);
    let list = placed_ids(edges) + end_ids(rels);
    let sorted = lemma_ascending_exists(list);
    assert forall|id: Seq<char>| #[trigger] sorted.contains(id) <==> is_wanted(edges, rels, id) by {
        assert(sorted.contains(id) <==> list.contains(id));
        lemma_contains_add(placed_ids(edges), end_ids(rels), id);
        lemma_end_ids(rels, id);
        assert(placed_ids(edges).contains(id) <==> is_placed(edges, id));
    }
    assert(are_wanted_ids(sorted, edges, rels));
}

/// The rows that came at one point in time.
pub open spec fn of_age(rows: Seq<IterationRowView>, at: TimestampView) -> Seq<IterationRowView> {
    rows.filter(|row: IterationRowView| row.created_at == at)
}

/// Stored iterations are put in order without losing or adding any, none
/// stands behind a newer one, and those of the same age keep their order.
pub proof fn by_age_is_a_stable_order(rows: Seq<IterationRowView>)
    ensures
        by_age(rows).to_multiset() == rows.to_multiset(),
        forall|i: int, j: int|
            0 <= i < j < by_age(rows).len() ==> !(#[trigger] by_age(rows)[i]).created_at.after(
                (#[trigger] by_age(rows)[j]).created_at,
            ),
        forall|at: TimestampView| #[trigger] of_age(by_age(rows), at) == of_age(rows, at),
    decreases rows.len(),
{
    if rows.len() > 0 {
        let rest = rows.drop_last();
        let row = rows.last();
        by_age_is_a_stable_order(rest);
        lemma_insert_keeps_order(by_age(rest), row);
        assert(rows =~= rest.push(row));
        broadcast use vstd::seq_lib::group_to_multiset_ensures;

        assert forall|at: TimestampView| #[trigger] of_age(by_age(rows), at) == of_age(
            rows,
            at,
        ) by {
            let same = |row: IterationRowView| row.created_at == at;
            lemma_insert_filtered(by_age(rest), row, at);
            assert(of_age(by_age(rest), at) == of_age(rest, at));
            lemma_filter_take(rows, same, rows.len() - 1);
            assert(rows.take(rows.len() - 1) =~= rest);
            assert(rows.take(rows.len() as int) =~= rows);
        }
    } else {
        assert(rows =~= Seq::empty());
    }
}

/// Inserting by age keeps the order and adds exactly the one row.
proof fn lemma_insert_keeps_order(rows: Seq<IterationRowView>, row: IterationRowView)
    requires
        forall|i: int, j: int|
            0 <= i < j < rows.len() ==> !(#[trigger] rows[i]).created_at.after(
                (#[trigger] rows[j]).created_at,
            ),
    ensures
        insert_by_age(rows, row).to_multiset() == rows.to_multiset().insert(row),
        forall|i: int, j: int|
            0 <= i < j < insert_by_age(rows, row).len() ==> !(#[trigger] insert_by_age(
                rows,
                row,
            )[i]).created_at.after((#[trigger] insert_by_age(rows, row)[j]).created_at),
    decreases rows.len(),
{
    broadcast use vstd::seq_lib::group_to_multiset_ensures;

    if rows.len() == 0 || !rows.last().created_at.after(row.created_at) {
        assert forall|i: int, j: int| 0 <= i < j < rows.push(row).len() implies !(
        #[trigger] rows.push(row)[i]).created_at.after((#[trigger] rows.push(row)[j]).created_at) by {
            if j == rows.len() {
                if i < rows.len() - 1 {
                    assert(!rows[i].created_at.after(rows[rows.len() - 1].created_at));
                }
            } else {
                assert(!rows[i].created_at.after(rows[j].created_at));
            }
        }
    } else {
        let rest = rows.drop_last();
        assert forall|i: int, j: int| 0 <= i < j < rest.len() implies !(
        #[trigger] rest[i]).created_at.after((#[trigger] rest[j]).created_at) by {
            assert(rest[i] == rows[i] && rest[j] == rows[j]);
        }
        lemma_insert_keeps_order(rest, row);
        lemma_insert_members(rest, row);
        let inner = insert_by_age(rest, row);
        let after = inner.push(rows.last());
        assert(rows =~= rest.push(rows.last()));
        assert(after.to_multiset() =~= rows.to_multiset().insert(row));
        assert forall|i: int, j: int| 0 <= i < j < after.len() implies !(
        #[trigger] after[i]).created_at.after((#[trigger] after[j]).created_at) by {
            if j == inner.len() {
                assert(inner.contains(inner[i]));
                if inner[i] != row {
                    let k = choose|k: int| 0 <= k < rest.len() && rest[k] == inner[i];
                    assert(rows[k] == inner[i]);
                    assert(!rows[k].created_at.after(rows[rows.len() - 1].created_at));
                }
            } else {
                assert(after[i] == inner[i] && after[j] == inner[j]);
            }
        }
    }
}

/// Inserting by age adds nothing but the row.
proof fn lemma_insert_members(rows: Seq<IterationRowView>, row: IterationRowView)
    ensures
        forall|x: IterationRowView| #[trigger]
            insert_by_age(rows, row).contains(x) ==> x == row || rows.contains(x),
    decreases rows.len(),
{
    if !(rows.len() == 0 || !rows.last().created_at.after(row.created_at)) {
        let rest = rows.drop_last();
        lemma_insert_members(rest, row);
        let inner = insert_by_age(rest, row);
        assert forall|x: IterationRowView| #[trigger]
            insert_by_age(rows, row).contains(x) implies x == row || rows.contains(x) by {
            let after = inner.push(rows.last());
            let k = choose|k: int| 0 <= k < after.len() && after[k] == x;
            if k < inner.len() {
                assert(inner[k] == x);
                assert(inner.contains(x));
                if x != row {
                    let m = choose|m: int| 0 <= m < rest.len() && rest[m] == x;
                    assert(rows[m] == x);
                }
            } else {
                assert(rows[rows.len() - 1] == x);
            }
        }
    } else {
        assert forall|x: IterationRowView| #[trigger]
            insert_by_age(rows, row).contains(x) implies x == row || rows.contains(x) by {
            let after = rows.push(row);
            let k = choose|k: int| 0 <= k < after.len() && after[k] == x;
            if k < rows.len() {
                assert(rows[k] == x);
            }
        }
    }
}

/// Among the rows of one age, a row inserted by age comes last.
proof fn lemma_insert_filtered(
    rows: Seq<IterationRowView>,
    row: IterationRowView,
    at: TimestampView,
)
    ensures
        of_age(insert_by_age(rows, row), at) == if row.created_at == at {
            of_age(rows, at).push(row)
        } else {
            of_age(rows, at)
        },
    decreases rows.len(),
{
    reveal(Seq::filter);
    if rows.len() == 0 || !rows.last().created_at.after(row.created_at) {
        assert(rows.push(row).drop_last() =~= rows);
    } else {
        let rest = rows.drop_last();
        lemma_insert_filtered(rest, row, at);
        let inner = insert_by_age(rest, row);
        assert(inner.push(rows.last()).drop_last() =~= inner);
    }
}

} // verus!
