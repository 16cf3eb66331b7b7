//! What graphs are drawn from: iterations, tasks, the places of tasks in
//! iterations, and relationships.
use vstd::prelude::*;

use crate::model::{EntityType, RelationshipType};
use crate::seqs::{lemma_filter_members, lemma_filter_take};
use crate::text::{
    contains_text, less, same, text_less, text_order_is_total, text_order_is_transitive, texts,
};

verus! {

/// An iteration, as a graph shows it.
#[derive(Debug)]
pub struct IterationNode {
    pub id: String,
    pub status: String,
    pub title: String,
}

/// What an [`IterationNode`] holds.
#[verifier::ext_equal]
pub struct IterationView {
    pub id: Seq<char>,
    pub status: Seq<char>,
    pub title: Seq<char>,
}

impl View for IterationNode {
    type V = IterationView;

    open spec fn view(&self) -> IterationView {
        IterationView { id: self.id@, status: self.status@, title: self.title@ }
    }
}

/// A task's place in a phase of an iteration.
#[derive(Debug)]
pub struct IterationTaskEdge {
    pub iteration_id: String,
    pub phase: u32,
    pub task_id: String,
}

/// What an [`IterationTaskEdge`] holds.
#[verifier::ext_equal]
pub struct IterationTaskView {
    pub iteration_id: Seq<char>,
    pub phase: u32,
    pub task_id: Seq<char>,
}

impl View for IterationTaskEdge {
    type V = IterationTaskView;

    open spec fn view(&self) -> IterationTaskView {
        IterationTaskView {
            iteration_id: self.iteration_id@,
            phase: self.phase,
            task_id: self.task_id@,
        }
    }
}

/// A relationship between two entities.
#[derive(Debug)]
pub struct RelationshipEdge {
    pub rel_type: RelationshipType,
    pub source_id: String,
    pub source_type: EntityType,
    pub target_id: String,
    pub target_type: EntityType,
}

/// What a [`RelationshipEdge`] holds.
#[verifier::ext_equal]
pub struct RelationshipView {
    pub rel_type: RelationshipType,
    pub source_id: Seq<char>,
    pub source_type: EntityType,
    pub target_id: Seq<char>,
    pub target_type: EntityType,
}

impl View for RelationshipEdge {
    type V = RelationshipView;

    open spec fn view(&self) -> RelationshipView {
        RelationshipView {
            rel_type: self.rel_type,
            source_id: self.source_id@,
            source_type: self.source_type,
            target_id: self.target_id@,
            target_type: self.target_type,
        }
    }
}

impl Clone for RelationshipEdge {
    fn clone(&self) -> (res: RelationshipEdge)
        ensures
            res@ == self@,
    {
        RelationshipEdge {
            rel_type: self.rel_type,
            source_id: self.source_id.clone(),
            source_type: self.source_type,
            target_id: self.target_id.clone(),
            target_type: self.target_type,
        }
    }
}

/// A task, as a graph shows it.
#[derive(Debug)]
pub struct TaskNode {
    pub id: String,
    pub priority: Option<u8>,
    pub status: String,
    pub title: String,
}

/// What a [`TaskNode`] holds.
#[verifier::ext_equal]
pub struct TaskView {
    pub id: Seq<char>,
    pub priority: Option<u8>,
    pub status: Seq<char>,
    pub title: Seq<char>,
}

impl View for TaskNode {
    type V = TaskView;

    open spec fn view(&self) -> TaskView {
        TaskView {
            id: self.id@,
            priority: self.priority,
            status: self.status@,
            title: self.title@,
        }
    }
}

impl Clone for TaskNode {
    fn clone(&self) -> (res: TaskNode)
        ensures
            res@ == self@,
    {
        TaskNode {
            id: self.id.clone(),
            priority: self.priority,
            status: self.status.clone(),
            title: self.title.clone(),
        }
    }
}

/// What a list of iterations holds.
pub open spec fn iteration_views(list: Seq<IterationNode>) -> Seq<IterationView> {
    list.map_values(|node: IterationNode| node@)
}

/// What a list of places in phases holds.
pub open spec fn iteration_task_views(list: Seq<IterationTaskEdge>) -> Seq<IterationTaskView> {
    list.map_values(|edge: IterationTaskEdge| edge@)
}

/// What a list of relationships holds.
pub open spec fn relationship_views(list: Seq<RelationshipEdge>) -> Seq<RelationshipView> {
    list.map_values(|edge: RelationshipEdge| edge@)
}

/// What a list of tasks holds.
pub open spec fn task_views(list: Seq<TaskNode>) -> Seq<TaskView> {
    list.map_values(|node: TaskNode| node@)
}

/// Whether tasks stand in the order of their ids, none twice.
pub open spec fn in_id_order(tasks: Seq<TaskView>) -> bool {
    forall|i: int, j: int|
        0 <= i < j < tasks.len() ==> text_less((#[trigger] tasks[i]).id, (#[trigger] tasks[j]).id)
}

/// Whether a task with the given id is among `tasks`.
pub open spec fn has_task(tasks: Seq<TaskView>, id: Seq<char>) -> bool {
    exists|i: int| 0 <= i < tasks.len() && (#[trigger] tasks[i]).id == id
}

/// A task can take the place of the one with its id.
pub(crate) proof fn lemma_replaced(tasks: Seq<TaskView>, at: int, item: TaskView)
    requires
        in_id_order(tasks),
        0 <= at < tasks.len(),
        tasks[at].id == item.id,
    ensures
        in_id_order(tasks.update(at, item)),
        forall|task: TaskView| #[trigger]
            tasks.update(at, item).contains(task) <==> task == item || (tasks.contains(task)
                && task.id != item.id),
{
    let after = tasks.update(at, item);
    assert forall|task: TaskView| #[trigger]
        after.contains(task) <==> task == item || (tasks.contains(task) && task.id != item.id) by {
        if after.contains(task) && task != item {
            let k = choose|k: int| 0 <= k < after.len() && after[k] == task;
            assert(tasks[k] == task);
            text_order_is_total(tasks[k].id, tasks[at].id);
            assert(k < at ==> text_less(tasks[k].id, tasks[at].id));
            assert(at < k ==> text_less(tasks[at].id, tasks[k].id));
        }
        if task == item {
            assert(after[at] == task);
        } else if tasks.contains(task) && task.id != item.id {
            let k = choose|k: int| 0 <= k < tasks.len() && tasks[k] == task;
            assert(after[k] == task);
        }
    }
}

/// A task can be put between those that come before it and those that come
/// after it.
pub(crate) proof fn lemma_inserted(tasks: Seq<TaskView>, at: int, item: TaskView)
    requires
        in_id_order(tasks),
        0 <= at <= tasks.len(),
        forall|j: int| 0 <= j < at ==> text_less((#[trigger] tasks[j]).id, item.id),
        at < tasks.len() ==> !text_less(tasks[at].id, item.id) && tasks[at].id != item.id,
    ensures
        in_id_order(tasks.insert(at, item)),
        forall|task: TaskView| #[trigger]
            tasks.insert(at, item).contains(task) <==> task == item || (tasks.contains(task)
                && task.id != item.id),
{
    let after = tasks.insert(at, item);
    assert forall|j: int| at <= j < tasks.len() implies text_less(
        item.id,
        (#[trigger] tasks[j]).id,
    ) by {
        text_order_is_total(tasks[at].id, item.id);
        if at < j {
            text_order_is_transitive(item.id, tasks[at].id, tasks[j].id);
        }
    }
    assert forall|i: int, j: int| 0 <= i < j < after.len() implies text_less(
        (#[trigger] after[i]).id,
        (#[trigger] after[j]).id,
    ) by {
        let x = if i < at { i } else { i - 1 };
        let y = if j < at { j } else { j - 1 };
        if i != at {
            assert(after[i] == tasks[x]);
        }
        if j != at {
            assert(after[j] == tasks[y]);
        }
    }
    assert forall|task: TaskView| #[trigger]
        after.contains(task) <==> task == item || (tasks.contains(task) && task.id != item.id) by {
        if after.contains(task) && task != item {
            let k = choose|k: int| 0 <= k < after.len() && after[k] == task;
            let x = if k < at { k } else { k - 1 };
            assert(tasks[x] == task);
            text_order_is_total(tasks[x].id, item.id);
        }
        if task == item {
            assert(after[at] == task);
        } else if tasks.contains(task) && task.id != item.id {
            let k = choose|k: int| 0 <= k < tasks.len() && tasks[k] == task;
            assert(after[if k < at { k } else { k + 1 }] == task);
        }
    }
}

/// Some of the tasks of an order are in order too.
proof fn lemma_filter_in_id_order(tasks: Seq<TaskView>, f: spec_fn(TaskView) -> bool)
    requires
        in_id_order(tasks),
    ensures
        in_id_order(tasks.filter(f)),
    decreases tasks.len(),
{
    reveal(Seq::filter);
    if tasks.len() > 0 {
        let rest = tasks.drop_last();
        assert forall|i: int, j: int| 0 <= i < j < rest.len() implies text_less(
            (#[trigger] rest[i]).id,
            (#[trigger] rest[j]).id,
        ) by {
            assert(rest[i] == tasks[i] && rest[j] == tasks[j]);
        }
        lemma_filter_in_id_order(rest, f);
        if f(tasks.last()) {
            let kept = rest.filter(f);
            lemma_filter_members(rest, f);
            assert forall|i: int| 0 <= i < kept.len() implies text_less(
                (#[trigger] kept[i]).id,
                tasks.last().id,
            ) by {
                assert(kept.contains(kept[i]));
                let k = choose|k: int| 0 <= k < rest.len() && rest[k] == kept[i];
                assert(tasks[k] == kept[i]);
                assert(text_less(tasks[k].id, tasks[tasks.len() - 1].id));
            }
        }
    }
}

/// Tasks by their ids, in the order of the ids.
#[derive(Debug)]
pub struct TaskTable {
    nodes: Vec<TaskNode>,
}

impl View for TaskTable {
    type V = Seq<TaskView>;

    closed spec fn view(&self) -> Seq<TaskView> {
        task_views(self.nodes@)
    }
}

impl TaskTable {
    #[verifier::type_invariant]
    spec fn is_ordered(self) -> bool {
        in_id_order(self@)
    }

    /// A table without tasks.
    pub fn new() -> (table: TaskTable)
        ensures
            table@.len() == 0,
            in_id_order(table@),
    {
        TaskTable { nodes: Vec::new() }
    }

    /// Puts a task in its place; one that had the same id leaves.
    pub fn insert(&mut self, node: TaskNode)
        ensures
            in_id_order(final(self)@),
            forall|task: TaskView| #[trigger]
                final(self)@.contains(task) <==> task == node@ || (old(self)@.contains(task)
                    && task.id != node@.id),
    {
        proof {
            use_type_invariant(&*self);
        }
        let ghost before = self@;
        let mut nodes: Vec<TaskNode> = Vec::new();
        std::mem::swap(&mut nodes, &mut self.nodes);
        let mut at: usize = 0;
        while at < nodes.len() && less(nodes[at].id.as_str(), node.id.as_str())
            invariant
                at <= nodes.len(),
                before == task_views(nodes@),
                in_id_order(before),
                forall|j: int| 0 <= j < at ==> text_less((#[trigger] before[j]).id, node@.id),
            decreases nodes.len() - at,
        {
            assert(before[at as int].id == nodes[at as int].id@);
            at += 1;
        }
        let taken: bool = at < nodes.len() && same(nodes[at].id.as_str(), node.id.as_str());
        let ghost item = node@;
        if taken {
            nodes.set(at, node);
            proof {
                let after = task_views(nodes@);
                assert(before[at as int].id == item.id);
                assert(after =~= before.update(at as int, item));
                lemma_replaced(before, at as int, item);
            }
        } else {
            nodes.insert(at, node);
            proof {
                let after = task_views(nodes@);
                if at < before.len() {
                    assert(before[at as int].id != item.id);
                }
                assert(after =~= before.insert(at as int, item));
                lemma_inserted(before, at as int, item);
            }
        }
        self.nodes = nodes;
    }

    /// How many tasks the table holds.
    pub fn len(&self) -> (len: usize)
        ensures
            len == self@.len(),
    {
        self.nodes.len()
    }

    /// The task at a place of the order.
    pub fn get(&self, index: usize) -> (node: &TaskNode)
        requires
            index < self@.len(),
        ensures
            node@ == self@[index as int],
    {
        &self.nodes[index]
    }

    /// The tasks whose ids are among `ids`.
    pub fn select(&self, ids: &Vec<String>) -> (table: TaskTable)
        ensures
            table@ == self@.filter(|task: TaskView| texts(ids@).contains(task.id)),
            in_id_order(table@),
    {
        proof {
            use_type_invariant(self);
        }
        let ghost wanted = |task: TaskView| texts(ids@).contains(task.id);
        let mut nodes: Vec<TaskNode> = Vec::new();
        let mut i: usize = 0;
        proof {
            reveal(Seq::filter);
            assert(task_views(nodes@) =~= self@.take(0).filter(wanted));
        }
        while i < self.nodes.len()
            invariant
                i <= self.nodes.len(),
                self@ == task_views(self.nodes@),
                wanted == (|task: TaskView| texts(ids@).contains(task.id)),
                task_views(nodes@) == self@.take(i as int).filter(wanted),
            decreases self.nodes.len() - i,
        {
            let ghost before = task_views(nodes@);
            proof {
                lemma_filter_take(self@, wanted, i as int);
            }
            if contains_text(ids, self.nodes[i].id.as_str()) {
                let node = self.nodes[i].clone();
                nodes.push(node);
                assert(task_views(nodes@) =~= before.push(node@));
            }
            i += 1;
        }
        proof {
            assert(self@.take(self@.len() as int) =~= self@);
            lemma_filter_in_id_order(self@, wanted);
        }
        TaskTable { nodes }
    }

    /// Decides whether the table holds a task with the given id.
    pub fn contains_key(&self, id: &str) -> (res: bool)
        ensures
            res == has_task(self@, id@),
    {
        let mut i: usize = 0;
        while i < self.nodes.len()
            invariant
                i <= self.nodes.len(),
                self@.len() == self.nodes.len(),
                forall|j: int| 0 <= j < i ==> (#[trigger] self@[j]).id != id@,
            decreases self.nodes.len() - i,
        {
            assert(self@[i as int].id == self.nodes[i as int].id@);
            if same(self.nodes[i].id.as_str(), id) {
                return true;
            }
            i += 1;
        }
        false
    }
}

} // verus!
