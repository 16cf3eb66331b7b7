//! The graphs of the phases of iterations.
use vstd::prelude::*;

use crate::model::EntityType;
use crate::seqs::{lemma_filter_agree, lemma_filter_take};
use crate::text::{contains_text, decimal, decimal_text, first_chars, same, take_chars, texts};
use crate::web::mermaid::{build_mermaid, mermaid_text};
use crate::web::nodes::{
    has_task, iteration_task_views, iteration_views, relationship_views, IterationNode,
    IterationTaskEdge, IterationTaskView, IterationView, RelationshipEdge, RelationshipView,
    TaskTable, TaskView,
};

verus! {

/// All that the graphs of a project are drawn from.
#[derive(Debug)]
pub struct GraphData {
    pub iteration_tasks: Vec<IterationTaskEdge>,
    pub iterations: Vec<IterationNode>,
    pub relationships: Vec<RelationshipEdge>,
    pub tasks: TaskTable,
}

/// What a [`GraphData`] holds.
#[verifier::ext_equal]
pub struct GraphDataView {
    pub iteration_tasks: Seq<IterationTaskView>,
    pub iterations: Seq<IterationView>,
    pub relationships: Seq<RelationshipView>,
    pub tasks: Seq<TaskView>,
}

impl View for GraphData {
    type V = GraphDataView;

    open spec fn view(&self) -> GraphDataView {
        GraphDataView {
            iteration_tasks: iteration_task_views(self.iteration_tasks@),
            iterations: iteration_views(self.iterations@),
            relationships: relationship_views(self.relationships@),
            tasks: self.tasks@,
        }
    }
}

/// A graph, how many tasks it shows, and its title.
#[derive(Debug)]
pub struct MermaidGraph {
    pub mermaid: String,
    pub task_count: usize,
    pub title: String,
}

/// What a [`MermaidGraph`] holds.
#[verifier::ext_equal]
pub struct MermaidGraphView {
    pub mermaid: Seq<char>,
    pub task_count: nat,
    pub title: Seq<char>,
}

impl View for MermaidGraph {
    type V = MermaidGraphView;

    open spec fn view(&self) -> MermaidGraphView {
        MermaidGraphView {
            mermaid: self.mermaid@,
            task_count: self.task_count as nat,
            title: self.title@,
        }
    }
}

/// The graph of one phase, and its number.
#[derive(Debug)]
pub struct PhaseGraph {
    pub graph: MermaidGraph,
    pub number: u32,
}

/// What a [`PhaseGraph`] holds.
#[verifier::ext_equal]
pub struct PhaseGraphView {
    pub graph: MermaidGraphView,
    pub number: u32,
}

impl View for PhaseGraph {
    type V = PhaseGraphView;

    open spec fn view(&self) -> PhaseGraphView {
        PhaseGraphView { graph: self.graph@, number: self.number }
    }
}

/// The graphs of the phases of one iteration.
#[derive(Debug)]
pub struct PhaseGraphSection {
    pub iteration_id: String,
    pub iteration_short_id: String,
    pub iteration_status: String,
    pub iteration_title: String,
    pub phases: Vec<PhaseGraph>,
}

/// What a [`PhaseGraphSection`] holds.
#[verifier::ext_equal]
pub struct SectionView {
    pub iteration_id: Seq<char>,
    pub iteration_short_id: Seq<char>,
    pub iteration_status: Seq<char>,
    pub iteration_title: Seq<char>,
    pub phases: Seq<PhaseGraphView>,
}

/// What a list of phase graphs holds.
pub open spec fn phase_graph_views(list: Seq<PhaseGraph>) -> Seq<PhaseGraphView> {
    list.map_values(|phase: PhaseGraph| phase@)
}

impl View for PhaseGraphSection {
    type V = SectionView;

    open spec fn view(&self) -> SectionView {
        SectionView {
            iteration_id: self.iteration_id@,
            iteration_short_id: self.iteration_short_id@,
            iteration_status: self.iteration_status@,
            iteration_title: self.iteration_title@,
            phases: phase_graph_views(self.phases@),
        }
    }
}

/// What a list of sections holds.
pub open spec fn section_views(list: Seq<PhaseGraphSection>) -> Seq<SectionView> {
    list.map_values(|section: PhaseGraphSection| section@)
}

/// Whether a place is in the given phase of the given iteration.
pub open spec fn is_place(edge: IterationTaskView, iteration_id: Seq<char>, phase: u32) -> bool {
    edge.iteration_id == iteration_id && edge.phase == phase
}

/// Whether a task has a place in the given phase of the given iteration.
pub open spec fn in_phase(
    data: GraphDataView,
    iteration_id: Seq<char>,
    phase: u32,
    task_id: Seq<char>,
) -> bool {
    exists|i: int|
        #![trigger data.iteration_tasks[i]]
        0 <= i < data.iteration_tasks.len() && is_place(
            data.iteration_tasks[i],
            iteration_id,
            phase,
        ) && data.iteration_tasks[i].task_id == task_id
}

/// Whether a relationship belongs to a phase: at least one of its two ends is
/// a task of the phase, or no task at all.
pub open spec fn touches(
    data: GraphDataView,
    iteration_id: Seq<char>,
    phase: u32,
    rel: RelationshipView,
) -> bool {
    ||| rel.source_type != EntityType::Task
    ||| in_phase(data, iteration_id, phase, rel.source_id)
    ||| rel.target_type != EntityType::Task
    ||| in_phase(data, iteration_id, phase, rel.target_id)
}

/// The relationships that belong to a phase.
pub open spec fn touching(
    data: GraphDataView,
    iteration_id: Seq<char>,
    phase: u32,
) -> Seq<RelationshipView> {
    data.relationships.filter(|rel: RelationshipView| touches(data, iteration_id, phase, rel))
}

/// Whether a task is one of the two ends of a relationship.
pub open spec fn is_task_end(rel: RelationshipView, task_id: Seq<char>) -> bool {
    ||| rel.source_type == EntityType::Task && rel.source_id == task_id
    ||| rel.target_type == EntityType::Task && rel.target_id == task_id
}

/// Whether a task is an end of one of the given relationships.
pub open spec fn is_end_among(rels: Seq<RelationshipView>, task_id: Seq<char>) -> bool {
    exists|i: int| 0 <= i < rels.len() && is_task_end(#[trigger] rels[i], task_id)
}

/// The tasks that the graph of a phase shows: those of the phase, and the
/// ends of the relationships that belong to it.
pub open spec fn phase_tasks(
    data: GraphDataView,
    iteration_id: Seq<char>,
    phase: u32,
) -> Seq<TaskView> {
    data.tasks.filter(
        |task: TaskView|
            in_phase(data, iteration_id, phase, task.id) || is_end_among(
                touching(data, iteration_id, phase),
                task.id,
            ),
    )
}

/// Whether each end of a relationship that is a task is among `tasks`.
pub open spec fn ends_known(rel: RelationshipView, tasks: Seq<TaskView>) -> bool {
    &&& rel.source_type != EntityType::Task || has_task(tasks, rel.source_id)
    &&& rel.target_type != EntityType::Task || has_task(tasks, rel.target_id)
}

/// The relationships that the graph of a phase is drawn from.
pub open spec fn phase_relationships(
    data: GraphDataView,
    iteration_id: Seq<char>,
    phase: u32,
) -> Seq<RelationshipView> {
    touching(data, iteration_id, phase).filter(
        |rel: RelationshipView| ends_known(rel, phase_tasks(data, iteration_id, phase)),
    )
}

/// The graph of a phase.
pub open spec fn phase_graph(
    data: GraphDataView,
    iteration_id: Seq<char>,
    phase: u32,
    direction: Seq<char>,
) -> MermaidGraphView {
    let tasks = phase_tasks(data, iteration_id, phase);
    MermaidGraphView {
        mermaid: mermaid_text(
            Seq::empty(),
            tasks,
            Seq::empty(),
            phase_relationships(data, iteration_id, phase),
            direction,
            false,
        ),
        task_count: tasks.len(),
        title: "phase "@ + decimal_text(phase as nat),
    }
}

/// Collects the ids of the tasks that have a place in a phase.
fn phase_task_ids(data: &GraphData, iteration_id: &str, phase: u32) -> (ids: Vec<String>)
    ensures
        forall|id: Seq<char>| #[trigger]
            texts(ids@).contains(id) <==> in_phase(data@, iteration_id@, phase, id),
{
    let ghost edges = data@.iteration_tasks;
    let mut ids: Vec<String> = Vec::new();
    let mut i: usize = 0;
    while i < data.iteration_tasks.len()
        invariant
            i <= data.iteration_tasks.len(),
            edges == iteration_task_views(data.iteration_tasks@),
            forall|id: Seq<char>| #[trigger]
                texts(ids@).contains(id) <==> exists|k: int|
                    #![trigger edges[k]]
                    0 <= k < i && is_place(edges[k], iteration_id@, phase) && edges[k].task_id
                        == id,
        decreases data.iteration_tasks.len() - i,
    {
        let edge = &data.iteration_tasks[i];
        let ghost before = texts(ids@);
        assert(edges[i as int] == edge@);
        if edge.phase == phase && same(edge.iteration_id.as_str(), iteration_id) {
            ids.push(edge.task_id.clone());
            proof {
                assert(texts(ids@) =~= before.push(edge@.task_id));
                assert forall|id: Seq<char>| #[trigger]
                    texts(ids@).contains(id) <==> exists|k: int|
                        #![trigger edges[k]]
                        0 <= k < i + 1 && is_place(edges[k], iteration_id@, phase)
                            && edges[k].task_id == id by {
                    lemma_push_contains(before, edge@.task_id, id);
                }
            }
        } else {
            assert(!is_place(edges[i as int], iteration_id@, phase));
        }
        i += 1;
    }
    ids
}

/// One element more is contained after a push, and no other.
proof fn lemma_push_contains<A>(s: Seq<A>, x: A, y: A)
    ensures
        s.push(x).contains(y) <==> s.contains(y) || y == x,
{
    if s.contains(y) {
        let k = choose|k: int| 0 <= k < s.len() && s[k] == y;
        assert(s.push(x)[k] == y);
    }
    assert(s.push(x)[s.len() as int] == x);
}

/// Adds the tasks at the ends of a relationship to a list of ids.
fn push_task_ends(ids: &mut Vec<String>, rel: &RelationshipEdge)
    ensures
        forall|id: Seq<char>| #[trigger]
            texts(final(ids)@).contains(id) <==> texts(old(ids)@).contains(id) || is_task_end(
                rel@,
                id,
            ),
{
    let ghost before = texts(ids@);
    if rel.source_type == EntityType::Task {
        ids.push(rel.source_id.clone());
        assert(texts(ids@) =~= before.push(rel@.source_id));
    }
    let ghost middle = texts(ids@);
    if rel.target_type == EntityType::Task {
        ids.push(rel.target_id.clone());
        assert(texts(ids@) =~= middle.push(rel@.target_id));
    }
    assert forall|id: Seq<char>| #[trigger]
        texts(ids@).contains(id) <==> before.contains(id) || is_task_end(rel@, id) by {
        lemma_push_contains(before, rel@.source_id, id);
        lemma_push_contains(middle, rel@.target_id, id);
    }
}

/// Draws the graph of one phase of an iteration: the tasks of the phase, the
/// relationships that belong to it, and the tasks at their other ends.
pub fn related_phase_graph(
    data: &GraphData,
    iteration_id: &str,
    phase: u32,
    direction: &str,
) -> (graph: MermaidGraph)
    ensures
        graph@ == phase_graph(data@, iteration_id@, phase, direction@),
{
    let placed = phase_task_ids(data, iteration_id, phase);
    let mut ids = phase_task_ids(data, iteration_id, phase);

    let ghost rels = data@.relationships;
    let ghost belongs = |rel: RelationshipView| touches(data@, iteration_id@, phase, rel);
    let mut selected: Vec<RelationshipEdge> = Vec::new();
    let mut i: usize = 0;
    proof {
        reveal(Seq::filter);
        assert(relationship_views(selected@) =~= rels.take(0).filter(belongs));
    }
    while i < data.relationships.len()
        invariant
            i <= data.relationships.len(),
            rels == relationship_views(data.relationships@),
            belongs == (|rel: RelationshipView| touches(data@, iteration_id@, phase, rel)),
            forall|id: Seq<char>| #[trigger]
                texts(placed@).contains(id) <==> in_phase(data@, iteration_id@, phase, id),
            relationship_views(selected@) == rels.take(i as int).filter(belongs),
            forall|id: Seq<char>| #[trigger]
                texts(ids@).contains(id) <==> in_phase(data@, iteration_id@, phase, id)
                    || is_end_among(relationship_views(selected@), id),
        decreases data.relationships.len() - i,
    {
        let rel = &data.relationships[i];
        let ghost before = relationship_views(selected@);
        let ghost ids_before = texts(ids@);
        proof {
            assert(rels[i as int] == rel@);
            lemma_filter_take(rels, belongs, i as int);
        }
        if rel.source_type != EntityType::Task || contains_text(&placed, rel.source_id.as_str())
            || rel.target_type != EntityType::Task || contains_text(
            &placed,
            rel.target_id.as_str(),
        ) {
            push_task_ends(&mut ids, rel);
            let copy = rel.clone();
            selected.push(copy);
            proof {
                assert(relationship_views(selected@) =~= before.push(rel@));
                assert forall|id: Seq<char>| #[trigger]
                    texts(ids@).contains(id) <==> in_phase(data@, iteration_id@, phase, id)
                        || is_end_among(relationship_views(selected@), id) by {
                    lemma_end_pushed(before, rel@, id);
                    assert(ids_before.contains(id) <==> in_phase(data@, iteration_id@, phase, id)
                        || is_end_among(before, id));
                }
            }
        }
        i += 1;
    }
    proof {
        assert(rels.take(rels.len() as int) =~= rels);
        assert(relationship_views(selected@) == touching(data@, iteration_id@, phase));
    }

    let tasks = data.tasks.select(&ids);
    proof {
        lemma_filter_agree(
            data@.tasks,
            |task: TaskView| texts(ids@).contains(task.id),
            |task: TaskView|
                in_phase(data@, iteration_id@, phase, task.id) || is_end_among(
                    touching(data@, iteration_id@, phase),
                    task.id,
                ),
        );
        assert(tasks@ == phase_tasks(data@, iteration_id@, phase));
    }

    let relationships = with_known_ends(&selected, &tasks);
    let no_iterations: Vec<IterationNode> = Vec::new();
    let no_places: Vec<IterationTaskEdge> = Vec::new();
    let mermaid = build_mermaid(
        &no_iterations,
        &tasks,
        &no_places,
        &relationships,
        direction,
        false,
    );
    proof {
        assert(iteration_views(no_iterations@) =~= Seq::empty());
        assert(iteration_task_views(no_places@) =~= Seq::empty());
    }
    let number = decimal(phase as u128);
    MermaidGraph {
        mermaid,
        task_count: tasks.len(),
        title: "phase ".to_owned().concat(number.as_str()),
    }
}

/// The ends of one relationship more.
proof fn lemma_end_pushed(rels: Seq<RelationshipView>, rel: RelationshipView, id: Seq<char>)
    ensures
        is_end_among(rels.push(rel), id) <==> is_end_among(rels, id) || is_task_end(rel, id),
{
    let after = rels.push(rel);
    if is_end_among(rels, id) {
        let k = choose|k: int| 0 <= k < rels.len() && is_task_end(#[trigger] rels[k], id);
        assert(is_task_end(after[k], id));
    }
    if is_task_end(rel, id) {
        assert(is_task_end(after[rels.len() as int], id));
    }
    if is_end_among(after, id) {
        let k = choose|k: int| 0 <= k < after.len() && is_task_end(#[trigger] after[k], id);
        if k < rels.len() {
            assert(is_task_end(rels[k], id));
        }
    }
}

/// Keeps the relationships whose ends, where they are tasks, are known.
pub fn with_known_ends(rels: &Vec<RelationshipEdge>, tasks: &TaskTable) -> (kept: Vec<
    RelationshipEdge,
>)
    ensures
        relationship_views(kept@) == relationship_views(rels@).filter(
            |rel: RelationshipView| ends_known(rel, tasks@),
        ),
{
    let ghost all = relationship_views(rels@);
    let ghost known = |rel: RelationshipView| ends_known(rel, tasks@);
    let mut kept: Vec<RelationshipEdge> = Vec::new();
    let mut i: usize = 0;
    proof {
        reveal(Seq::filter);
        assert(relationship_views(kept@) =~= all.take(0).filter(known));
    }
    while i < rels.len()
        invariant
            i <= rels.len(),
            all == relationship_views(rels@),
            known == (|rel: RelationshipView| ends_known(rel, tasks@)),
            relationship_views(kept@) == all.take(i as int).filter(known),
        decreases rels.len() - i,
    {
        let rel = &rels[i];
        let ghost before = relationship_views(kept@);
        proof {
            assert(all[i as int] == rel@);
            lemma_filter_take(all, known, i as int);
        }
        if (rel.source_type != EntityType::Task || tasks.contains_key(rel.source_id.as_str())) && (
        rel.target_type != EntityType::Task || tasks.contains_key(rel.target_id.as_str())) {
            let copy = rel.clone();
            kept.push(copy);
            assert(relationship_views(kept@) =~= before.push(rel@));
        }
        i += 1;
    }
    assert(all.take(all.len() as int) =~= all);
    kept
}

/// Whether an iteration has a task in a phase.
pub open spec fn has_phase(
    edges: Seq<IterationTaskView>,
    iteration_id: Seq<char>,
    phase: u32,
) -> bool {
    exists|i: int| 0 <= i < edges.len() && is_place(#[trigger] edges[i], iteration_id, phase)
}

/// Whether `phases` are the phases of an iteration that have tasks, in
/// ascending order, each once.
pub open spec fn are_phases(
    phases: Seq<u32>,
    edges: Seq<IterationTaskView>,
    iteration_id: Seq<char>,
) -> bool {
    &&& forall|i: int, j: int| 0 <= i < j < phases.len() ==> phases[i] < phases[j]
    &&& forall|p: u32| #[trigger] phases.contains(p) <==> has_phase(edges, iteration_id, p)
}

/// The phases of an iteration that have tasks, in ascending order.
pub open spec fn phases_of(edges: Seq<IterationTaskView>, iteration_id: Seq<char>) -> Seq<u32> {
    choose|phases: Seq<u32>| are_phases(phases, edges, iteration_id)
}

/// There is only one ascending list of the phases of an iteration.
proof fn lemma_phases_unique(
    a: Seq<u32>,
    b: Seq<u32>,
    edges: Seq<IterationTaskView>,
    iteration_id: Seq<char>,
)
    requires
        are_phases(a, edges, iteration_id),
        are_phases(b, edges, iteration_id),
    ensures
        a == b,
{
    assert forall|p: u32| a.contains(p) <==> b.contains(p) by {
        assert(a.contains(p) <==> has_phase(edges, iteration_id, p));
        assert(b.contains(p) <==> has_phase(edges, iteration_id, p));
    }
    lemma_ascending_equal(a, b);
}

/// Ascending lists of the same numbers are equal.
pub(crate) proof fn lemma_ascending_equal(a: Seq<u32>, b: Seq<u32>)
    requires
        forall|i: int, j: int| 0 <= i < j < a.len() ==> a[i] < a[j],
        forall|i: int, j: int| 0 <= i < j < b.len() ==> b[i] < b[j],
        forall|p: u32| a.contains(p) <==> b.contains(p),
    ensures
        a == b,
    decreases a.len(),
{
    if a.len() == 0 {
        if b.len() > 0 {
            assert(b.contains(b[0]));
        }
        assert(a =~= b);
    } else {
        assert(a.contains(a.last()));
        let k = choose|k: int| 0 <= k < b.len() && b[k] == a.last();
        assert(b.contains(b.last()));
        let m = choose|m: int| 0 <= m < a.len() && a[m] == b.last();
        assert(a.last() == b.last());
        let x = a.drop_last();
        let y = b.drop_last();
        assert forall|p: u32| x.contains(p) <==> y.contains(p) by {
            if x.contains(p) {
                let i = choose|i: int| 0 <= i < x.len() && x[i] == p;
                assert(a[i] == p);
                assert(a.contains(p));
                let j = choose|j: int| 0 <= j < b.len() && b[j] == p;
                assert(y[j] == p);
            }
            if y.contains(p) {
                let j = choose|j: int| 0 <= j < y.len() && y[j] == p;
                assert(b[j] == p);
                assert(b.contains(p));
                let i = choose|i: int| 0 <= i < a.len() && a[i] == p;
                assert(x[i] == p);
            }
        }
        lemma_ascending_equal(x, y);
        assert(a =~= x.push(a.last()));
        assert(b =~= y.push(b.last()));
    }
}

/// Puts a number into its place in an ascending list, where it is not there
/// yet.
fn insert_phase(phases: &mut Vec<u32>, phase: u32)
    requires
        forall|i: int, j: int| 0 <= i < j < old(phases)@.len() ==> old(phases)@[i] < old(phases)@[j],
    ensures
        forall|i: int, j: int|
            0 <= i < j < final(phases)@.len() ==> final(phases)@[i] < final(phases)@[j],
        forall|p: u32| #[trigger]
            final(phases)@.contains(p) <==> old(phases)@.contains(p) || p == phase,
{
    let ghost before = phases@;
    let mut at: usize = 0;
    while at < phases.len() && phases[at] < phase
        invariant
            phases@ == before,
            at <= phases.len(),
            forall|j: int| 0 <= j < at ==> before[j] < phase,
        decreases phases.len() - at,
    {
        at += 1;
    }
    if at < phases.len() && phases[at] == phase {
        assert(phases@[at as int] == phase);
        return;
    }
    phases.insert(at, phase);
    proof {
        let after = phases@;
        assert forall|p: u32| #[trigger] after.contains(p) <==> before.contains(p) || p == phase by {
            if before.contains(p) {
                let k = choose|k: int| 0 <= k < before.len() && before[k] == p;
                assert(after[if k < at { k } else { k + 1 }] == p);
            }
            if p == phase {
                assert(after[at as int] == p);
            }
            if after.contains(p) && p != phase {
                let k = choose|k: int| 0 <= k < after.len() && after[k] == p;
                assert(before[if k < at { k } else { k - 1 }] == p);
            }
        }
    }
}

/// Lists the phases of an iteration that have tasks, in ascending order.
pub fn iteration_phases(edges: &Vec<IterationTaskEdge>, iteration_id: &str) -> (phases: Vec<u32>)
    ensures
        phases@ == phases_of(iteration_task_views(edges@), iteration_id@),
        are_phases(phases@, iteration_task_views(edges@), iteration_id@),
{
    let ghost all = iteration_task_views(edges@);
    let mut phases: Vec<u32> = Vec::new();
    let mut i: usize = 0;
    while i < edges.len()
        invariant
            i <= edges.len(),
            all == iteration_task_views(edges@),
            forall|j: int, k: int| 0 <= j < k < phases@.len() ==> phases@[j] < phases@[k],
            forall|p: u32| #[trigger]
                phases@.contains(p) <==> exists|k: int|
                    0 <= k < i && is_place(#[trigger] all[k], iteration_id@, p),
        decreases edges.len() - i,
    {
        let edge = &edges[i];
        let ghost before = phases@;
        assert(all[i as int] == edge@);
        if same(edge.iteration_id.as_str(), iteration_id) {
            insert_phase(&mut phases, edge.phase);
            assert(is_place(all[i as int], iteration_id@, edge.phase));
        }
        assert forall|p: u32| #[trigger] phases@.contains(p) <==> exists|k: int|
            0 <= k < i + 1 && is_place(#[trigger] all[k], iteration_id@, p) by {
            assert(before.contains(p) <==> exists|k: int|
                0 <= k < i && is_place(#[trigger] all[k], iteration_id@, p));
        }
        i += 1;
    }
    proof {
        assert(are_phases(phases@, all, iteration_id@));
        lemma_phases_unique(phases@, phases_of(all, iteration_id@), all, iteration_id@);
    }
    phases
}

/// Where a number goes in an ascending list.
proof fn lemma_phase_place(phases: Seq<u32>, phase: u32) -> (at: int)
    requires
        forall|i: int, j: int| 0 <= i < j < phases.len() ==> phases[i] < phases[j],
    ensures
        0 <= at <= phases.len(),
        forall|j: int| 0 <= j < at ==> phases[j] < phase,
        forall|j: int| at <= j < phases.len() ==> phases[j] >= phase,
    decreases phases.len(),
{
    if phases.len() == 0 {
        0
    } else if phases[phases.len() - 1] < phase {
        phases.len() as int
    } else {
        let rest = phases.drop_last();
        let at = lemma_phase_place(rest, phase);
        assert forall|j: int| 0 <= j < at implies phases[j] < phase by {
            assert(rest[j] == phases[j]);
        }
        assert forall|j: int| at <= j < phases.len() implies phases[j] >= phase by {
            if j < rest.len() {
                assert(rest[j] == phases[j]);
            }
        }
        at
    }
}

/// Whatever the places of tasks, the phases of an iteration can be listed in
/// ascending order: `phases_of` is that list.
pub proof fn phases_are_the_phases(edges: Seq<IterationTaskView>, iteration_id: Seq<char>)
    ensures
        are_phases(phases_of(edges, iteration_id), edges, iteration_id),
    decreases edges.len(),
{
    if edges.len() == 0 {
        assert(are_phases(Seq::<u32>::empty(), edges, iteration_id));
    } else {
        let rest = edges.drop_last();
        let edge = edges.last();
        phases_are_the_phases(rest, iteration_id);
        let before = phases_of(rest, iteration_id);
        let phase = edge.phase;
        let at = lemma_phase_place(before, phase);
        let after = if edge.iteration_id != iteration_id || before.contains(phase) {
            before
        } else {
            before.insert(at, phase)
        };
        if edge.iteration_id == iteration_id && !before.contains(phase) && at < before.len() {
            assert(before.contains(before[at]));
        }
        assert forall|p: u32| #[trigger] after.contains(p) <==> has_phase(edges, iteration_id, p) by {
            assert(before.contains(p) <==> has_phase(rest, iteration_id, p));
            if has_phase(rest, iteration_id, p) {
                let k = choose|k: int|
                    0 <= k < rest.len() && is_place(#[trigger] rest[k], iteration_id, p);
                assert(is_place(edges[k], iteration_id, p));
            }
            if has_phase(edges, iteration_id, p) {
                let k = choose|k: int|
                    0 <= k < edges.len() && is_place(#[trigger] edges[k], iteration_id, p);
                if k < rest.len() {
                    assert(is_place(rest[k], iteration_id, p));
                }
            }
            if edge.iteration_id == iteration_id && p == phase {
                assert(is_place(edges[edges.len() - 1], iteration_id, p));
            }
            if edge.iteration_id == iteration_id && !before.contains(phase) {
                if before.contains(p) {
                    let k = choose|k: int| 0 <= k < before.len() && before[k] == p;
                    assert(after[if k < at { k } else { k + 1 }] == p);
                }
                if p == phase {
                    assert(after[at] == p);
                }
                if after.contains(p) && p != phase {
                    let k = choose|k: int| 0 <= k < after.len() && after[k] == p;
                    assert(before[if k < at { k } else { k - 1 }] == p);
                }
            }
        }
        assert(are_phases(after, edges, iteration_id));
    }
}

/// The section of one iteration.
pub open spec fn section_of(
    data: GraphDataView,
    iteration: IterationView,
    direction: Seq<char>,
) -> SectionView {
    SectionView {
        iteration_id: iteration.id,
        iteration_short_id: first_chars(iteration.id, 8),
        iteration_status: iteration.status,
        iteration_title: iteration.title,
        phases: phases_of(data.iteration_tasks, iteration.id).map_values(
            |phase: u32|
                PhaseGraphView {
                    graph: phase_graph(data, iteration.id, phase, direction),
                    number: phase,
                },
        ),
    }
}

/// Whether an iteration has tasks in any phase.
pub open spec fn has_phases(data: GraphDataView, iteration: IterationView) -> bool {
    exists|phase: u32| #[trigger] has_phase(data.iteration_tasks, iteration.id, phase)
}

/// The sections of a project: one for each iteration that has tasks in any
/// phase, in the order of the iterations.
pub open spec fn phase_sections(data: GraphDataView, direction: Seq<char>) -> Seq<SectionView> {
    data.iterations.filter(|iteration: IterationView| has_phases(data, iteration)).map_values(
        |iteration: IterationView| section_of(data, iteration, direction),
    )
}

/// Draws the graphs of all phases, iteration by iteration.
pub fn build_phase_sections(data: &GraphData, direction: &str) -> (sections: Vec<
    PhaseGraphSection,
>)
    ensures
        section_views(sections@) == phase_sections(data@, direction@),
{
    let ghost all = data@.iterations;
    let ghost shown = |iteration: IterationView| has_phases(data@, iteration);
    let ghost draw = |iteration: IterationView| section_of(data@, iteration, direction@);
    let mut sections: Vec<PhaseGraphSection> = Vec::new();
    let mut i: usize = 0;
    proof {
        reveal(Seq::filter);
        assert(section_views(sections@) =~= all.take(0).filter(shown).map_values(draw));
    }
    while i < data.iterations.len()
        invariant
            i <= data.iterations.len(),
            all == iteration_views(data.iterations@),
            shown == (|iteration: IterationView| has_phases(data@, iteration)),
            draw == (|iteration: IterationView| section_of(data@, iteration, direction@)),
            section_views(sections@) == all.take(i as int).filter(shown).map_values(draw),
        decreases data.iterations.len() - i,
    {
        let iteration = &data.iterations[i];
        let ghost kept = all.take(i as int).filter(shown);
        let ghost before = section_views(sections@);
        let numbers = iteration_phases(&data.iteration_tasks, iteration.id.as_str());
        proof {
            assert(all[i as int] == iteration@);
            lemma_filter_take(all, shown, i as int);
        }
        if numbers.len() > 0 {
            let mut phases: Vec<PhaseGraph> = Vec::new();
            let mut k: usize = 0;
            while k < numbers.len()
                invariant
                    k <= numbers.len(),
                    phases.len() == k,
                    forall|j: int|
                        #![trigger phases@[j]]
                        0 <= j < k ==> phases@[j]@ == (PhaseGraphView {
                            graph: phase_graph(data@, iteration@.id, numbers@[j], direction@),
                            number: numbers@[j],
                        }),
                decreases numbers.len() - k,
            {
                let number: u32 = numbers[k];
                let graph = related_phase_graph(data, iteration.id.as_str(), number, direction);
                phases.push(PhaseGraph { graph, number });
                k += 1;
            }
            let section = PhaseGraphSection {
                iteration_id: iteration.id.clone(),
                iteration_short_id: take_chars(iteration.id.as_str(), 8),
                iteration_status: iteration.status.clone(),
                iteration_title: iteration.title.clone(),
                phases,
            };
            sections.push(section);
            proof {
                assert(numbers@.contains(numbers@[0]));
                assert(has_phase(data@.iteration_tasks, iteration@.id, numbers@[0]));
                assert(section@.phases =~= section_of(data@, iteration@, direction@).phases);
                assert(section@ == section_of(data@, iteration@, direction@));
                assert(section_views(sections@) =~= before.push(section@));
                assert(kept.push(iteration@).map_values(draw) =~= kept.map_values(draw).push(
                    section@,
                ));
            }
        } else {
            assert forall|phase: u32| !has_phase(data@.iteration_tasks, iteration@.id, phase) by {
                assert(!numbers@.contains(phase));
            }
        }
        i += 1;
    }
    assert(all.take(all.len() as int) =~= all);
    sections
}

} // verus!
