//! What the graph pages show of what was loaded.
use vstd::prelude::*;

use crate::model::EntityType;
use crate::seqs::{lemma_filter_agree, lemma_filter_members};
use crate::text::{decimal_text, first_chars, text_less};
use crate::web::drawing::every_graph_flows_as_asked;
use crate::web::load::{iteration_row_views, IterationRow};
use crate::web::mermaid::mermaid_text;
use crate::web::nodes::{
    iteration_task_views, iteration_views, relationship_views, task_views, IterationNode,
    IterationTaskEdge, IterationView, RelationshipEdge, RelationshipView, TaskNode, TaskView,
};
use crate::web::pages::{is_direction, is_yes, project_graph, GraphParams};
use crate::web::phases::{
    ends_known, has_phase, has_phases, in_phase, is_end_among, is_place, is_task_end, phase_graph,
    phase_graph_views, phase_relationships, phase_sections, phase_tasks, phases_are_the_phases,
    phases_of, section_of, section_views, touches, touching, GraphData, GraphDataView, MermaidGraph,
    PhaseGraph, PhaseGraphSection,
};

verus! {

/// What is drawn from is seen field by field.
pub proof fn nodes_and_links_are_seen_field_by_field(
    iteration: IterationNode,
    place: IterationTaskEdge,
    rel: RelationshipEdge,
    task: TaskNode,
    row: IterationRow,
    data: GraphData,
)
    ensures
        iteration@.id == iteration.id@,
        iteration@.status == iteration.status@,
        iteration@.title == iteration.title@,
        place@.iteration_id == place.iteration_id@,
        place@.phase == place.phase,
        place@.task_id == place.task_id@,
        rel@.rel_type == rel.rel_type,
        rel@.source_id == rel.source_id@,
        rel@.source_type == rel.source_type,
        rel@.target_id == rel.target_id@,
        rel@.target_type == rel.target_type,
        task@.id == task.id@,
        task@.priority == task.priority,
        task@.status == task.status@,
        task@.title == task.title@,
        row@.node == row.node@,
        row@.created_at == row.created_at@,
        data@.iterations == iteration_views(data.iterations@),
        data@.iteration_tasks == iteration_task_views(data.iteration_tasks@),
        data@.relationships == relationship_views(data.relationships@),
        data@.tasks == data.tasks@,
{
}

/// What is shown is seen field by field.
pub proof fn graphs_and_sections_are_seen_field_by_field(
    graph: MermaidGraph,
    phase: PhaseGraph,
    section: PhaseGraphSection,
)
    ensures
        graph@.mermaid == graph.mermaid@,
        graph@.task_count == graph.task_count,
        graph@.title == graph.title@,
        phase@.graph == phase.graph@,
        phase@.number == phase.number,
        section@.iteration_id == section.iteration_id@,
        section@.iteration_short_id == section.iteration_short_id@,
        section@.iteration_status == section.iteration_status@,
        section@.iteration_title == section.iteration_title@,
        section@.phases == phase_graph_views(section.phases@),
{
}

/// Lists are seen element by element.
pub proof fn lists_are_seen_element_by_element(
    iterations: Seq<IterationNode>,
    places: Seq<IterationTaskEdge>,
    rels: Seq<RelationshipEdge>,
    tasks: Seq<TaskNode>,
    rows: Seq<IterationRow>,
    phases: Seq<PhaseGraph>,
    sections: Seq<PhaseGraphSection>,
)
    ensures
        iteration_views(iterations).len() == iterations.len(),
        forall|i: int|
            0 <= i < iterations.len() ==> #[trigger] iteration_views(iterations)[i]
                == iterations[i]@,
        iteration_task_views(places).len() == places.len(),
        forall|i: int|
            0 <= i < places.len() ==> #[trigger] iteration_task_views(places)[i] == places[i]@,
        relationship_views(rels).len() == rels.len(),
        forall|i: int|
            0 <= i < rels.len() ==> #[trigger] relationship_views(rels)[i] == rels[i]@,
        task_views(tasks).len() == tasks.len(),
        forall|i: int| 0 <= i < tasks.len() ==> #[trigger] task_views(tasks)[i] == tasks[i]@,
        iteration_row_views(rows).len() == rows.len(),
        forall|i: int|
            0 <= i < rows.len() ==> #[trigger] iteration_row_views(rows)[i] == rows[i]@,
        phase_graph_views(phases).len() == phases.len(),
        forall|i: int|
            0 <= i < phases.len() ==> #[trigger] phase_graph_views(phases)[i] == phases[i]@,
        section_views(sections).len() == sections.len(),
        forall|i: int|
            0 <= i < sections.len() ==> #[trigger] section_views(sections)[i] == sections[i]@,
{
}

/// A task has a place in a phase of an iteration where one of the places says
/// so.
proof fn lemma_in_phase(
    data: GraphDataView,
    iteration_id: Seq<char>,
    phase: u32,
    task_id: Seq<char>,
)
    ensures
        in_phase(data, iteration_id, phase, task_id) <==> exists|i: int|
            0 <= i < data.iteration_tasks.len() && (#[trigger] data.iteration_tasks[i]).iteration_id
                == iteration_id && data.iteration_tasks[i].phase == phase
                && data.iteration_tasks[i].task_id == task_id,
{
    let edges = data.iteration_tasks;
    if in_phase(data, iteration_id, phase, task_id) {
        let i = choose|i: int|
            #![trigger edges[i]]
            0 <= i < edges.len() && is_place(edges[i], iteration_id, phase) && edges[i].task_id
                == task_id;
        assert(edges[i].iteration_id == iteration_id);
    }
    if exists|i: int|
        0 <= i < edges.len() && (#[trigger] edges[i]).iteration_id == iteration_id
            && edges[i].phase == phase && edges[i].task_id == task_id {
        let i = choose|i: int|
            0 <= i < edges.len() && (#[trigger] edges[i]).iteration_id == iteration_id
                && edges[i].phase == phase && edges[i].task_id == task_id;
        assert(is_place(edges[i], iteration_id, phase));
    }
}

/// A relationship belongs to a phase where an end of it is a task of the
/// phase, or is no task at all.
pub proof fn relationships_belong_to_phases_by_either_end(
    data: GraphDataView,
    iteration_id: Seq<char>,
    phase: u32,
    rel: RelationshipView,
)
    ensures
        touches(data, iteration_id, phase, rel) <==> rel.source_type != EntityType::Task
            || rel.target_type != EntityType::Task || exists|i: int|
            0 <= i < data.iteration_tasks.len() && (#[trigger] data.iteration_tasks[i]).iteration_id
                == iteration_id && data.iteration_tasks[i].phase == phase && (
            data.iteration_tasks[i].task_id == rel.source_id || data.iteration_tasks[i].task_id
                == rel.target_id),
{
    lemma_in_phase(data, iteration_id, phase, rel.source_id);
    lemma_in_phase(data, iteration_id, phase, rel.target_id);
}

/// The graph of a phase shows a known task where the task has a place in the
/// phase, or is an end of a relationship that belongs to the phase, and no
/// other.
pub proof fn phase_graphs_show_the_tasks_of_the_phase(
    data: GraphDataView,
    iteration_id: Seq<char>,
    phase: u32,
    task: TaskView,
)
    ensures
        phase_tasks(data, iteration_id, phase).contains(task) <==> data.tasks.contains(task) && ((
        exists|i: int|
            0 <= i < data.iteration_tasks.len() && (#[trigger] data.iteration_tasks[i]).iteration_id
                == iteration_id && data.iteration_tasks[i].phase == phase
                && data.iteration_tasks[i].task_id == task.id) || (exists|k: int|
            0 <= k < data.relationships.len() && touches(
                data,
                iteration_id,
                phase,
                #[trigger] data.relationships[k],
            ) && ((data.relationships[k].source_type == EntityType::Task
                && data.relationships[k].source_id == task.id) || (data.relationships[k].target_type
                == EntityType::Task && data.relationships[k].target_id == task.id)))),
{
    let rels = data.relationships;
    let belongs = |rel: RelationshipView| touches(data, iteration_id, phase, rel);
    let kept = touching(data, iteration_id, phase);
    let wanted = |t: TaskView|
        in_phase(data, iteration_id, phase, t.id) || is_end_among(
            touching(data, iteration_id, phase),
            t.id,
        );
    lemma_filter_members(data.tasks, wanted);
    lemma_filter_members(rels, belongs);
    lemma_in_phase(data, iteration_id, phase, task.id);
    if is_end_among(kept, task.id) {
        let m = choose|m: int| 0 <= m < kept.len() && is_task_end(#[trigger] kept[m], task.id);
        assert(kept.contains(kept[m]));
        assert(rels.contains(kept[m]));
        let k = choose|k: int| 0 <= k < rels.len() && rels[k] == kept[m];
        assert(touches(data, iteration_id, phase, rels[k]));
    }
    if exists|k: int|
        0 <= k < rels.len() && touches(data, iteration_id, phase, #[trigger] rels[k]) && ((
        rels[k].source_type == EntityType::Task && rels[k].source_id == task.id) || (
        rels[k].target_type == EntityType::Task && rels[k].target_id == task.id)) {
        let k = choose|k: int|
            0 <= k < rels.len() && touches(data, iteration_id, phase, #[trigger] rels[k]) && ((
            rels[k].source_type == EntityType::Task && rels[k].source_id == task.id) || (
            rels[k].target_type == EntityType::Task && rels[k].target_id == task.id));
        assert(rels.contains(rels[k]));
        assert(kept.contains(rels[k]));
        let m = choose|m: int| 0 <= m < kept.len() && kept[m] == rels[k];
        assert(is_task_end(kept[m], task.id));
    }
}

/// Two filters one after the other keep what passes both.
proof fn lemma_filter_twice<A>(s: Seq<A>, f: spec_fn(A) -> bool, g: spec_fn(A) -> bool)
    ensures
        s.filter(f).filter(g) == s.filter(|x: A| f(x) && g(x)),
    decreases s.len(),
{
    reveal(Seq::filter);
    if s.len() > 0 {
        let rest = s.drop_last();
        lemma_filter_twice(rest, f, g);
        if f(s.last()) {
            assert(rest.filter(f).push(s.last()).drop_last() =~= rest.filter(f));
        }
    }
}

/// A filtered list keeps its order: what is true of any two elements in the
/// list, one before the other, is true of any two that are left.
proof fn lemma_filter_keeps_id_order(tasks: Seq<TaskView>, f: spec_fn(TaskView) -> bool)
    requires
        forall|i: int, j: int|
            0 <= i < j < tasks.len() ==> text_less(
                (#[trigger] tasks[i]).id,
                (#[trigger] tasks[j]).id,
            ),
    ensures
        forall|i: int, j: int|
            0 <= i < j < tasks.filter(f).len() ==> text_less(
                (#[trigger] tasks.filter(f)[i]).id,
                (#[trigger] tasks.filter(f)[j]).id,
            ),
    decreases tasks.len(),
{
    reveal(Seq::filter);
    if tasks.len() > 0 {
        let rest = tasks.drop_last();
        assert forall|i: int, j: int| 0 <= i < j < rest.len() implies text_less(
            (#[trigger] rest[i]).id,
            (#[trigger] rest[j]).id,
        ) by {
            assert(rest[i] == tasks[i] && rest[j] == tasks[j]);
        }
        lemma_filter_keeps_id_order(rest, f);
        lemma_filter_members(rest, f);
        let kept = tasks.filter(f);
        assert forall|i: int, j: int| 0 <= i < j < kept.len() implies text_less(
            (#[trigger] kept[i]).id,
            (#[trigger] kept[j]).id,
        ) by {
            let inner = rest.filter(f);
            if j < inner.len() {
                assert(kept[i] == inner[i] && kept[j] == inner[j]);
            } else {
                assert(kept[j] == tasks[tasks.len() - 1]);
                assert(kept[i] == inner[i]);
                assert(inner.contains(inner[i]));
                let k = choose|k: int| 0 <= k < rest.len() && rest[k] == inner[i];
                assert(tasks[k] == inner[i]);
            }
        }
    }
}

/// Tasks in the order of their ids are shown in that order.
pub proof fn phase_graphs_show_tasks_in_order(
    data: GraphDataView,
    iteration_id: Seq<char>,
    phase: u32,
)
    requires
        forall|i: int, j: int|
            0 <= i < j < data.tasks.len() ==> text_less(
                (#[trigger] data.tasks[i]).id,
                (#[trigger] data.tasks[j]).id,
            ),
    ensures
        forall|i: int, j: int|
            0 <= i < j < phase_tasks(data, iteration_id, phase).len() ==> text_less(
                (#[trigger] phase_tasks(data, iteration_id, phase)[i]).id,
                (#[trigger] phase_tasks(data, iteration_id, phase)[j]).id,
            ),
{
    lemma_filter_keeps_id_order(
        data.tasks,
        |task: TaskView|
            in_phase(data, iteration_id, phase, task.id) || is_end_among(
                touching(data, iteration_id, phase),
                task.id,
            ),
    );
}

/// The relationships that the graph of a phase is drawn from are those that
/// belong to the phase, in the order in which they were loaded, without those
/// that have a task at an end which the graph does not show.
pub proof fn phase_graphs_show_the_relationships_of_the_phase(
    data: GraphDataView,
    iteration_id: Seq<char>,
    phase: u32,
)
    ensures
        phase_relationships(data, iteration_id, phase) == data.relationships.filter(
            |rel: RelationshipView|
                {
                    &&& touches(data, iteration_id, phase, rel)
                    &&& rel.source_type == EntityType::Task ==> exists|i: int|
                        0 <= i < phase_tasks(data, iteration_id, phase).len() && (
                        #[trigger] phase_tasks(data, iteration_id, phase)[i]).id == rel.source_id
                    &&& rel.target_type == EntityType::Task ==> exists|i: int|
                        0 <= i < phase_tasks(data, iteration_id, phase).len() && (
                        #[trigger] phase_tasks(data, iteration_id, phase)[i]).id == rel.target_id
                },
        ),
{
    let belongs = |rel: RelationshipView| touches(data, iteration_id, phase, rel);
    let known = |rel: RelationshipView|
        ends_known(rel, phase_tasks(data, iteration_id, phase));
    lemma_filter_twice(data.relationships, belongs, known);
    lemma_filter_agree(
        data.relationships,
        |rel: RelationshipView| belongs(rel) && known(rel),
        |rel: RelationshipView|
            {
                &&& touches(data, iteration_id, phase, rel)
                &&& rel.source_type == EntityType::Task ==> exists|i: int|
                    0 <= i < phase_tasks(data, iteration_id, phase).len() && (
                    #[trigger] phase_tasks(data, iteration_id, phase)[i]).id == rel.source_id
                &&& rel.target_type == EntityType::Task ==> exists|i: int|
                    0 <= i < phase_tasks(data, iteration_id, phase).len() && (
                    #[trigger] phase_tasks(data, iteration_id, phase)[i]).id == rel.target_id
            },
    );
}

/// The graph of a phase flows in the direction that was asked for, is titled
/// by the number of the phase and counts the tasks that it shows. It draws
/// those tasks and their relationships, and no iteration.
pub proof fn phase_graphs_flow_as_asked(
    data: GraphDataView,
    iteration_id: Seq<char>,
    phase: u32,
    direction: Seq<char>,
)
    ensures
        ({
            let graph = phase_graph(data, iteration_id, phase, direction);
            &&& ("flowchart "@ + direction + "\n"@).is_prefix_of(graph.mermaid)
            &&& graph.title == "phase "@ + decimal_text(phase as nat)
            &&& graph.task_count == phase_tasks(data, iteration_id, phase).len()
            &&& graph.mermaid == mermaid_text(
                Seq::empty(),
                phase_tasks(data, iteration_id, phase),
                Seq::empty(),
                phase_relationships(data, iteration_id, phase),
                direction,
                false,
            )
        }),
{
    every_graph_flows_as_asked(
        Seq::empty(),
        phase_tasks(data, iteration_id, phase),
        Seq::empty(),
        phase_relationships(data, iteration_id, phase),
        direction,
        false,
    );
}

/// Every iteration in which a task has a place has a section, in the order of
/// the iterations, and no other iteration has one. A section shows what is
/// known of its iteration and the first eight characters of its id.
pub proof fn sections_show_the_iterations_with_places(data: GraphDataView, direction: Seq<char>)
    ensures
        ({
            let sections = phase_sections(data, direction);
            let shown = data.iterations.filter(
                |iteration: IterationView|
                    exists|i: int|
                        0 <= i < data.iteration_tasks.len() && (
                        #[trigger] data.iteration_tasks[i]).iteration_id == iteration.id,
            );
            &&& sections.len() == shown.len()
            &&& forall|s: int|
                0 <= s < sections.len() ==> {
                    &&& (#[trigger] sections[s]).iteration_id == shown[s].id
                    &&& sections[s].iteration_short_id == first_chars(shown[s].id, 8)
                    &&& sections[s].iteration_status == shown[s].status
                    &&& sections[s].iteration_title == shown[s].title
                }
        }),
{
    let edges = data.iteration_tasks;
    let f = |iteration: IterationView| has_phases(data, iteration);
    let g = |iteration: IterationView|
        exists|i: int|
            0 <= i < data.iteration_tasks.len() && (
            #[trigger] data.iteration_tasks[i]).iteration_id == iteration.id;
    assert forall|k: int| 0 <= k < data.iterations.len() implies f(#[trigger] data.iterations[k])
        == g(data.iterations[k]) by {
        let it = data.iterations[k];
        if f(it) {
            let p = choose|p: u32| #[trigger] has_phase(edges, it.id, p);
            let i = choose|i: int| 0 <= i < edges.len() && is_place(#[trigger] edges[i], it.id, p);
            assert(edges[i].iteration_id == it.id);
        }
        if g(it) {
            let i = choose|i: int|
                0 <= i < edges.len() && (#[trigger] edges[i]).iteration_id == it.id;
            assert(is_place(edges[i], it.id, edges[i].phase));
            assert(has_phase(edges, it.id, edges[i].phase));
        }
    }
    lemma_filter_agree(data.iterations, f, g);
}

/// A section shows one graph for each phase in which a task has a place in
/// its iteration, in ascending order of the phases, and each is the graph of
/// that phase in the direction that was asked for.
pub proof fn sections_show_each_phase_once(data: GraphDataView, direction: Seq<char>, s: int)
    requires
        0 <= s < phase_sections(data, direction).len(),
    ensures
        ({
            let section = phase_sections(data, direction)[s];
            &&& forall|k: int|
                0 <= k < section.phases.len() ==> {
                    &&& (#[trigger] section.phases[k]).graph == phase_graph(
                        data,
                        section.iteration_id,
                        section.phases[k].number,
                        direction,
                    )
                    &&& ("flowchart "@ + direction + "\n"@).is_prefix_of(
                        section.phases[k].graph.mermaid,
                    )
                    &&& exists|i: int|
                        0 <= i < data.iteration_tasks.len() && (
                        #[trigger] data.iteration_tasks[i]).iteration_id == section.iteration_id
                            && data.iteration_tasks[i].phase == section.phases[k].number
                }
            &&& forall|j: int, k: int|
                0 <= j < k < section.phases.len() ==> (#[trigger] section.phases[j]).number < (
                #[trigger] section.phases[k]).number
            &&& forall|i: int|
                0 <= i < data.iteration_tasks.len() && (
                #[trigger] data.iteration_tasks[i]).iteration_id == section.iteration_id
                    ==> exists|k: int|
                    0 <= k < section.phases.len() && (#[trigger] section.phases[k]).number
                        == data.iteration_tasks[i].phase
        }),
{
    let edges = data.iteration_tasks;
    let kept = data.iterations.filter(|iteration: IterationView| has_phases(data, iteration));
    let section = phase_sections(data, direction)[s];
    let id = kept[s].id;
    assert(section == section_of(data, kept[s], direction));
    let phases = phases_of(edges, id);
    phases_are_the_phases(edges, id);
    assert forall|k: int| 0 <= k < section.phases.len() implies {
        &&& (#[trigger] section.phases[k]).graph == phase_graph(
            data,
            section.iteration_id,
            section.phases[k].number,
            direction,
        )
        &&& ("flowchart "@ + direction + "\n"@).is_prefix_of(section.phases[k].graph.mermaid)
        &&& exists|i: int|
            0 <= i < edges.len() && (#[trigger] edges[i]).iteration_id == section.iteration_id
                && edges[i].phase == section.phases[k].number
    } by {
        assert(section.phases[k].number == phases[k]);
        phase_graphs_flow_as_asked(data, id, phases[k], direction);
        assert(phases.contains(phases[k]));
        let i = choose|i: int| 0 <= i < edges.len() && is_place(#[trigger] edges[i], id, phases[k]);
        assert(edges[i].iteration_id == id && edges[i].phase == phases[k]);
    }
    assert forall|j: int, k: int| 0 <= j < k < section.phases.len() implies (
    #[trigger] section.phases[j]).number < (#[trigger] section.phases[k]).number by {
        assert(section.phases[j].number == phases[j]);
        assert(section.phases[k].number == phases[k]);
    }
    assert forall|i: int|
        0 <= i < edges.len() && (#[trigger] edges[i]).iteration_id
            == section.iteration_id implies exists|k: int|
        0 <= k < section.phases.len() && (#[trigger] section.phases[k]).number
            == edges[i].phase by {
        assert(is_place(edges[i], id, edges[i].phase));
        assert(has_phase(edges, id, edges[i].phase));
        assert(phases.contains(edges[i].phase));
        let k = choose|k: int| 0 <= k < phases.len() && phases[k] == edges[i].phase;
        assert(section.phases[k].number == edges[i].phase);
    }
}

/// A graph flows the way that was asked for where it is top down, bottom up,
/// or from one side to the other, and from top to bottom otherwise.
pub proof fn directions_are_taken_as_they_stand(params: GraphParams, d: String)
    ensures
        params.direction is None ==> params.flow() == "TB"@,
        params.direction == Some(d) && (d@ == "TD"@ || d@ == "BT"@ || d@ == "LR"@ || d@ == "RL"@)
            ==> params.flow() == d@,
        params.direction == Some(d) && d@ != "TD"@ && d@ != "BT"@ && d@ != "LR"@ && d@ != "RL"@
            ==> params.flow() == "TB"@,
        is_direction(d@) <==> d@ == "TD"@ || d@ == "BT"@ || d@ == "LR"@ || d@ == "RL"@,
{
}

/// Finished work is shown too where that is asked for by `1`, `true`, `yes`
/// or `all`, and not otherwise.
pub proof fn finished_work_is_shown_where_asked_for(params: GraphParams, value: String)
    ensures
        params.all is None ==> !params.wants_all(),
        params.all == Some(value) ==> (params.wants_all() <==> value@ == "1"@ || value@ == "true"@
            || value@ == "yes"@ || value@ == "all"@),
        is_yes(value@) <==> value@ == "1"@ || value@ == "true"@ || value@ == "yes"@ || value@
            == "all"@,
{
}

/// The graph of a project flows in the direction that was asked for, counts
/// all tasks, and draws everything that was loaded, the iterations stacked.
pub proof fn project_graphs_show_all_that_was_loaded(data: GraphDataView, direction: Seq<char>)
    ensures
        ({
            let graph = project_graph(data, direction);
            &&& ("flowchart "@ + direction + "\n"@).is_prefix_of(graph.mermaid)
            &&& graph.title == "project relationships"@
            &&& graph.task_count == data.tasks.len()
            &&& graph.mermaid == mermaid_text(
                data.iterations,
                data.tasks,
                data.iteration_tasks,
                data.relationships,
                direction,
                true,
            )
        }),
{
    every_graph_flows_as_asked(
        data.iterations,
        data.tasks,
        data.iteration_tasks,
        data.relationships,
        direction,
        true,
    );
}

} // verus!
