//! What each operation on graphs returns, whatever it is given.
use vstd::prelude::*;

use crate::model::{EntityType, RelationshipType};
use crate::seqs::lemma_filter_agree;
use crate::store::statement::{placeholder_text, Statement};
use crate::text::{text_less, texts};
use crate::web::drawing::every_graph_flows_as_asked;
use crate::web::label::{
    escape_label, escaped, label, label_text, mermaid_class_for_status, node_id, node_name,
    status_class, wrapped, wrapped_title,
};
use crate::web::load::{
    assembled, fetch_iteration_task_edges, fetch_task_nodes, fetch_task_relationship_edges,
    iteration_row_views, iteration_task_edges, load_graph_data, loaded_iterations, order_iterations,
    place_of, placed_ids, placed_task_ids, relationships_query, table_of, task_table, tasks_query,
    wanted_ids, wanted_task_ids, GraphLoad, IterationRow, PlaceLoad, PlaceRow, RelationshipLoad,
    TaskLoad,
};
use crate::web::loading::{
    every_task_that_is_led_to_is_asked_for, places_are_asked_for_of_every_iteration,
    relationships_are_asked_for_of_every_placed_task,
};
use crate::web::mermaid::{build_mermaid, mermaid_text, relationship_display};
use crate::web::nodes::{
    has_task, iteration_task_views, iteration_views, relationship_views, task_views, IterationNode,
    IterationTaskEdge, RelationshipEdge, RelationshipView, TaskNode, TaskTable, TaskView,
};
use crate::web::pages::{
    graph_phases, graph_relationships, parse_direction, parse_include_all, project_graph,
    GraphParams, PhaseGraphPage, RelationshipGraphPage,
};
use crate::web::phases::{
    build_phase_sections, ends_known, is_place, iteration_phases, phase_graph, phase_sections,
    phases_of, related_phase_graph, section_views, with_known_ends, GraphData, MermaidGraph,
    PhaseGraphSection,
};
use crate::web::showing::{phase_graphs_flow_as_asked, sections_show_each_phase_once};

verus! {

/// Parts of a label are written as the label shows them.
pub proof fn labels_are_written(
    text: &str,
    parts: Vec<String>,
    kind: &str,
    id: &str,
    res: String,
    class: &'static str,
)
    ensures
        call_ensures(escape_label, (text,), res) ==> res@ == escaped(text@),
        call_ensures(label, (parts,), res) ==> res@ == label_text(texts(parts@)),
        call_ensures(node_id, (kind, id), res) ==> res@ == node_name(kind@, id@),
        call_ensures(wrapped_title, (text,), res) ==> res@ == wrapped(text@),
        call_ensures(mermaid_class_for_status, (text,), class) ==> class@ == status_class(text@),
{
}

/// A relationship is shown from the blocking task to the blocked one, from the
/// parent to the child, and otherwise as it was written.
pub proof fn relationships_are_shown_from_cause_to_effect(
    rel: &RelationshipEdge,
    res: (&str, &str, &'static str),
)
    requires
        call_ensures(relationship_display, (rel,), res),
    ensures
        rel.rel_type == RelationshipType::Blocks ==> res.0@ == rel.source_id@ && res.1@
            == rel.target_id@ && res.2@ == "blocks"@,
        rel.rel_type == RelationshipType::BlockedBy ==> res.0@ == rel.target_id@ && res.1@
            == rel.source_id@ && res.2@ == "blocks"@,
        rel.rel_type == RelationshipType::ParentOf ==> res.0@ == rel.source_id@ && res.1@
            == rel.target_id@ && res.2@ == "parent of"@,
        rel.rel_type == RelationshipType::ChildOf ==> res.0@ == rel.target_id@ && res.1@
            == rel.source_id@ && res.2@ == "parent of"@,
        rel.rel_type == RelationshipType::RelatesTo ==> res.0@ == rel.source_id@ && res.1@
            == rel.target_id@ && res.2@ == "relates to"@,
{
}

/// A graph is drawn of what it is given, in the direction it is given.
pub proof fn graphs_are_drawn_of_what_is_given(
    iterations: &Vec<IterationNode>,
    tasks: &TaskTable,
    edges: &Vec<IterationTaskEdge>,
    rels: &Vec<RelationshipEdge>,
    direction: &str,
    stacked: bool,
    graph: String,
)
    requires
        call_ensures(build_mermaid, (iterations, tasks, edges, rels, direction, stacked), graph),
    ensures
        ("flowchart "@ + direction@ + "\n"@).is_prefix_of(graph@),
        graph@ == mermaid_text(
            iteration_views(iterations@),
            tasks@,
            iteration_task_views(edges@),
            relationship_views(rels@),
            direction@,
            stacked,
        ),
{
    every_graph_flows_as_asked(
        iteration_views(iterations@),
        tasks@,
        iteration_task_views(edges@),
        relationship_views(rels@),
        direction@,
        stacked,
    );
}

/// The graph of a phase flows in the direction that it is asked for in, and
/// is that of the phase and the iteration that are asked for.
pub proof fn graphs_of_phases_are_those_asked_for(
    data: &GraphData,
    iteration_id: &str,
    phase: u32,
    direction: &str,
    graph: MermaidGraph,
)
    requires
        call_ensures(related_phase_graph, (data, iteration_id, phase, direction), graph),
    ensures
        ("flowchart "@ + direction@ + "\n"@).is_prefix_of(graph.mermaid@),
        graph@ == phase_graph(data@, iteration_id@, phase, direction@),
{
    phase_graphs_flow_as_asked(data@, iteration_id@, phase, direction@);
}

/// The graphs of all sections flow in the direction that is asked for, and the
/// sections are those of the data.
pub proof fn sections_are_built_of_the_data(
    data: &GraphData,
    direction: &str,
    sections: Vec<PhaseGraphSection>,
    s: int,
    k: int,
)
    requires
        call_ensures(build_phase_sections, (data, direction), sections),
    ensures
        section_views(sections@) == phase_sections(data@, direction@),
        0 <= s < sections@.len() && 0 <= k < sections@[s].phases@.len() ==> (
        "flowchart "@ + direction@ + "\n"@).is_prefix_of(
            sections@[s].phases@[k].graph.mermaid@,
        ),
{
    if 0 <= s < sections@.len() && 0 <= k < sections@[s].phases@.len() {
        sections_show_each_phase_once(data@, direction@, s);
        assert(section_views(sections@)[s] == sections@[s]@);
        assert(sections@[s]@.phases[k] == sections@[s].phases@[k]@);
    }
}

/// Relationships are kept where each task at an end of them is known.
pub proof fn relationships_with_known_ends_are_kept(
    rels: &Vec<RelationshipEdge>,
    tasks: &TaskTable,
    kept: Vec<RelationshipEdge>,
)
    requires
        call_ensures(with_known_ends, (rels, tasks), kept),
    ensures
        relationship_views(kept@) == relationship_views(rels@).filter(
            |rel: RelationshipView|
                {
                    &&& rel.source_type == EntityType::Task ==> exists|i: int|
                        0 <= i < tasks@.len() && (#[trigger] tasks@[i]).id == rel.source_id
                    &&& rel.target_type == EntityType::Task ==> exists|i: int|
                        0 <= i < tasks@.len() && (#[trigger] tasks@[i]).id == rel.target_id
                },
        ),
{
    lemma_filter_agree(
        relationship_views(rels@),
        |rel: RelationshipView| ends_known(rel, tasks@),
        |rel: RelationshipView|
            {
                &&& rel.source_type == EntityType::Task ==> exists|i: int|
                    0 <= i < tasks@.len() && (#[trigger] tasks@[i]).id == rel.source_id
                &&& rel.target_type == EntityType::Task ==> exists|i: int|
                    0 <= i < tasks@.len() && (#[trigger] tasks@[i]).id == rel.target_id
            },
    );
}

/// The phases of an iteration are those in which a task has a place in it,
/// each once, in ascending order.
pub proof fn phases_are_those_with_places(
    edges: &Vec<IterationTaskEdge>,
    iteration_id: &str,
    phases: Vec<u32>,
    phase: u32,
)
    requires
        call_ensures(iteration_phases, (edges, iteration_id), phases),
    ensures
        phases@ == phases_of(iteration_task_views(edges@), iteration_id@),
        forall|i: int, j: int| 0 <= i < j < phases@.len() ==> phases@[i] < phases@[j],
        phases@.contains(phase) <==> exists|i: int|
            0 <= i < edges@.len() && (#[trigger] edges@[i]).iteration_id@ == iteration_id@
                && edges@[i].phase == phase,
{
    let views = iteration_task_views(edges@);
    if phases@.contains(phase) {
        let i = choose|i: int|
            0 <= i < views.len() && is_place(#[trigger] views[i], iteration_id@, phase);
        assert(edges@[i]@ == views[i]);
        assert(edges@[i].iteration_id@ == iteration_id@ && edges@[i].phase == phase);
    }
    if exists|i: int|
        0 <= i < edges@.len() && (#[trigger] edges@[i]).iteration_id@ == iteration_id@
            && edges@[i].phase == phase {
        let i = choose|i: int|
            0 <= i < edges@.len() && (#[trigger] edges@[i]).iteration_id@ == iteration_id@
                && edges@[i].phase == phase;
        assert(is_place(views[i], iteration_id@, phase));
    }
}

/// A table of tasks tells how many it holds, which stands where, which id it
/// holds, and which of its tasks have one of several ids.
pub proof fn tables_of_tasks_tell_what_they_hold(
    table: &TaskTable,
    fresh: TaskTable,
    len: usize,
    index: usize,
    node: &TaskNode,
    ids: &Vec<String>,
    chosen: TaskTable,
    id: &str,
    has: bool,
)
    ensures
        call_ensures(TaskTable::new, (), fresh) ==> fresh@.len() == 0,
        call_ensures(TaskTable::len, (table,), len) ==> len == table@.len(),
        call_ensures(TaskTable::get, (table, index), node) ==> node@ == table@[index as int],
        call_ensures(TaskTable::select, (table, ids), chosen) ==> chosen@ == table@.filter(
            |task: TaskView| texts(ids@).contains(task.id),
        ),
        call_ensures(TaskTable::contains_key, (table, id), has) ==> (has <==> exists|i: int|
            0 <= i < table@.len() && (#[trigger] table@[i]).id == id@),
{
    if call_ensures(TaskTable::contains_key, (table, id), has) {
        assert(has == has_task(table@, id@));
    }
}

/// A task that is put into a table is in it, in the place of one that had its
/// id, with all others that were; the table stays in the order of the ids.
pub proof fn tables_of_tasks_take_one_more(table: &mut TaskTable, node: TaskNode, task: TaskView)
    requires
        call_ensures(TaskTable::insert, (table, node), ()),
    ensures
        final(table)@.contains(task) <==> task == node@ || (old(table)@.contains(task) && task.id
            != node@.id),
        forall|i: int, j: int|
            0 <= i < j < final(table)@.len() ==> text_less(
                (#[trigger] final(table)@[i]).id,
                (#[trigger] final(table)@[j]).id,
            ),
{
}

/// What is loaded goes on from step to step unchanged.
pub proof fn loading_goes_on_with_what_was_loaded(
    project_id: &str,
    include_all: bool,
    load: GraphLoad,
    rows: &Vec<IterationRow>,
    nodes: Vec<IterationNode>,
    places: PlaceLoad,
    place_rows: &Vec<PlaceRow>,
    edges: Vec<IterationTaskEdge>,
    rels: RelationshipLoad,
    found: Vec<RelationshipEdge>,
    tasks: TaskLoad,
)
    ensures
        call_ensures(load_graph_data, (project_id, include_all), load) ==> load.project_id@
            == project_id@ && load.include_all == include_all,
        call_ensures(order_iterations, (rows,), nodes) ==> iteration_views(nodes@)
            == loaded_iterations(iteration_row_views(rows@)),
        call_ensures(GraphLoad::with_iterations, (load, rows), places) ==> places.project_id
            == load.project_id && places.include_all == load.include_all && iteration_views(
            places.iterations@,
        ) == loaded_iterations(iteration_row_views(rows@)),
        call_ensures(iteration_task_edges, (place_rows,), edges) ==> edges@.len()
            == place_rows@.len() && forall|i: int|
            0 <= i < edges@.len() ==> (#[trigger] edges@[i])@ == place_of(place_rows@[i]),
        call_ensures(PlaceLoad::with_places, (places, place_rows), rels) ==> rels.project_id
            == places.project_id && rels.include_all == places.include_all && rels.iterations
            == places.iterations && rels.edges@.len() == place_rows@.len() && forall|i: int|
            0 <= i < rels.edges@.len() ==> (#[trigger] rels.edges@[i])@ == place_of(place_rows@[i]),
        call_ensures(RelationshipLoad::with_relationships, (rels, found), tasks)
            ==> tasks.project_id == rels.project_id && tasks.include_all == rels.include_all
            && tasks.iterations == rels.iterations && tasks.edges == rels.edges
            && tasks.relationships == found,
{
    if call_ensures(iteration_task_edges, (place_rows,), edges) {
        let views = iteration_task_views(edges@);
        assert(views.len() == place_rows@.len());
        assert forall|i: int| 0 <= i < edges@.len() implies (#[trigger] edges@[i])@ == place_of(
            place_rows@[i],
        ) by {
            assert(views[i] == edges@[i]@);
        }
    }
    if call_ensures(PlaceLoad::with_places, (places, place_rows), rels) {
        let views = iteration_task_views(rels.edges@);
        assert(views.len() == place_rows@.len());
        assert forall|i: int| 0 <= i < rels.edges@.len() implies (#[trigger] rels.edges@[i])@
            == place_of(place_rows@[i]) by {
            assert(views[i] == rels.edges@[i]@);
        }
    }
}

/// The places of every iteration are asked for, and nothing is asked where
/// there is no iteration.
pub proof fn the_second_step_asks_for_places(
    load: &PlaceLoad,
    iterations: &Vec<IterationNode>,
    query: Option<Statement>,
)
    requires
        call_ensures(PlaceLoad::statement, (load,), query) && *iterations == load.iterations
            || call_ensures(fetch_iteration_task_edges, (iterations,), query),
    ensures
        query is Some <==> iterations@.len() > 0,
        query is Some ==> {
            let q = query->0@;
            &&& q.params.len() == iterations@.len()
            &&& forall|i: int|
                0 <= i < iterations@.len() ==> #[trigger] q.params[i] == iterations@[i].id@
            &&& q.sql
                == "SELECT iteration_id, task_id, phase FROM iteration_tasks WHERE iteration_id IN ("@
                + placeholder_text(iterations@.len(), 1)
                + ") ORDER BY iteration_id, phase, created_at"@
        },
{
    places_are_asked_for_of_every_iteration(iteration_views(iterations@));
    if query is Some {
        let q = query->0@;
        assert forall|i: int| 0 <= i < iterations@.len() implies #[trigger] q.params[i]
            == iterations@[i].id@ by {
            assert(q.params[i] == iteration_views(iterations@)[i].id);
        }
    }
}

/// The relationships of every task with a place are asked for, by either end,
/// and nothing is asked where there is no place.
pub proof fn the_third_step_asks_for_relationships(
    load: &RelationshipLoad,
    query: Option<Statement>,
    i: int,
)
    requires
        call_ensures(RelationshipLoad::statement, (load,), query),
    ensures
        query is Some <==> load.edges@.len() > 0,
        query is Some ==> query->0@ == relationships_query(
            placed_ids(iteration_task_views(load.edges@)),
        ),
        query is Some && 0 <= i < load.edges@.len() ==> query->0@.params.contains(
            load.edges@[i].task_id@,
        ),
{
    if query is Some && 0 <= i < load.edges@.len() {
        let views = iteration_task_views(load.edges@);
        assert(views[i].task_id == load.edges@[i].task_id@);
        relationships_are_asked_for_of_every_placed_task(views, views[i].task_id);
    }
}

/// Every task that has a place, that a relationship comes from, or that one
/// goes to, is asked for; nothing is asked only where there is no such task.
pub proof fn the_last_step_asks_for_every_task(
    load: &TaskLoad,
    query: Option<Statement>,
    i: int,
    k: int,
)
    requires
        call_ensures(TaskLoad::statement, (load,), query),
    ensures
        0 <= i < load.edges@.len() ==> query is Some && query->0@.params.skip(1).contains(
            load.edges@[i].task_id@,
        ),
        0 <= k < load.relationships@.len() && load.relationships@[k].source_type == EntityType::Task
            ==> query is Some && query->0@.params.skip(1).contains(
            load.relationships@[k].source_id@,
        ),
        0 <= k < load.relationships@.len() && load.relationships@[k].target_type == EntityType::Task
            ==> query is Some && query->0@.params.skip(1).contains(
            load.relationships@[k].target_id@,
        ),
        query is Some ==> query->0@.params[0] == load.project_id@ && query->0@ == tasks_query(
            load.project_id@,
            wanted_ids(
                iteration_task_views(load.edges@),
                relationship_views(load.relationships@),
            ),
            load.include_all,
        ),
{
    let edges = iteration_task_views(load.edges@);
    let rels = relationship_views(load.relationships@);
    let ids = wanted_ids(edges, rels);
    let q = tasks_query(load.project_id@, ids, load.include_all);
    assert(q.params.skip(1) =~= ids);
    every_task_that_is_led_to_is_asked_for(
        load.project_id@,
        edges,
        rels,
        load.include_all,
        load.project_id@,
    );
    if 0 <= i < load.edges@.len() {
        assert(edges[i].task_id == load.edges@[i].task_id@);
        assert(ids.contains(edges[i].task_id));
    }
    if 0 <= k < load.relationships@.len() {
        assert(rels[k] == load.relationships@[k]@);
        if load.relationships@[k].source_type == EntityType::Task {
            assert(ids.contains(rels[k].source_id));
        }
        if load.relationships@[k].target_type == EntityType::Task {
            assert(ids.contains(rels[k].target_id));
        }
    }
}

/// What is asked about tasks is asked where there are any to ask about.
pub proof fn tasks_are_asked_about_where_there_are_any(
    project_id: &str,
    ids: &Vec<String>,
    include_all: bool,
    query: Option<Statement>,
)
    ensures
        call_ensures(fetch_task_relationship_edges, (ids,), query) ==> (query is Some
            <==> ids@.len() > 0) && (query is Some ==> query->0@ == relationships_query(
            texts(ids@),
        )),
        call_ensures(fetch_task_nodes, (project_id, ids, include_all), query) ==> (query is Some
            <==> ids@.len() > 0) && (query is Some ==> query->0@ == tasks_query(
            project_id@,
            texts(ids@),
            include_all,
        )),
{
}

/// The ids of tasks with places, and of all tasks that anything leads to, are
/// listed.
pub proof fn ids_of_tasks_are_listed(
    edges: &Vec<IterationTaskEdge>,
    rels: &Vec<RelationshipEdge>,
    ids: Vec<String>,
)
    ensures
        call_ensures(placed_task_ids, (edges,), ids) ==> texts(ids@) == placed_ids(
            iteration_task_views(edges@),
        ),
        call_ensures(wanted_task_ids, (edges, rels), ids) ==> texts(ids@) == wanted_ids(
            iteration_task_views(edges@),
            relationship_views(rels@),
        ),
{
}

/// Loaded tasks are kept in a table, and with them what links them.
pub proof fn loaded_tasks_are_kept_with_their_links(
    nodes: &Vec<TaskNode>,
    table: TaskTable,
    load: TaskLoad,
    data: GraphData,
)
    ensures
        call_ensures(task_table, (nodes,), table) ==> table@ == table_of(task_views(nodes@)),
        call_ensures(TaskLoad::with_tasks, (load, nodes), data) ==> data@ == assembled(
            iteration_views(load.iterations@),
            iteration_task_views(load.edges@),
            relationship_views(load.relationships@),
            task_views(nodes@),
        ),
{
}

/// A direction is read as it stands where it is one of the four that can be
/// asked for; anything else, and nothing, reads as from top to bottom.
pub proof fn directions_are_read(direction: Option<&str>, params: &GraphParams, res: String)
    ensures
        call_ensures(parse_direction, (direction,), res) ==> res@ == match direction {
            Some(d) => if d@ == "TD"@ || d@ == "BT"@ || d@ == "LR"@ || d@ == "RL"@ {
                d@
            } else {
                "TB"@
            },
            None => "TB"@,
        },
        call_ensures(GraphParams::graph_direction, (params,), res) ==> res@
            == match params.direction {
            Some(d) => if d@ == "TD"@ || d@ == "BT"@ || d@ == "LR"@ || d@ == "RL"@ {
                d@
            } else {
                "TB"@
            },
            None => "TB"@,
        },
{
}

/// Finished work is wanted where one of the four words for it is given.
pub proof fn wishes_for_finished_work_are_read(
    value: Option<&str>,
    params: &GraphParams,
    res: bool,
)
    ensures
        call_ensures(parse_include_all, (value,), res) ==> res == match value {
            Some(v) => v@ == "1"@ || v@ == "true"@ || v@ == "yes"@ || v@ == "all"@,
            None => false,
        },
        call_ensures(GraphParams::include_all, (params,), res) ==> res == match params.all {
            Some(v) => v@ == "1"@ || v@ == "true"@ || v@ == "yes"@ || v@ == "all"@,
            None => false,
        },
{
}

/// A page says which way its graphs flow and whether finished work is shown,
/// as its parameters ask, and its graphs flow that way.
pub proof fn pages_are_made_as_asked(
    params: &GraphParams,
    data: &GraphData,
    whole: RelationshipGraphPage,
    phases: PhaseGraphPage,
)
    ensures
        call_ensures(graph_relationships, (params, data), whole) ==> whole.direction@
            == params.flow() && whole.include_all == params.wants_all() && whole.graph@
            == project_graph(data@, whole.direction@),
        call_ensures(graph_phases, (params, data), phases) ==> phases.direction@ == params.flow()
            && phases.include_all == params.wants_all() && section_views(phases.sections@)
            == phase_sections(data@, phases.direction@),
{
}

} // verus!
