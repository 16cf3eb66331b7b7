//! The graph pages of the dashboard.
use vstd::prelude::*;

use crate::text::same;
use crate::web::mermaid::{build_mermaid, mermaid_text};
use crate::web::phases::{
    build_phase_sections, phase_sections, section_views, GraphData, GraphDataView, MermaidGraph,
    MermaidGraphView, PhaseGraphSection,
};

verus! {

/// The directions in which a graph can be asked to flow.
pub open spec fn is_direction(direction: Seq<char>) -> bool {
    direction == "TD"@ || direction == "BT"@ || direction == "LR"@ || direction == "RL"@
}

/// Reads the direction of a graph: one of the known ones as it stands, and
/// `TB` for anything else.
pub fn parse_direction(direction: Option<&str>) -> (res: String)
    ensures
        res@ == (match direction {
            Some(d) => if is_direction(d@) {
                d@
            } else {
                "TB"@
            },
            None => "TB"@,
        }),
{
    match direction {
        Some(d) => {
            if same(d, "TD") || same(d, "BT") || same(d, "LR") || same(d, "RL") {
                d.to_owned()
            } else {
                "TB".to_owned()
            }
        },
        None => "TB".to_owned(),
    }
}

/// The values that ask for finished work to be shown too.
pub open spec fn is_yes(value: Seq<char>) -> bool {
    value == "1"@ || value == "true"@ || value == "yes"@ || value == "all"@
}

/// Reads whether finished work is to be shown too.
pub fn parse_include_all(value: Option<&str>) -> (res: bool)
    ensures
        res == (value matches Some(v) && is_yes(v@)),
{
    match value {
        Some(v) => same(v, "1") || same(v, "true") || same(v, "yes") || same(v, "all"),
        None => false,
    }
}

/// Query parameters shared by graph pages.
#[derive(Debug)]
pub struct GraphParams {
    pub all: Option<String>,
    pub direction: Option<String>,
}

impl GraphParams {
    /// Whether the parameters ask for finished work too.
    pub open spec fn wants_all(self) -> bool {
        self.all matches Some(value) && is_yes(value@)
    }

    /// The direction that the parameters ask for.
    pub open spec fn flow(self) -> Seq<char> {
        match self.direction {
            Some(d) => if is_direction(d@) {
                d@
            } else {
                "TB"@
            },
            None => "TB"@,
        }
    }

    /// Decides whether finished work is to be shown too.
    pub fn include_all(&self) -> (res: bool)
        ensures
            res == self.wants_all(),
    {
        match &self.all {
            Some(value) => parse_include_all(Some(value.as_str())),
            None => parse_include_all(None),
        }
    }

    /// Chooses the direction of the graphs.
    pub fn graph_direction(&self) -> (direction: String)
        ensures
            direction@ == self.flow(),
    {
        match &self.direction {
            Some(d) => parse_direction(Some(d.as_str())),
            None => parse_direction(None),
        }
    }
}

/// The page with the relationships of a whole project.
#[derive(Debug)]
pub struct RelationshipGraphPage {
    pub direction: String,
    pub graph: MermaidGraph,
    pub include_all: bool,
}

/// The page with the phases of each iteration.
#[derive(Debug)]
pub struct PhaseGraphPage {
    pub direction: String,
    pub include_all: bool,
    pub sections: Vec<PhaseGraphSection>,
}

/// The graph of a whole project: its iterations one after the other, and all
/// its tasks and links.
pub open spec fn project_graph(data: GraphDataView, direction: Seq<char>) -> MermaidGraphView {
    MermaidGraphView {
        mermaid: mermaid_text(
            data.iterations,
            data.tasks,
            data.iteration_tasks,
            data.relationships,
            direction,
            true,
        ),
        task_count: data.tasks.len(),
        title: "project relationships"@,
    }
}

/// Makes the page with the relationships of a whole project.
pub fn graph_relationships(params: &GraphParams, data: &GraphData) -> (page: RelationshipGraphPage)
    ensures
        page.direction@ == params.flow(),
        page.include_all == params.wants_all(),
        page.graph@ == project_graph(data@, params.flow()),
{
    let include_all = params.include_all();
    let direction = params.graph_direction();
    let graph = MermaidGraph {
        task_count: data.tasks.len(),
        title: "project relationships".to_owned(),
        mermaid: build_mermaid(
            &data.iterations,
            &data.tasks,
            &data.iteration_tasks,
            &data.relationships,
            direction.as_str(),
            true,
        ),
    };
    RelationshipGraphPage { direction, graph, include_all }
}

/// Makes the page with the phases of each iteration.
pub fn graph_phases(params: &GraphParams, data: &GraphData) -> (page: PhaseGraphPage)
    ensures
        page.direction@ == params.flow(),
        page.include_all == params.wants_all(),
        section_views(page.sections@) == phase_sections(data@, params.flow()),
{
    let include_all = params.include_all();
    let direction = params.graph_direction();
    let sections = build_phase_sections(data, direction.as_str());
    PhaseGraphPage { direction, include_all, sections }
}

} // verus!
