//! Snapshot types shared by several views: events, owner references and
//! graph data.

use vstd::prelude::*;

verus! {

/// A node of a rendered resource graph.
#[derive(Debug, Clone)]
pub struct GraphNode {
    pub id: String,
    pub label: String,
    pub node_type: String,
    pub status: String,
}

/// A directed edge of a rendered resource graph.
#[derive(Debug, Clone)]
pub struct GraphEdge {
    pub source: String,
    pub target: String,
    pub label: String,
}

/// A service-to-service network graph.
#[derive(Debug, Clone)]
pub struct NetworkGraphData {
    pub nodes: Vec<GraphNode>,
    pub edges: Vec<GraphEdge>,
}

/// An ownership/dependency graph around one resource.
#[derive(Debug, Clone)]
pub struct DependencyGraphData {
    pub nodes: Vec<GraphNode>,
    pub edges: Vec<GraphEdge>,
}

/// One event scoped to a resource, as shown in detail views.
#[derive(Debug, Clone)]
pub struct EventInfo {
    pub reason: String,
    pub message: String,
    pub count: i32,
    pub age: String,
    pub event_type: String,
}

/// The abstract value of an [`EventInfo`].
pub struct EventInfoView {
    pub reason: Seq<char>,
    pub message: Seq<char>,
    pub count: int,
    pub age: Seq<char>,
    pub event_type: Seq<char>,
}

impl View for EventInfo {
    type V = EventInfoView;

    open spec fn view(&self) -> EventInfoView {
        EventInfoView {
            reason: self.reason@,
            message: self.message@,
            count: self.count as int,
            age: self.age@,
            event_type: self.event_type@,
        }
    }
}

impl DeepView for EventInfo {
    type V = EventInfoView;

    open spec fn deep_view(&self) -> EventInfoView {
        self.view()
    }
}

/// One entry of a resource's owner-reference chain.
#[derive(Debug, Clone)]
pub struct OwnerRefInfo {
    pub kind: String,
    pub name: String,
}

/// The abstract value of an [`OwnerRefInfo`].
pub struct OwnerRefView {
    pub kind: Seq<char>,
    pub name: Seq<char>,
}

impl View for OwnerRefInfo {
    type V = OwnerRefView;

    open spec fn view(&self) -> OwnerRefView {
        OwnerRefView { kind: self.kind@, name: self.name@ }
    }
}

impl DeepView for OwnerRefInfo {
    type V = OwnerRefView;

    open spec fn deep_view(&self) -> OwnerRefView {
        self.view()
    }
}

/// A row of a generic resource listing.
#[derive(Debug, Clone)]
pub struct GenericResourceListItem {
    pub name: String,
    pub namespace: String,
    pub age: String,
    pub status: String,
}

} // verus!
