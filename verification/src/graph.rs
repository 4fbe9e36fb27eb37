//! Reading the graph: display labels, and snapshots without repeated nodes.
//!
//! The rows come from the graph store, which is outside; a caller hands
//! them over as plain values. A node is known by its element id, and a
//! snapshot lists each node and each edge once, as first seen.

use crate::string_map::{key_index, lemma_key_index_unique};
use crate::text::joined;
use vstd::prelude::*;

verus! {

/// A node of the graph as a snapshot lists it. The properties are JSON text.
#[derive(Debug, Clone, PartialEq, Eq)]
pub struct GraphNode {
    pub id: String,
    pub labels: Vec<String>,
    pub properties: String,
}

/// An edge of the graph as a snapshot lists it. The properties are JSON text.
#[derive(Debug, Clone, PartialEq, Eq)]
pub struct GraphEdge {
    pub id: String,
    pub edge_type: String,
    pub from: String,
    pub to: String,
    pub properties: String,
}

/// A snapshot of the graph.
#[derive(Debug, Clone, PartialEq, Eq)]
pub struct GraphSnapshotResponse {
    pub nodes: Vec<GraphNode>,
    pub edges: Vec<GraphEdge>,
}

/// The decisions and their current versions.
#[derive(Debug, Clone, PartialEq, Eq)]
pub struct CurrentDecisionsResponse {
    pub decisions: Vec<GraphNode>,
    pub decision_versions: Vec<GraphNode>,
}

/// The truth objects and their current versions.
#[derive(Debug, Clone, PartialEq, Eq)]
pub struct CurrentTruthResponse {
    pub truth_objects: Vec<GraphNode>,
    pub truth_versions: Vec<GraphNode>,
}

/// One row of a viewer-scoped read: an edge and the two nodes it joins. A
/// part that the row lacks has an empty id.
#[derive(Debug, Clone, PartialEq, Eq)]
pub struct SnapshotRow {
    pub a: GraphNode,
    pub r: GraphEdge,
    pub b: GraphNode,
}

/// The value of the property `name`, if the list has it.
pub open spec fn property(props: Seq<(String, String)>, name: Seq<char>) -> Option<Seq<char>> {
    let i = key_index(props, name);
    if i < props.len() {
        Some(props[i].1@)
    } else {
        None
    }
}

/// `a` if it is there, else `b`.
pub open spec fn or_else(a: Option<Seq<char>>, b: Option<Seq<char>>) -> Option<Seq<char>> {
    if a.is_some() {
        a
    } else {
        b
    }
}

/// The value of the first name-like property that a node has, in the fixed
/// order of preference.
pub open spec fn node_name(props: Seq<(String, String)>) -> Option<Seq<char>> {
    or_else(
        property(props, "name"@),
        or_else(
            property(props, "label"@),
            or_else(
                property(props, "summary"@),
                or_else(
                    property(props, "decision"@),
                    or_else(
                        property(props, "truth_id"@),
                        or_else(
                            property(props, "employee_id"@),
                            or_else(
                                property(props, "team_id"@),
                                or_else(
                                    property(props, "topic"@),
                                    or_else(
                                        property(props, "decision_id"@),
                                        or_else(
                                            property(props, "decision_version_id"@),
                                            property(props, "truth_version_id"@),
                                        ),
                                    ),
                                ),
                            ),
                        ),
                    ),
                ),
            ),
        ),
    )
}

/// The first label of a node, or `Node` where it has none.
pub open spec fn primary_label(labels: Seq<String>) -> Seq<char> {
    if labels.len() > 0 {
        labels[0]@
    } else {
        "Node"@
    }
}

/// The label under which a node is displayed: its first name-like property,
/// or its primary label, a colon and its element id where it has none.
pub open spec fn node_label(props: Seq<(String, String)>, labels: Seq<String>, id: Seq<char>)
    -> Seq<char> {
    match node_name(props) {
        Some(v) => v,
        None => primary_label(labels) + ":"@ + id,
    }
}

/// The label under which an edge is displayed: its `name`, else its
/// `label`, else its type.
pub open spec fn edge_label(props: Seq<(String, String)>, edge_type: Seq<char>) -> Seq<char> {
    match or_else(property(props, "name"@), property(props, "label"@)) {
        Some(v) => v,
        None => edge_type,
    }
}

/// Whether a node with this id is among `nodes`.
pub open spec fn has_node(nodes: Seq<GraphNode>, id: Seq<char>) -> bool {
    exists|j: int| 0 <= j < nodes.len() && #[trigger] nodes[j].id@ == id
}

/// Whether an edge with this id is among `edges`.
pub open spec fn has_edge(edges: Seq<GraphEdge>, id: Seq<char>) -> bool {
    exists|j: int| 0 <= j < edges.len() && #[trigger] edges[j].id@ == id
}

/// `nodes` with `node` appended, unless its id is already there.
pub open spec fn with_object(nodes: Seq<GraphNode>, node: GraphNode) -> Seq<GraphNode> {
    if has_node(nodes, node.id@) {
        nodes
    } else {
        nodes.push(node)
    }
}

/// `nodes` with `node` appended, unless its id is empty or already there.
pub open spec fn with_node(nodes: Seq<GraphNode>, node: GraphNode) -> Seq<GraphNode> {
    if node.id@.len() == 0 {
        nodes
    } else {
        with_object(nodes, node)
    }
}

/// `edges` with `edge` appended, unless its id is empty or already there.
pub open spec fn with_edge(edges: Seq<GraphEdge>, edge: GraphEdge) -> Seq<GraphEdge> {
    if edge.id@.len() == 0 || has_edge(edges, edge.id@) {
        edges
    } else {
        edges.push(edge)
    }
}

/// The nodes that the rows mention, each once, as first seen.
pub open spec fn row_nodes(rows: Seq<SnapshotRow>) -> Seq<GraphNode>
    decreases rows.len(),
{
    if rows.len() == 0 {
        Seq::empty()
    } else {
        with_node(with_node(row_nodes(rows.drop_last()), rows.last().a), rows.last().b)
    }
}

/// The edges that the rows mention, each once, as first seen.
pub open spec fn row_edges(rows: Seq<SnapshotRow>) -> Seq<GraphEdge>
    decreases rows.len(),
{
    if rows.len() == 0 {
        Seq::empty()
    } else {
        with_edge(row_edges(rows.drop_last()), rows.last().r)
    }
}

/// The objects that the rows of a query for current objects mention, each
/// once, as first seen.
pub open spec fn row_objects(rows: Seq<(GraphNode, GraphNode)>) -> Seq<GraphNode>
    decreases rows.len(),
{
    if rows.len() == 0 {
        Seq::empty()
    } else {
        with_object(row_objects(rows.drop_last()), rows.last().0)
    }
}

/// The current versions that the rows of a query for current objects
/// mention, each once, as first seen.
pub open spec fn row_versions(rows: Seq<(GraphNode, GraphNode)>) -> Seq<GraphNode>
    decreases rows.len(),
{
    if rows.len() == 0 {
        Seq::empty()
    } else {
        with_object(row_versions(rows.drop_last()), rows.last().1)
    }
}

/// The value of the property `name`, if the list has it.
pub fn property_of<'a>(props: &'a Vec<(String, String)>, name: &str) -> (r: Option<&'a String>)
    ensures
        match r {
            Some(v) => property(props@, name@) == Some(v@),
            None => property(props@, name@).is_none(),
        },
{
    let mut i: usize = 0;
    while i < props.len()
        invariant
            i <= props@.len(),
            forall|j: int| 0 <= j < i ==> props@[j].0@ != name@,
        decreases props@.len() - i,
    {
        if props[i].0.as_str().eq(name) {
            proof {
                lemma_key_index_unique(props@, name@, i as int);
            }
            return Some(&props[i].1);
        }
        i += 1;
    }
    proof {
        lemma_key_index_unique(props@, name@, i as int);
    }
    None
}

/// The value of the first name-like property that a node has.
fn name_of<'a>(props: &'a Vec<(String, String)>) -> (r: Option<&'a String>)
    ensures
        match r {
            Some(v) => node_name(props@) == Some(v@),
            None => node_name(props@).is_none(),
        },
{
    if let Some(v) = property_of(props, "name") {
        Some(v)
    } else if let Some(v) = property_of(props, "label") {
        Some(v)
    } else if let Some(v) = property_of(props, "summary") {
        Some(v)
    } else if let Some(v) = property_of(props, "decision") {
        Some(v)
    } else if let Some(v) = property_of(props, "truth_id") {
        Some(v)
    } else if let Some(v) = property_of(props, "employee_id") {
        Some(v)
    } else if let Some(v) = property_of(props, "team_id") {
        Some(v)
    } else if let Some(v) = property_of(props, "topic") {
        Some(v)
    } else if let Some(v) = property_of(props, "decision_id") {
        Some(v)
    } else if let Some(v) = property_of(props, "decision_version_id") {
        Some(v)
    } else {
        property_of(props, "truth_version_id")
    }
}

/// The label under which a node is displayed.
pub fn node_display_label(props: &Vec<(String, String)>, labels: &Vec<String>, id: &str) -> (r:
    String)
    ensures
        r@ == node_label(props@, labels@, id@),
{
    match name_of(props) {
        Some(v) => v.clone(),
        None => {
            let head = if labels.len() > 0 {
                joined(labels[0].as_str(), ":")
            } else {
                joined("Node", ":")
            };
            joined(head.as_str(), id)
        },
    }
}

/// The label under which an edge is displayed.
pub fn edge_display_label(props: &Vec<(String, String)>, edge_type: &str) -> (r: String)
    ensures
        r@ == edge_label(props@, edge_type@),
{
    if let Some(v) = property_of(props, "name") {
        v.clone()
    } else if let Some(v) = property_of(props, "label") {
        v.clone()
    } else {
        edge_type.to_owned()
    }
}

/// Appends `node` to `nodes` unless its id is empty or already there.
pub fn add_node(nodes: &mut Vec<GraphNode>, node: GraphNode)
    ensures
        final(nodes)@ == with_node(old(nodes)@, node),
{
    if node.id.as_str().unicode_len() > 0 {
        add_object(nodes, node);
    }
}

/// Appends `node` to `nodes` unless its id is already there.
pub fn add_object(nodes: &mut Vec<GraphNode>, node: GraphNode)
    ensures
        final(nodes)@ == with_object(old(nodes)@, node),
{
    let mut i: usize = 0;
    while i < nodes.len()
        invariant
            i <= nodes@.len(),
            nodes@ == old(nodes)@,
            forall|j: int| 0 <= j < i ==> nodes@[j].id@ != node.id@,
        decreases nodes@.len() - i,
    {
        if nodes[i].id.as_str().eq(node.id.as_str()) {
            return ;
        }
        i += 1;
    }
    nodes.push(node);
}

/// Appends `edge` to `edges` unless its id is empty or already there.
pub fn add_edge(edges: &mut Vec<GraphEdge>, edge: GraphEdge)
    ensures
        final(edges)@ == with_edge(old(edges)@, edge),
{
    if edge.id.as_str().unicode_len() == 0 {
        return ;
    }
    let mut i: usize = 0;
    while i < edges.len()
        invariant
            i <= edges@.len(),
            edges@ == old(edges)@,
            forall|j: int| 0 <= j < i ==> edges@[j].id@ != edge.id@,
        decreases edges@.len() - i,
    {
        if edges[i].id.as_str().eq(edge.id.as_str()) {
            return ;
        }
        i += 1;
    }
    edges.push(edge);
}

/// The snapshot that the rows of a viewer-scoped read amount to: every node
/// and every edge that a row mentions, each once, as first seen.
pub fn assemble_snapshot(rows: Vec<SnapshotRow>) -> (r: GraphSnapshotResponse)
    ensures
        r.nodes@ == row_nodes(rows@),
        r.edges@ == row_edges(rows@),
{
    let mut nodes: Vec<GraphNode> = Vec::new();
    let mut edges: Vec<GraphEdge> = Vec::new();
    let ghost all = rows@;
    for row in it: rows
        invariant
            it.seq() == all,
            nodes@ == row_nodes(all.take(it.index() as int)),
            edges@ == row_edges(all.take(it.index() as int)),
    {
        proof {
            assert(all.take(it.index() + 1).drop_last() =~= all.take(it.index() as int));
        }
        add_node(&mut nodes, row.a);
        add_node(&mut nodes, row.b);
        add_edge(&mut edges, row.r);
    }
    assert(all.take(all.len() as int) =~= all);
    GraphSnapshotResponse { nodes, edges }
}

/// The objects and current versions that the rows of a query for current
/// objects amount to, each listed once, as first seen.
fn assemble_current(rows: Vec<(GraphNode, GraphNode)>) -> (r: (Vec<GraphNode>, Vec<GraphNode>))
    ensures
        r.0@ == row_objects(rows@),
        r.1@ == row_versions(rows@),
{
    let mut objects: Vec<GraphNode> = Vec::new();
    let mut versions: Vec<GraphNode> = Vec::new();
    let ghost all = rows@;
    for row in it: rows
        invariant
            it.seq() == all,
            objects@ == row_objects(all.take(it.index() as int)),
            versions@ == row_versions(all.take(it.index() as int)),
    {
        proof {
            assert(all.take(it.index() + 1).drop_last() =~= all.take(it.index() as int));
        }
        add_object(&mut objects, row.0);
        add_object(&mut versions, row.1);
    }
    assert(all.take(all.len() as int) =~= all);
    (objects, versions)
}

/// The answer to a query for the current decisions, from its rows of
/// (decision, current version).
pub fn assemble_current_decisions(rows: Vec<(GraphNode, GraphNode)>) -> (r:
    CurrentDecisionsResponse)
    ensures
        r.decisions@ == row_objects(rows@),
        r.decision_versions@ == row_versions(rows@),
{
    let (decisions, decision_versions) = assemble_current(rows);
    CurrentDecisionsResponse { decisions, decision_versions }
}

/// The answer to a query for the current truth, from its rows of (truth
/// object, current version).
pub fn assemble_current_truth(rows: Vec<(GraphNode, GraphNode)>) -> (r: CurrentTruthResponse)
    ensures
        r.truth_objects@ == row_objects(rows@),
        r.truth_versions@ == row_versions(rows@),
{
    let (truth_objects, truth_versions) = assemble_current(rows);
    CurrentTruthResponse { truth_objects, truth_versions }
}

} // verus!
