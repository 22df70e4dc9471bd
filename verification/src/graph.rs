use petgraph::dot::{Config, Dot};
use petgraph::graph::{Graph, NodeIndex};
use vstd::prelude::*;

verus! {

/// The graph type of the `petgraph` crate. Nothing inside it is visible
/// here; what a graph holds goes by [`nodes_in`] and [`edges_in`].
#[verifier::external_type_specification]
#[verifier::external_body]
#[verifier::reject_recursive_types(N)]
#[verifier::reject_recursive_types(E)]
#[verifier::reject_recursive_types(Ty)]
#[verifier::reject_recursive_types(Ix)]
pub struct ExGraph<N, E, Ty, Ix>(Graph<N, E, Ty, Ix>);

/// The marker of the `petgraph` crate for graphs with directed edges; it has
/// no values.
#[verifier::external_type_specification]
#[verifier::external_body]
pub struct ExDirected(petgraph::Directed);

/// The weights of the nodes of a graph, in the order of their indices.
pub uninterp spec fn nodes_in(g: Graph<String, String>) -> Seq<Seq<char>>;

/// The edges of a graph in the order in which they were added, each with the
/// index of the node that it leaves, the index of the node that it enters,
/// and its weight.
pub uninterp spec fn edges_in(g: Graph<String, String>) -> Seq<(int, int, Seq<char>)>;

/// `petgraph::graph::Graph::new`: a directed graph without nodes and
/// without edges.
#[verifier::external_body]
pub(crate) fn new_graph() -> (g: Graph<String, String>)
    ensures
        nodes_in(g) == Seq::<Seq<char>>::empty(),
        edges_in(g) == Seq::<(int, int, Seq<char>)>::empty(),
{
    Graph::new()
}

/// `petgraph::graph::Graph::add_node`: the node is added behind the nodes
/// that are there and gets the next index, which is returned; the edges
/// stay. The crate stops when the index would be the greatest `u32`, which
/// it keeps for its own use, so the caller stays below that many nodes.
#[verifier::external_body]
pub(crate) fn add_node(g: &mut Graph<String, String>, weight: String) -> (index: usize)
    requires
        nodes_in(*old(g)).len() < u32::MAX,
    ensures
        nodes_in(*final(g)) == nodes_in(*old(g)).push(weight@),
        edges_in(*final(g)) == edges_in(*old(g)),
        index == nodes_in(*old(g)).len(),
{
    g.add_node(weight).index()
}

/// `petgraph::graph::Graph::add_edge`: the edge from the node at `a` to
/// the node at `b` is added behind the edges that are there, parallel
/// edges included; the nodes stay. The crate stops when one of the two
/// nodes does not exist, and when the index of the edge would be the
/// greatest `u32`.
#[verifier::external_body]
pub(crate) fn add_edge(g: &mut Graph<String, String>, a: usize, b: usize, weight: String)
    requires
        a < nodes_in(*old(g)).len(),
        b < nodes_in(*old(g)).len(),
        nodes_in(*old(g)).len() <= u32::MAX,
        edges_in(*old(g)).len() < u32::MAX,
    ensures
        nodes_in(*final(g)) == nodes_in(*old(g)),
        edges_in(*final(g)) == edges_in(*old(g)).push((a as int, b as int, weight@)),
{
    g.add_edge(NodeIndex::new(a), NodeIndex::new(b), weight);
}

/// The values of a list of texts, in order.
pub open spec fn text_views(texts: Seq<String>) -> Seq<Seq<char>> {
    Seq::new(texts.len(), |i: int| texts[i]@)
}

/// What `petgraph::dot::Dot` writes for the content of a graph with the
/// given nodes and edges, when each node is given the attribute text that
/// stands at its index and the edges are given no attributes.
pub uninterp spec fn dot_text(
    nodes: Seq<Seq<char>>,
    edges: Seq<(int, int, Seq<char>)>,
    attributes: Seq<Seq<char>>,
) -> Seq<char>;

/// The attribute text of an edge: none.
pub fn edge_attribute() -> (text: String)
    ensures
        text@ == Seq::<char>::empty(),
{
    String::new()
}

/// The attribute text of the node at index `i`.
pub fn node_attribute(attributes: &Vec<String>, i: usize) -> (text: String)
    requires
        i < attributes@.len(),
    ensures
        text@ == attributes@[i as int]@,
{
    attributes[i].clone()
}

/// `petgraph::dot::Dot::with_attr_getters`, with the configuration
/// `GraphContentOnly`, written out through `Display`: the text depends on
/// the nodes and edges of the graph and on the attribute texts alone. Each
/// node needs an attribute text.
#[verifier::external_body]
pub(crate) fn render_content(g: &Graph<String, String>, attributes: &Vec<String>) -> (text: String)
    requires
        attributes@.len() == nodes_in(*g).len(),
    ensures
        text@ == dot_text(nodes_in(*g), edges_in(*g), text_views(attributes@)),
{
    let bare = |_, _| edge_attribute();
    let placed = |_, node: (NodeIndex, &String)| node_attribute(attributes, node.0.index());
    format!("{}", Dot::with_attr_getters(g, &[Config::GraphContentOnly], &bare, &placed))
}

} // verus!
