//! The knowledge graph: pages as nodes, typed edges between them, and the
//! containment hierarchy that lets access grants flow downward.
//!
//! The structure (node indices and edges) lives in a `petgraph` graph whose
//! node weights are page ids and whose edge weights are edge-kind codes; the
//! page metadata of node `i` is held at position `i` of a vector beside it.
use vstd::prelude::*;

use std::collections::HashMap;

use petgraph::graph::Graph;
use petgraph::visit::EdgeRef;
use petgraph::Directed;

use crate::ports::{GraphData, GraphEdgeData, GraphNodeData};
use crate::tenant::{
    global_view, grant_reaches, principal_covers, spec_can_edit_page, spec_can_manage_grants, spec_can_see_page,
    ContextView, TenantContext,
};
use crate::value_objects::{
    duplicate_opt_slug, grants_view, level_max, opt_slug_view, slugs_view, AccessView, EdgeKind,
    Grant, GrantView, Level, PageAccess, PageId, PageType, PrincipalView, Slug, Visibility,
    VisibilityView,
};

verus! {

broadcast use vstd::std_specs::hash::group_hash_axioms;

#[verifier::external_type_specification]
#[verifier::external_body]
#[verifier::reject_recursive_types(N)]
#[verifier::reject_recursive_types(E)]
#[verifier::reject_recursive_types(Ty)]
#[verifier::reject_recursive_types(Ix)]
pub struct ExGraph<N, E, Ty, Ix>(Graph<N, E, Ty, Ix>);

#[verifier::external_type_specification]
#[verifier::external_body]
pub struct ExDirected(Directed);

// ---------------------------------------------------------------------------
// The petgraph graph, as far as this library uses it
// ---------------------------------------------------------------------------

/// The weights of a graph's nodes, by node index.
pub uninterp spec fn pg_nodes(g: Graph<u128, u8, Directed, u32>) -> Seq<u128>;

/// A graph's edges by edge index: source index, target index, weight.
pub uninterp spec fn pg_edges(g: Graph<u128, u8, Directed, u32>) -> Seq<(u32, u32, u8)>;

/// The index a node takes after node `a` was removed and the last node
/// `last` moved into its place.
pub open spec fn moved_index(j: u32, a: u32, last: u32) -> u32 {
    if j == last {
        a
    } else {
        j
    }
}

/// The edges left when node `a` is removed: those not touching `a`, with the
/// endpoints at the old last index `last` renamed to `a`.
pub open spec fn edges_without_node(es: Seq<(u32, u32, u8)>, a: u32, last: u32) -> Seq<
    (u32, u32, u8),
>
    decreases es.len(),
{
    if es.len() == 0 {
        Seq::empty()
    } else {
        let rest = edges_without_node(es.drop_last(), a, last);
        let e = es.last();
        if e.0 == a || e.1 == a {
            rest
        } else {
            rest.push((moved_index(e.0, a, last), moved_index(e.1, a, last), e.2))
        }
    }
}

/// Which edges of a node to follow.
#[derive(Debug, Clone, Copy, PartialEq, Eq, Structural)]
pub enum Direction {
    /// Edges leaving the node.
    Outgoing,
    /// Edges entering the node.
    Incoming,
}

/// The edges leaving or entering node `a`, in index order.
pub open spec fn edges_at(es: Seq<(u32, u32, u8)>, a: u32, dir: Direction) -> Seq<(u32, u32, u8)>
    decreases es.len(),
{
    if es.len() == 0 {
        Seq::empty()
    } else {
        let rest = edges_at(es.drop_last(), a, dir);
        let e = es.last();
        if (dir == Direction::Outgoing && e.0 == a) || (dir == Direction::Incoming && e.1 == a) {
            rest.push(e)
        } else {
            rest
        }
    }
}

/// Calls `Graph::new`: no nodes, no edges.
#[verifier::external_body]
fn pg_new() -> (r: Graph<u128, u8, Directed, u32>)
    ensures
        pg_nodes(r).len() == 0,
        pg_edges(r).len() == 0,
{
    Graph::new()
}

/// Calls `Graph::add_node`, which pushes the weight as the last node and
/// returns its index; edges are untouched. It panics once the `u32` index
/// space is full, which `requires` rules out.
#[verifier::external_body]
fn pg_add_node(g: &mut Graph<u128, u8, Directed, u32>, w: u128) -> (r: u32)
    requires
        pg_nodes(*old(g)).len() < 0xffff_ffff,
    ensures
        pg_nodes(*final(g)) == pg_nodes(*old(g)).push(w),
        pg_edges(*final(g)) == pg_edges(*old(g)),
        r as int == pg_nodes(*old(g)).len(),
{
    g.add_node(w).index() as u32
}

/// Calls `Graph::remove_node` on an existing node `a`: the last node takes
/// index `a` (`swap_remove`), every edge touching `a` is removed and the
/// edges of the moved node are renamed. Edge indices move as well, so only
/// the multiset of remaining edges is stated.
#[verifier::external_body]
fn pg_remove_node(g: &mut Graph<u128, u8, Directed, u32>, a: u32)
    requires
        (a as int) < pg_nodes(*old(g)).len(),
    ensures
        pg_nodes(*final(g)) == pg_nodes(*old(g)).update(a as int, pg_nodes(*old(g)).last()).drop_last(),
        pg_edges(*final(g)).to_multiset() == edges_without_node(
            pg_edges(*old(g)),
            a,
            (pg_nodes(*old(g)).len() - 1) as u32,
        ).to_multiset(),
{
    g.remove_node(petgraph::graph::NodeIndex::new(a as usize));
}

/// Calls `Graph::add_edge`, which pushes the edge `a -> b` as the last edge.
/// It panics on a missing endpoint or a full `u32` edge-index space, which
/// `requires` rules out.
#[verifier::external_body]
fn pg_add_edge(g: &mut Graph<u128, u8, Directed, u32>, a: u32, b: u32, w: u8) -> (r: u32)
    requires
        (a as int) < pg_nodes(*old(g)).len(),
        (b as int) < pg_nodes(*old(g)).len(),
        pg_edges(*old(g)).len() < 0xffff_ffff,
    ensures
        pg_nodes(*final(g)) == pg_nodes(*old(g)),
        pg_edges(*final(g)) == pg_edges(*old(g)).push((a, b, w)),
        r as int == pg_edges(*old(g)).len(),
{
    g.add_edge(
        petgraph::graph::NodeIndex::new(a as usize),
        petgraph::graph::NodeIndex::new(b as usize),
        w,
    ).index() as u32
}

/// Calls `Graph::find_edge`: the index of some edge `a -> b`, or `None` when
/// there is none. Which of several parallel edges is found is not stated.
#[verifier::external_body]
fn pg_find_edge(g: &Graph<u128, u8, Directed, u32>, a: u32, b: u32) -> (r: Option<u32>)
    ensures
        match r {
            Some(e) => (e as int) < pg_edges(*g).len() && pg_edges(*g)[e as int].0 == a
                && pg_edges(*g)[e as int].1 == b,
            None => forall|k: int|
                0 <= k < pg_edges(*g).len() ==> !((#[trigger] pg_edges(*g)[k]).0 == a
                    && pg_edges(*g)[k].1 == b),
        },
{
    match g.find_edge(
        petgraph::graph::NodeIndex::new(a as usize),
        petgraph::graph::NodeIndex::new(b as usize),
    ) {
        Some(e) => Some(e.index() as u32),
        None => None,
    }
}

/// Calls `Graph::remove_edge` on an existing edge `e`: the last edge takes
/// index `e` (`swap_remove`).
#[verifier::external_body]
fn pg_remove_edge(g: &mut Graph<u128, u8, Directed, u32>, e: u32)
    requires
        (e as int) < pg_edges(*old(g)).len(),
    ensures
        pg_nodes(*final(g)) == pg_nodes(*old(g)),
        pg_edges(*final(g)) == pg_edges(*old(g)).update(e as int, pg_edges(*old(g)).last()).drop_last(),
{
    g.remove_edge(petgraph::graph::EdgeIndex::new(e as usize));
}

/// Calls `Graph::edges_directed` and lists each edge as (source, target,
/// weight): the edges leaving or entering `a`. They are stated as a
/// multiset; their order (most recently added first) is not stated.
#[verifier::external_body]
fn pg_edges_directed(g: &Graph<u128, u8, Directed, u32>, a: u32, dir: Direction) -> (r: Vec<
    (u32, u32, u8),
>)
    ensures
        r@.to_multiset() == edges_at(pg_edges(*g), a, dir).to_multiset(),
{
    let dir = match dir {
        Direction::Outgoing => petgraph::Direction::Outgoing,
        Direction::Incoming => petgraph::Direction::Incoming,
    };
    g.edges_directed(petgraph::graph::NodeIndex::new(a as usize), dir).map(
        |e| (e.source().index() as u32, e.target().index() as u32, *e.weight()),
    ).collect()
}

// ---------------------------------------------------------------------------
// Nodes, edges and the graph's value
// ---------------------------------------------------------------------------

/// A page as the graph knows it.
#[derive(Debug, Clone)]
pub struct GraphNode {
    pub page_id: PageId,
    pub slug: Slug,
    pub title: String,
    pub summary: String,
    pub visibility: Visibility,
    /// Access model, for owner/grant filtering during traversal and listing.
    pub access: PageAccess,
    pub page_type: PageType,
    /// Containment parent; `None` for a root page.
    pub parent: Option<Slug>,
}

/// The mathematical value of a [`GraphNode`].
pub struct GraphNodeView {
    pub page_id: u128,
    pub slug: Seq<char>,
    pub title: Seq<char>,
    pub summary: Seq<char>,
    pub visibility: VisibilityView,
    pub access: AccessView,
    pub page_type: PageType,
    pub parent: Option<Seq<char>>,
}

impl View for GraphNode {
    type V = GraphNodeView;

    open spec fn view(&self) -> GraphNodeView {
        GraphNodeView {
            page_id: self.page_id.0,
            slug: self.slug@,
            title: self.title@,
            summary: self.summary@,
            visibility: self.visibility@,
            access: self.access@,
            page_type: self.page_type,
            parent: opt_slug_view(self.parent),
        }
    }
}

impl GraphNode {
    /// A copy with the same value.
    pub fn duplicate(&self) -> (r: GraphNode)
        ensures
            r@ == self@,
    {
        GraphNode {
            page_id: self.page_id,
            slug: self.slug.duplicate(),
            title: self.title.clone(),
            summary: self.summary.clone(),
            visibility: self.visibility.duplicate(),
            access: self.access.duplicate(),
            page_type: self.page_type,
            parent: duplicate_opt_slug(&self.parent),
        }
    }
}

/// The weight of an edge.
#[derive(Debug, Clone, Copy, PartialEq, Eq, Structural)]
pub struct GraphEdge {
    pub kind: EdgeKind,
}

/// Lightweight neighbour information returned by traversal.
#[derive(Debug, Clone)]
pub struct NeighborInfo {
    pub page_id: PageId,
    pub slug: Slug,
    pub title: String,
    pub summary: String,
    pub page_type: PageType,
    pub edge_kind: EdgeKind,
}

/// The mathematical value of a [`NeighborInfo`]: the neighbour's node value
/// fields and the kind of the edge that led to it.
pub struct NeighborView {
    pub page_id: u128,
    pub slug: Seq<char>,
    pub title: Seq<char>,
    pub summary: Seq<char>,
    pub page_type: PageType,
    pub edge_kind: EdgeKind,
}

impl View for NeighborInfo {
    type V = NeighborView;

    open spec fn view(&self) -> NeighborView {
        NeighborView {
            page_id: self.page_id.0,
            slug: self.slug@,
            title: self.title@,
            summary: self.summary@,
            page_type: self.page_type,
            edge_kind: self.edge_kind,
        }
    }
}

/// What a neighbour entry says of node `n` reached by an edge of kind `k`.
pub open spec fn neighbor_of(n: GraphNodeView, k: EdgeKind) -> NeighborView {
    NeighborView {
        page_id: n.page_id,
        slug: n.slug,
        title: n.title,
        summary: n.summary,
        page_type: n.page_type,
        edge_kind: k,
    }
}

/// The code an edge kind is stored under in the graph.
pub open spec fn kind_code(k: EdgeKind) -> u8 {
    match k {
        EdgeKind::Parent => 0,
        EdgeKind::Child => 1,
        EdgeKind::Related => 2,
        EdgeKind::Backlink => 3,
    }
}

/// The edge kind stored under a code.
pub open spec fn kind_of_code(c: u8) -> EdgeKind {
    if c == 0 {
        EdgeKind::Parent
    } else if c == 1 {
        EdgeKind::Child
    } else if c == 2 {
        EdgeKind::Related
    } else {
        EdgeKind::Backlink
    }
}

fn edge_kind_code(k: EdgeKind) -> (r: u8)
    ensures
        r == kind_code(k),
{
    match k {
        EdgeKind::Parent => 0,
        EdgeKind::Child => 1,
        EdgeKind::Related => 2,
        EdgeKind::Backlink => 3,
    }
}

fn edge_kind_of(c: u8) -> (r: EdgeKind)
    ensures
        r == kind_of_code(c),
{
    if c == 0 {
        EdgeKind::Parent
    } else if c == 1 {
        EdgeKind::Child
    } else if c == 2 {
        EdgeKind::Related
    } else {
        EdgeKind::Backlink
    }
}

/// The views of a sequence of nodes.
pub open spec fn nodes_view(v: Seq<GraphNode>) -> Seq<GraphNodeView> {
    Seq::new(v.len(), |i: int| v[i]@)
}

/// The largest index holding page `id`, if any.
pub open spec fn last_index_of(ns: Seq<GraphNodeView>, id: u128) -> Option<int>
    decreases ns.len(),
{
    if ns.len() == 0 {
        None
    } else if ns.last().page_id == id {
        Some(ns.len() - 1)
    } else {
        last_index_of(ns.drop_last(), id)
    }
}

/// A found index holds the page, and is in range.
pub proof fn lemma_last_index_of(ns: Seq<GraphNodeView>, id: u128)
    ensures
        match last_index_of(ns, id) {
            Some(i) => 0 <= i < ns.len() && ns[i].page_id == id && forall|j: int|
                i < j < ns.len() ==> (#[trigger] ns[j]).page_id != id,
            None => forall|j: int| 0 <= j < ns.len() ==> (#[trigger] ns[j]).page_id != id,
        },
    decreases ns.len(),
{
    if ns.len() > 0 {
        lemma_last_index_of(ns.drop_last(), id);
        if ns.last().page_id != id {
            match last_index_of(ns.drop_last(), id) {
                Some(i) => {
                    assert forall|j: int| i < j < ns.len() implies (#[trigger] ns[j]).page_id
                        != id by {
                        if j < ns.len() - 1 {
                            assert(ns[j] == ns.drop_last()[j]);
                        }
                    }
                },
                None => {
                    assert forall|j: int| 0 <= j < ns.len() implies (#[trigger] ns[j]).page_id
                        != id by {
                        if j < ns.len() - 1 {
                            assert(ns[j] == ns.drop_last()[j]);
                        }
                    }
                },
            }
        }
    }
}

/// Replacing a node by one with the same page id keeps every id's last index.
pub proof fn lemma_update_keeps_ids(ns: Seq<GraphNodeView>, i: int, v: GraphNodeView)
    requires
        0 <= i < ns.len(),
    ensures
        v.page_id == ns[i].page_id ==> forall|id: u128|
            #[trigger] last_index_of(ns.update(i, v), id) == last_index_of(ns, id),
    decreases ns.len(),
{
    if v.page_id == ns[i].page_id {
        assert forall|id: u128| #[trigger] last_index_of(ns.update(i, v), id) == last_index_of(
            ns,
            id,
        ) by {
            if i < ns.len() - 1 {
                assert(ns.update(i, v).drop_last() =~= ns.drop_last().update(i, v));
                lemma_update_keeps_ids(ns.drop_last(), i, v);
                assert(last_index_of(ns.drop_last().update(i, v), id) == last_index_of(
                    ns.drop_last(),
                    id,
                ));
            } else {
                assert(ns.update(i, v).drop_last() =~= ns.drop_last());
            }
        }
    }
}

/// The smallest index whose node has this slug, if any.
pub open spec fn first_with_slug(ns: Seq<GraphNodeView>, slug: Seq<char>) -> Option<int>
    decreases ns.len(),
{
    if ns.len() == 0 {
        None
    } else if ns[0].slug == slug {
        Some(0)
    } else {
        match first_with_slug(ns.drop_first(), slug) {
            Some(i) => Some(i + 1),
            None => None,
        }
    }
}

/// A found index is the first holding the slug; `None` means no node has it.
pub proof fn lemma_first_with_slug(ns: Seq<GraphNodeView>, slug: Seq<char>)
    ensures
        match first_with_slug(ns, slug) {
            Some(i) => 0 <= i < ns.len() && ns[i].slug == slug && forall|j: int|
                0 <= j < i ==> (#[trigger] ns[j]).slug != slug,
            None => forall|j: int| 0 <= j < ns.len() ==> (#[trigger] ns[j]).slug != slug,
        },
    decreases ns.len(),
{
    if ns.len() > 0 && ns[0].slug != slug {
        lemma_first_with_slug(ns.drop_first(), slug);
        assert forall|j: int| 1 <= j < ns.len() implies ns[j] == ns.drop_first()[j - 1] by {}
    }
}

/// The first index with the slug is `k` when `k` holds it and no earlier one does.
pub proof fn lemma_first_with_slug_at(ns: Seq<GraphNodeView>, slug: Seq<char>, k: int)
    requires
        0 <= k < ns.len(),
        ns[k].slug == slug,
        forall|j: int| 0 <= j < k ==> (#[trigger] ns[j]).slug != slug,
    ensures
        first_with_slug(ns, slug) == Some(k),
{
    lemma_first_with_slug(ns, slug);
    match first_with_slug(ns, slug) {
        Some(i) => {
            if i < k {
                assert(ns[i].slug != slug);
            } else if i > k {
                assert(ns[k].slug != slug);
            }
        },
        None => {
            assert(ns[k].slug != slug);
        },
    }
}

/// The mathematical value of a [`KnowledgeGraph`]: its nodes by index and
/// its edges (source index, target index, kind code) by edge index.
pub struct GraphView {
    pub nodes: Seq<GraphNodeView>,
    pub edges: Seq<(u32, u32, u8)>,
}

/// Page graph with typed edges.
pub struct KnowledgeGraph {
    graph: Graph<u128, u8, Directed, u32>,
    nodes: Vec<GraphNode>,
    index_map: HashMap<u128, u32>,
}

impl View for KnowledgeGraph {
    type V = GraphView;

    closed spec fn view(&self) -> GraphView {
        GraphView { nodes: nodes_view(self.nodes@), edges: pg_edges(self.graph) }
    }
}

/// Every edge joins two existing nodes and carries a kind code.
pub open spec fn edges_in_range(es: Seq<(u32, u32, u8)>, n: nat) -> bool {
    forall|k: int|
        0 <= k < es.len() ==> ((#[trigger] es[k]).0 as int) < n && (es[k].1 as int) < n && es[k].2
            <= 3
}

/// Edges in range for `n` nodes stay in range for `n - 1` after a node's removal.
proof fn lemma_edges_without_node_in_range(es: Seq<(u32, u32, u8)>, a: u32, last: u32)
    requires
        edges_in_range(es, last as nat + 1),
        a <= last,
    ensures
        edges_in_range(edges_without_node(es, a, last), last as nat),
    decreases es.len(),
{
    if es.len() > 0 {
        assert(edges_in_range(es.drop_last(), last as nat + 1)) by {
            assert forall|k: int| 0 <= k < es.drop_last().len() implies ((
            #[trigger] es.drop_last()[k]).0 as int) < last as nat + 1 && (es.drop_last()[k].1 as int)
                < last as nat + 1 && es.drop_last()[k].2 <= 3 by {
                assert(es.drop_last()[k] == es[k]);
            }
        }
        lemma_edges_without_node_in_range(es.drop_last(), a, last);
        assert(es.last() == es[es.len() - 1]);
    }
}

/// Replacing item `e` by the last one and dropping the last removes one
/// occurrence of item `e`.
proof fn lemma_swap_remove_multiset<A>(es: Seq<A>, e: int)
    requires
        0 <= e < es.len(),
    ensures
        es.update(e, es.last()).drop_last().to_multiset() == es.to_multiset().remove(es[e]),
{
    broadcast use vstd::multiset::group_multiset_axioms;

    let n = es.len();
    let u = es.update(e, es.last());
    assert(u.drop_last() =~= u.remove(n - 1));
    vstd::seq_lib::to_multiset_remove(u, n - 1);
    if e == n - 1 {
        assert(u =~= es);
    } else {
        vstd::seq_lib::to_multiset_update(es, e, es.last());
        assert(u[n - 1] == es.last());
        assert(es.to_multiset().insert(es.last()).remove(es[e]).remove(es.last())
            =~= es.to_multiset().remove(es[e]));
    }
}

/// Edges of a multiset equal to one in range are in range.
proof fn lemma_in_range_by_multiset(es: Seq<(u32, u32, u8)>, fs: Seq<(u32, u32, u8)>, n: nat)
    requires
        edges_in_range(fs, n),
        es.to_multiset() == fs.to_multiset(),
    ensures
        edges_in_range(es, n),
{
    broadcast use vstd::seq_lib::group_to_multiset_ensures;

    assert forall|k: int| 0 <= k < es.len() implies ((#[trigger] es[k]).0 as int) < n && (
    es[k].1 as int) < n && es[k].2 <= 3 by {
        assert(es.contains(es[k]));
        assert(fs.to_multiset().contains(es[k]));
        assert(fs.contains(es[k]));
        let j = choose|j: int| 0 <= j < fs.len() && fs[j] == es[k];
    }
}

impl KnowledgeGraph {
    /// The graph's invariant: the structure has one node per stored page,
    /// whose weight is the page id; edges join existing nodes; the index
    /// map sends each id present to the last node holding it.
    pub closed spec fn wf(&self) -> bool {
        &&& pg_nodes(self.graph).len() == self.nodes@.len()
        &&& self.nodes@.len() <= 0xffff_ffff
        &&& forall|i: int|
            0 <= i < self.nodes@.len() ==> pg_nodes(self.graph)[i] == (
            #[trigger] self.nodes@[i]).page_id.0
        &&& edges_in_range(pg_edges(self.graph), self.nodes@.len())
        &&& forall|id: u128|
            #[trigger] self.index_map@.contains_key(id) <==> last_index_of(self@.nodes, id) is Some
        &&& forall|id: u128|
            #[trigger] self.index_map@.contains_key(id) ==> last_index_of(self@.nodes, id) == Some(
                self.index_map@[id] as int,
            )
    }

    /// An empty graph.
    pub fn new() -> (r: KnowledgeGraph)
        ensures
            r.wf(),
            r@.nodes.len() == 0,
            r@.edges.len() == 0,
    {
        let r = KnowledgeGraph { graph: pg_new(), nodes: Vec::new(), index_map: HashMap::new() };
        assert(r@.nodes =~= Seq::empty());
        r
    }

    /// The index of the last node holding page `id`.
    fn index_of(&self, id: &PageId) -> (r: Option<u32>)
        requires
            self.wf(),
        ensures
            match last_index_of(self@.nodes, id.0) {
                Some(i) => r is Some && r->0 as int == i && i < self.nodes@.len(),
                None => r is None,
            },
    {
        proof {
            lemma_last_index_of(self@.nodes, id.0);
        }
        match self.index_map.get(&id.0) {
            Some(i) => Some(*i),
            None => None,
        }
    }

    /// Adds a node for a page and returns its index.
    pub fn add_node(&mut self, node: GraphNode) -> (r: u32)
        requires
            old(self).wf(),
            old(self)@.nodes.len() < 0xffff_ffff,
        ensures
            final(self).wf(),
            final(self)@.nodes == old(self)@.nodes.push(node@),
            final(self)@.edges == old(self)@.edges,
            r as int == old(self)@.nodes.len(),
    {
        let id = node.page_id.0;
        let idx = pg_add_node(&mut self.graph, id);
        let ghost before = self@.nodes;
        self.nodes.push(node);
        assert(self@.nodes =~= before.push(node@));
        assert(self@.nodes.drop_last() =~= before);
        self.index_map.insert(id, idx);
        assert forall|i: int| 0 <= i < self.nodes@.len() implies pg_nodes(self.graph)[i] == (
        #[trigger] self.nodes@[i]).page_id.0 by {}
        idx
    }

    /// Rebuilds the index map from the nodes, in index order.
    fn rebuild_index(&mut self)
        requires
            pg_nodes(old(self).graph).len() == old(self).nodes@.len(),
            forall|i: int|
                0 <= i < old(self).nodes@.len() ==> pg_nodes(old(self).graph)[i] == (
                #[trigger] old(self).nodes@[i]).page_id.0,
            edges_in_range(pg_edges(old(self).graph), old(self).nodes@.len()),
            old(self).nodes@.len() <= 0xffff_ffff,
        ensures
            final(self).wf(),
            final(self)@ == old(self)@,
            final(self).nodes == old(self).nodes,
            final(self).graph == old(self).graph,
    {
        self.index_map.clear();
        let n = self.nodes.len();
        for i in 0..n
            invariant
                n == self.nodes@.len(),
                n <= 0xffff_ffff,
                self.nodes == old(self).nodes,
                self.graph == old(self).graph,
                forall|id: u128|
                    #[trigger] self.index_map@.contains_key(id) <==> last_index_of(
                        self@.nodes.take(i as int),
                        id,
                    ) is Some,
                forall|id: u128|
                    #[trigger] self.index_map@.contains_key(id) ==> last_index_of(
                        self@.nodes.take(i as int),
                        id,
                    ) == Some(self.index_map@[id] as int),
        {
            let id = self.nodes[i].page_id.0;
            self.index_map.insert(id, i as u32);
            assert(self@.nodes.take(i + 1).drop_last() =~= self@.nodes.take(i as int));
            assert(self@.nodes.take(i + 1).last() == self@.nodes[i as int]);
        }
        assert(self@.nodes.take(n as int) =~= self@.nodes);
    }

    /// Removes the last node holding page `page_id`, with its edges; the last
    /// node takes its index. Nothing happens when no node holds it.
    pub fn remove_node(&mut self, page_id: &PageId)
        requires
            old(self).wf(),
        ensures
            final(self).wf(),
            match last_index_of(old(self)@.nodes, page_id.0) {
                None => final(self)@ == old(self)@,
                Some(i) => {
                    &&& final(self)@.nodes == old(self)@.nodes.update(
                        i,
                        old(self)@.nodes.last(),
                    ).drop_last()
                    &&& final(self)@.edges.to_multiset() == edges_without_node(
                        old(self)@.edges,
                        i as u32,
                        (old(self)@.nodes.len() - 1) as u32,
                    ).to_multiset()
                },
            },
    {
        match self.index_of(page_id) {
            None => {},
            Some(idx) => {
                self.index_map.remove(&page_id.0);
                let ghost old_edges = pg_edges(self.graph);
                let ghost n = self.nodes@.len();
                pg_remove_node(&mut self.graph, idx);
                let ghost before = self.nodes@;
                self.nodes.swap_remove(idx as usize);
                assert(self@.nodes =~= nodes_view(before).update(
                    idx as int,
                    nodes_view(before).last(),
                ).drop_last());
                proof {
                    lemma_edges_without_node_in_range(old_edges, idx, (n - 1) as u32);
                    lemma_in_range_by_multiset(
                        pg_edges(self.graph),
                        edges_without_node(old_edges, idx, (n - 1) as u32),
                        (n - 1) as nat,
                    );
                }
                assert forall|i: int| 0 <= i < self.nodes@.len() implies pg_nodes(self.graph)[i]
                    == (#[trigger] self.nodes@[i]).page_id.0 by {
                    if i == idx {
                        assert(self.nodes@[i] == before.last());
                    } else {
                        assert(self.nodes@[i] == before[i]);
                    }
                }
                self.rebuild_index();
            },
        }
    }

    /// Adds an edge `source -> target` when both pages have nodes; otherwise
    /// nothing happens.
    pub fn add_edge(&mut self, source: &PageId, target: &PageId, kind: EdgeKind)
        requires
            old(self).wf(),
            old(self)@.edges.len() < 0xffff_ffff,
        ensures
            final(self).wf(),
            final(self)@.nodes == old(self)@.nodes,
            match (last_index_of(old(self)@.nodes, source.0), last_index_of(old(self)@.nodes, target.0)) {
                (Some(s), Some(t)) => final(self)@.edges == old(self)@.edges.push(
                    (s as u32, t as u32, kind_code(kind)),
                ),
                _ => final(self)@.edges == old(self)@.edges,
            },
    {
        match (self.index_of(source), self.index_of(target)) {
            (Some(s), Some(t)) => {
                let code = edge_kind_code(kind);
                pg_add_edge(&mut self.graph, s, t, code);
                assert(edges_in_range(pg_edges(self.graph), self.nodes@.len())) by {
                    assert forall|k: int| 0 <= k < pg_edges(self.graph).len() implies ((
                    #[trigger] pg_edges(self.graph)[k]).0 as int) < self.nodes@.len() && (pg_edges(
                        self.graph,
                    )[k].1 as int) < self.nodes@.len() && pg_edges(self.graph)[k].2 <= 3 by {}
                }
            },
            _ => {},
        }
    }

    /// Removes one edge `source -> target` when there is one; otherwise
    /// nothing happens. Which of several parallel edges goes is not stated.
    pub fn remove_edge(&mut self, source: &PageId, target: &PageId)
        requires
            old(self).wf(),
        ensures
            final(self).wf(),
            final(self)@.nodes == old(self)@.nodes,
            match (last_index_of(old(self)@.nodes, source.0), last_index_of(old(self)@.nodes, target.0)) {
                (Some(s), Some(t)) => if exists|k: u8| #[trigger] old(self)@.edges.contains((s as u32, t as u32, k)) {
                    exists|k: u8|
                        #[trigger] old(self)@.edges.contains((s as u32, t as u32, k)) && final(self)@.edges.to_multiset()
                            == old(self)@.edges.to_multiset().remove((s as u32, t as u32, k))
                } else {
                    final(self)@.edges == old(self)@.edges
                },
                _ => final(self)@.edges == old(self)@.edges,
            },
    {
        broadcast use vstd::seq_lib::group_to_multiset_ensures;

        match (self.index_of(source), self.index_of(target)) {
            (Some(s), Some(t)) => {
                match pg_find_edge(&self.graph, s, t) {
                    Some(e) => {
                        let ghost es = pg_edges(self.graph);
                        pg_remove_edge(&mut self.graph, e);
                        proof {
                            let k = es[e as int].2;
                            assert(es[e as int] == (s, t, k));
                            assert(es.contains((s, t, k)));
                            assert(old(self)@.edges.contains((s, t, k)));
                            assert(exists|k3: u8| #[trigger] old(self)@.edges.contains((s, t, k3)));
                            lemma_swap_remove_multiset(es, e as int);
                            assert(pg_edges(self.graph).to_multiset() == es.to_multiset().remove(
                                (s, t, k),
                            ));
                            assert(exists|k2: u8|
                                #[trigger] es.contains((s, t, k2))
                                    && pg_edges(self.graph).to_multiset() == es.to_multiset().remove(
                                    (s, t, k2),
                                ));
                            assert(edges_in_range(pg_edges(self.graph), self.nodes@.len())) by {
                                assert forall|j: int| 0 <= j < pg_edges(self.graph).len() implies ((
                                #[trigger] pg_edges(self.graph)[j]).0 as int) < self.nodes@.len()
                                    && (pg_edges(self.graph)[j].1 as int) < self.nodes@.len()
                                    && pg_edges(self.graph)[j].2 <= 3 by {
                                    if j == e {
                                        assert(pg_edges(self.graph)[j] == es[es.len() - 1]);
                                    } else {
                                        assert(pg_edges(self.graph)[j] == es[j]);
                                    }
                                }
                            }
                        }
                    },
                    None => {
                        assert forall|k: u8| !(#[trigger] old(self)@.edges.contains((s, t, k))) by {
                            if old(self)@.edges.contains((s, t, k)) {
                                let j = choose|j: int| 0 <= j < old(self)@.edges.len() && old(self)@.edges[j] == (s, t, k);
                                assert(pg_edges(self.graph)[j].0 == s);
                            }
                        }
                    },
                }
            },
            _ => {},
        }
    }

    /// The node of page `page_id` (the last one holding it).
    pub fn get_node(&self, page_id: &PageId) -> (r: Option<&GraphNode>)
        requires
            self.wf(),
        ensures
            match last_index_of(self@.nodes, page_id.0) {
                Some(i) => r is Some && r->0@ == self@.nodes[i],
                None => r is None,
            },
    {
        match self.index_of(page_id) {
            Some(i) => Some(&self.nodes[i as usize]),
            None => None,
        }
    }

    /// Mutable access to the node of page `page_id` (the last one holding
    /// it). The graph keeps its invariant as long as the page id is left
    /// unchanged.
    pub fn get_node_mut(&mut self, page_id: &PageId) -> (r: Option<&mut GraphNode>)
        requires
            old(self).wf(),
        ensures
            final(self)@.edges == old(self)@.edges,
            match last_index_of(old(self)@.nodes, page_id.0) {
                Some(i) => {
                    &&& r is Some
                    &&& (*r->0)@ == old(self)@.nodes[i]
                    &&& final(self)@.nodes == old(self)@.nodes.update(i, (*final(r->0))@)
                    &&& (*final(r->0)).page_id == *page_id ==> final(self).wf()
                },
                None => r is None && final(self)@ == old(self)@ && final(self).wf(),
            },
    {
        match self.index_of(page_id) {
            Some(i) => {
                let ghost ns = self@.nodes;
                let ghost raw = self.nodes@;
                let r = &mut self.nodes[i as usize];
                proof {
                    lemma_last_index_of(ns, page_id.0);
                    let v = *final(r);
                    if v.page_id == *page_id {
                        assert forall|j: int| 0 <= j < raw.len() implies pg_nodes(self.graph)[j]
                            == (#[trigger] raw.update(i as int, v)[j]).page_id.0 by {
                            if j != i {
                                assert(raw.update(i as int, v)[j] == raw[j]);
                            }
                        }
                    }
                    lemma_update_keeps_ids(ns, i as int, (*final(r))@);
                    assert(nodes_view(raw.update(i as int, *final(r))) =~= ns.update(
                        i as int,
                        (*final(r))@,
                    ));
                }
                Some(r)
            },
            None => None,
        }
    }

    /// The number of nodes.
    pub fn node_count(&self) -> (r: usize)
        requires
            self.wf(),
        ensures
            r == self@.nodes.len(),
    {
        self.nodes.len()
    }

    /// The number of edges.
    pub fn edge_count(&self) -> (r: usize)
        requires
            self.wf(),
        ensures
            r == self@.edges.len(),
    {
        pg_edge_count(&self.graph)
    }

    /// Whether some node holds page `page_id`.
    pub fn has_node(&self, page_id: &PageId) -> (r: bool)
        requires
            self.wf(),
        ensures
            r == (last_index_of(self@.nodes, page_id.0) is Some),
    {
        proof {
            lemma_last_index_of(self@.nodes, page_id.0);
        }
        self.index_map.contains_key(&page_id.0)
    }
}

/// Calls `Graph::edge_count`: the number of edges.
#[verifier::external_body]
fn pg_edge_count(g: &Graph<u128, u8, Directed, u32>) -> (r: usize)
    ensures
        r == pg_edges(*g).len(),
{
    g.edge_count()
}

// ---------------------------------------------------------------------------
// Containment: ancestors and inherited access
// ---------------------------------------------------------------------------

/// The containment walk upward: starting at parent `cur`, each step moves to
/// the first node with that slug and on to its parent. It stops at a root,
/// at a slug already seen (`visited`), at a slug no node has, or when the
/// fuel runs out.
pub open spec fn walk(
    ns: Seq<GraphNodeView>,
    cur: Option<Seq<char>>,
    visited: Seq<Seq<char>>,
    fuel: nat,
) -> Seq<Seq<char>>
    decreases fuel,
{
    if fuel == 0 {
        Seq::empty()
    } else {
        match cur {
            None => Seq::empty(),
            Some(p) => if visited.contains(p) {
                Seq::empty()
            } else {
                match first_with_slug(ns, p) {
                    None => Seq::empty(),
                    Some(i) => seq![p] + walk(ns, ns[i].parent, visited.push(p), (fuel - 1) as nat),
                }
            },
        }
    }
}

/// The slugs of the containment ancestors of node `i`, nearest first. The
/// fuel (the number of nodes) is never the reason the walk stops.
pub open spec fn spec_ancestors(ns: Seq<GraphNodeView>, i: int) -> Seq<Seq<char>> {
    walk(ns, ns[i].parent, seq![ns[i].slug], ns.len())
}

/// The ancestors of page `id` (through the last node holding it).
pub open spec fn ancestors_of(g: GraphView, id: u128) -> Seq<Seq<char>> {
    match last_index_of(g.nodes, id) {
        Some(i) => spec_ancestors(g.nodes, i),
        None => Seq::empty(),
    }
}

/// The slugs of the nodes, by index.
pub open spec fn node_slugs(ns: Seq<GraphNodeView>) -> Seq<Seq<char>> {
    Seq::new(ns.len(), |i: int| ns[i].slug)
}

/// A list of distinct slugs, each held by some node, is no longer than the
/// list of nodes.
proof fn lemma_distinct_slugs_bound(vs: Seq<Seq<char>>, ns: Seq<GraphNodeView>)
    requires
        vs.no_duplicates(),
        forall|k: int| 0 <= k < vs.len() ==> node_slugs(ns).contains(#[trigger] vs[k]),
    ensures
        vs.len() <= ns.len(),
{
    vs.unique_seq_to_set();
    node_slugs(ns).lemma_cardinality_of_set();
    assert(vs.to_set().subset_of(node_slugs(ns).to_set())) by {
        assert forall|x: Seq<char>| vs.to_set().contains(x) implies node_slugs(ns).to_set().contains(
            x,
        ) by {
            let k = choose|k: int| 0 <= k < vs.len() && vs[k] == x;
            assert(node_slugs(ns).contains(vs[k]));
        }
    }
    vstd::set_lib::lemma_len_subset(vs.to_set(), node_slugs(ns).to_set());
}

/// The index of the first grant to principal `p`, if any.
pub open spec fn first_grant_for(gs: Seq<GrantView>, p: PrincipalView) -> Option<int>
    decreases gs.len(),
{
    if gs.len() == 0 {
        None
    } else if gs[0].principal == p {
        Some(0)
    } else {
        match first_grant_for(gs.drop_first(), p) {
            Some(i) => Some(i + 1),
            None => None,
        }
    }
}

/// A found grant index is the first for the principal; `None` means there
/// is no grant to it.
pub proof fn lemma_first_grant_for(gs: Seq<GrantView>, p: PrincipalView)
    ensures
        match first_grant_for(gs, p) {
            Some(i) => 0 <= i < gs.len() && gs[i].principal == p && forall|j: int|
                0 <= j < i ==> (#[trigger] gs[j]).principal != p,
            None => forall|j: int| 0 <= j < gs.len() ==> (#[trigger] gs[j]).principal != p,
        },
    decreases gs.len(),
{
    if gs.len() > 0 && gs[0].principal != p {
        lemma_first_grant_for(gs.drop_first(), p);
        assert forall|j: int| 1 <= j < gs.len() implies gs[j] == gs.drop_first()[j - 1] by {}
    }
}

/// The first grant to `p` is at `k` when `k` holds one and no earlier grant does.
pub proof fn lemma_first_grant_for_at(gs: Seq<GrantView>, p: PrincipalView, k: int)
    requires
        0 <= k < gs.len(),
        gs[k].principal == p,
        forall|j: int| 0 <= j < k ==> (#[trigger] gs[j]).principal != p,
    ensures
        first_grant_for(gs, p) == Some(k),
{
    lemma_first_grant_for(gs, p);
    match first_grant_for(gs, p) {
        Some(i) => {
            if i < k {
                assert(gs[i].principal != p);
            } else if i > k {
                assert(gs[k].principal != p);
            }
        },
        None => {
            assert(gs[k].principal != p);
        },
    }
}

/// Merges a grant into a list: a principal already present keeps its place
/// and gets the higher of the two levels; a new principal is appended.
pub open spec fn union_grant(gs: Seq<GrantView>, g: GrantView) -> Seq<GrantView> {
    match first_grant_for(gs, g.principal) {
        Some(i) => gs.update(
            i,
            GrantView { principal: gs[i].principal, level: level_max(gs[i].level, g.level) },
        ),
        None => gs.push(g),
    }
}

/// Merges each incoming grant in turn.
pub open spec fn union_all(gs: Seq<GrantView>, incoming: Seq<GrantView>) -> Seq<GrantView>
    decreases incoming.len(),
{
    if incoming.len() == 0 {
        gs
    } else {
        union_grant(union_all(gs, incoming.drop_last()), incoming.last())
    }
}

/// The grants of the ancestors named in `chain`, nearest first.
pub open spec fn inherited_grants(ns: Seq<GraphNodeView>, chain: Seq<Seq<char>>) -> Seq<GrantView>
    decreases chain.len(),
{
    if chain.len() == 0 {
        Seq::empty()
    } else {
        inherited_grants(ns, chain.drop_last()) + match first_with_slug(ns, chain.last()) {
            Some(i) => ns[i].access.grants,
            None => Seq::empty(),
        }
    }
}

/// The effective access of node `i`: owner and base visibility of the node
/// itself, and its grants with those of all its ancestors merged in.
pub open spec fn spec_effective_access(ns: Seq<GraphNodeView>, i: int) -> AccessView {
    AccessView {
        owner: ns[i].access.owner,
        base_visibility: ns[i].access.base_visibility,
        grants: union_all(ns[i].access.grants, inherited_grants(ns, spec_ancestors(ns, i))),
    }
}

/// The effective access of page `id` (through the last node holding it).
pub open spec fn effective_access_of(g: GraphView, id: u128) -> Option<AccessView> {
    match last_index_of(g.nodes, id) {
        Some(i) => Some(spec_effective_access(g.nodes, i)),
        None => None,
    }
}

/// Whether a caller sees node `n`: by its effective access when its page is
/// in the graph, by its own access otherwise.
#[verifier::opaque]
pub open spec fn node_visible(g: GraphView, c: ContextView, n: GraphNodeView) -> bool {
    match effective_access_of(g, n.page_id) {
        Some(a) => spec_can_see_page(c, a),
        None => spec_can_see_page(c, n.access),
    }
}

/// Whether a list of slugs holds `s`.
fn slugs_contain(v: &Vec<Slug>, s: &Slug) -> (r: bool)
    ensures
        r == slugs_view(v@).contains(s@),
{
    let n = v.len();
    for i in 0..n
        invariant
            n == v@.len(),
            forall|j: int| 0 <= j < i ==> slugs_view(v@)[j] != s@,
    {
        if v[i].same_as(s) {
            assert(slugs_view(v@)[i as int] == s@);
            return true;
        }
    }
    false
}

/// Merges `incoming` into `grants` (see [`union_grant`]).
pub fn merge_grant(grants: &mut Vec<Grant>, incoming: Grant)
    ensures
        grants_view(final(grants)@) == union_grant(grants_view(old(grants)@), incoming@),
{
    let n = grants.len();
    proof {
        lemma_first_grant_for(grants_view(grants@), incoming@.principal);
    }
    for i in 0..n
        invariant
            n == grants@.len(),
            grants@ == old(grants)@,
            forall|j: int|
                0 <= j < i ==> (#[trigger] grants_view(grants@)[j]).principal
                    != incoming@.principal,
    {
        assert(grants_view(grants@)[i as int] == grants@[i as int]@);
        if grants[i].principal.same_as(&incoming.principal) {
            let ghost before = grants_view(grants@);
            let level = Level::max_of(grants[i].level, incoming.level);
            let p = grants[i].principal.duplicate();
            grants.set(i, Grant { principal: p, level });
            proof {
                lemma_first_grant_for_at(before, incoming@.principal, i as int);
                assert(grants_view(grants@) =~= union_grant(before, incoming@));
            }
            return;
        }
    }
    let ghost before = grants_view(grants@);
    grants.push(incoming);
    assert(grants_view(grants@) =~= before.push(incoming@));
}

impl KnowledgeGraph {
    /// The index of the first node with this slug.
    fn slug_index(&self, slug: &Slug) -> (r: Option<usize>)
        requires
            self.wf(),
        ensures
            match first_with_slug(self@.nodes, slug@) {
                Some(i) => r is Some && r->0 as int == i && i < self@.nodes.len(),
                None => r is None,
            },
    {
        let n = self.nodes.len();
        for i in 0..n
            invariant
                n == self.nodes@.len(),
                forall|j: int| 0 <= j < i ==> (#[trigger] self@.nodes[j]).slug != slug@,
        {
            if self.nodes[i].slug.same_as(slug) {
                proof {
                    lemma_first_with_slug_at(self@.nodes, slug@, i as int);
                }
                return Some(i);
            }
        }
        proof {
            lemma_first_with_slug(self@.nodes, slug@);
        }
        None
    }

    /// The first node with this slug, whoever asks.
    fn node_by_slug_unfiltered(&self, slug: &Slug) -> (r: Option<&GraphNode>)
        requires
            self.wf(),
        ensures
            match first_with_slug(self@.nodes, slug@) {
                Some(i) => r is Some && r->0@ == self@.nodes[i],
                None => r is None,
            },
    {
        match self.slug_index(slug) {
            Some(i) => Some(&self.nodes[i]),
            None => None,
        }
    }

    /// The slugs of the containment ancestors of page `page_id`, nearest
    /// parent first. The walk stops at a root, at a parent missing from the
    /// graph, or at the first repeated slug, so a malformed store with a
    /// cycle cannot make it loop.
    pub fn ancestor_slugs(&self, page_id: &PageId) -> (r: Vec<Slug>)
        requires
            self.wf(),
        ensures
            slugs_view(r@) == ancestors_of(self@, page_id.0),
            slugs_view(r@).no_duplicates(),
            match last_index_of(self@.nodes, page_id.0) {
                None => r@.len() == 0,
                Some(i) => {
                    &&& !slugs_view(r@).contains(self@.nodes[i].slug)
                    &&& r@.len() < self@.nodes.len()
                    &&& forall|j: int|
                        0 <= j < r@.len() ==> exists|k: int|
                            0 <= k < self@.nodes.len() && self@.nodes[k].slug == #[trigger] slugs_view(r@)[j]
                },
            },
    {
        let r = self.ancestor_slugs_walk(page_id);
        proof {
            lemma_last_index_of(self@.nodes, page_id.0);
            let sv = slugs_view(r@);
            assert(sv.len() == r@.len());
            match last_index_of(self@.nodes, page_id.0) {
                Some(i) => {
                    lemma_ancestors_distinct(self@.nodes, i);
                    lemma_ancestors_are_nodes(self@.nodes, i);
                    assert(sv == spec_ancestors(self@.nodes, i));
                    assert forall|j: int| 0 <= j < r@.len() implies exists|k: int|
                        0 <= k < self@.nodes.len() && self@.nodes[k].slug == #[trigger] slugs_view(r@)[j] by {
                        assert(slugs_view(r@)[j] == spec_ancestors(self@.nodes, i)[j]);
                    }
                },
                None => {
                    assert(sv.len() == 0);
                },
            }
        }
        r
    }

    fn ancestor_slugs_walk(&self, page_id: &PageId) -> (r: Vec<Slug>)
        requires
            self.wf(),
        ensures
            slugs_view(r@) == ancestors_of(self@, page_id.0),
    {
        let ghost ns = self@.nodes;
        let idx = match self.index_of(page_id) {
            None => {
                let r: Vec<Slug> = Vec::new();
                assert(slugs_view(r@) =~= Seq::empty());
                return r;
            },
            Some(i) => i as usize,
        };
        let start = &self.nodes[idx];
        let mut chain: Vec<Slug> = Vec::new();
        let mut visited: Vec<Slug> = Vec::new();
        visited.push(start.slug.duplicate());
        let mut current_parent = duplicate_opt_slug(&start.parent);
        proof {
            assert(slugs_view(visited@) =~= seq![ns[idx as int].slug]);
            assert(slugs_view(chain@) =~= Seq::empty());
            assert(node_slugs(ns)[idx as int] == ns[idx as int].slug);
            assert(ns.len() >= 1);
            assert(spec_ancestors(ns, idx as int) =~= slugs_view(chain@) + walk(
                ns,
                opt_slug_view(current_parent),
                slugs_view(visited@),
                (ns.len() - chain@.len()) as nat,
            ));
        }
        loop
            invariant
                self.wf(),
                ns == self@.nodes,
                0 <= idx < ns.len(),
                slugs_view(visited@) == seq![ns[idx as int].slug] + slugs_view(chain@),
                slugs_view(visited@).no_duplicates(),
                visited@.len() == chain@.len() + 1,
                forall|k: int|
                    0 <= k < visited@.len() ==> node_slugs(ns).contains(
                        #[trigger] slugs_view(visited@)[k],
                    ),
                visited@.len() <= ns.len(),
                spec_ancestors(ns, idx as int) == slugs_view(chain@) + walk(
                    ns,
                    opt_slug_view(current_parent),
                    slugs_view(visited@),
                    (ns.len() - chain@.len()) as nat,
                ),
            ensures
                spec_ancestors(ns, idx as int) == slugs_view(chain@),
            decreases ns.len() - chain@.len(),
        {
            let fuel: Ghost<nat> = Ghost((ns.len() - chain@.len()) as nat);
            assert(fuel@ > 0);
            match current_parent {
                None => {
                    assert(walk(ns, None, slugs_view(visited@), fuel@) == Seq::<Seq<char>>::empty());
                    assert(slugs_view(chain@) + Seq::empty() =~= slugs_view(chain@));
                    break ;
                },
                Some(p) => {
                    if slugs_contain(&visited, &p) {
                        assert(walk(ns, Some(p@), slugs_view(visited@), fuel@) == Seq::<
                            Seq<char>,
                        >::empty());
                        assert(slugs_view(chain@) + Seq::empty() =~= slugs_view(chain@));
                        break ;
                    }
                    match self.slug_index(&p) {
                        None => {
                            assert(walk(ns, Some(p@), slugs_view(visited@), fuel@) == Seq::<
                                Seq<char>,
                            >::empty());
                            assert(slugs_view(chain@) + Seq::empty() =~= slugs_view(chain@));
                            break ;
                        },
                        Some(j) => {
                            proof {
                                lemma_first_with_slug(ns, p@);
                            }
                            let ghost old_visited = slugs_view(visited@);
                            let ghost old_chain = slugs_view(chain@);
                            visited.push(p.duplicate());
                            chain.push(p);
                            current_parent = duplicate_opt_slug(&self.nodes[j].parent);
                            proof {
                                assert(slugs_view(visited@) =~= old_visited.push(p@));
                                assert(slugs_view(chain@) =~= old_chain.push(p@));
                                assert(node_slugs(ns)[j as int] == p@);
                                assert forall|k: int|
                                    0 <= k < visited@.len() implies node_slugs(ns).contains(
                                    #[trigger] slugs_view(visited@)[k],
                                ) by {
                                    if k < visited@.len() - 1 {
                                        assert(slugs_view(visited@)[k] == old_visited[k]);
                                    }
                                }
                                assert(slugs_view(visited@).no_duplicates()) by {
                                    assert forall|a: int, b: int|
                                        0 <= a < b < visited@.len() implies slugs_view(visited@)[a]
                                        != slugs_view(visited@)[b] by {
                                        if b == visited@.len() - 1 {
                                            assert(slugs_view(visited@)[a] == old_visited[a]);
                                            assert(old_visited.contains(old_visited[a]));
                                        } else {
                                            assert(slugs_view(visited@)[a] == old_visited[a]);
                                            assert(slugs_view(visited@)[b] == old_visited[b]);
                                        }
                                    }
                                }
                                lemma_distinct_slugs_bound(slugs_view(visited@), ns);
                                assert(slugs_view(visited@) == seq![ns[idx as int].slug]
                                    + slugs_view(chain@));
                                assert(old_chain + (seq![p@] + walk(
                                    ns,
                                    opt_slug_view(current_parent),
                                    slugs_view(visited@),
                                    (fuel@ - 1) as nat,
                                )) =~= slugs_view(chain@) + walk(
                                    ns,
                                    opt_slug_view(current_parent),
                                    slugs_view(visited@),
                                    (ns.len() - chain@.len()) as nat,
                                ));
                            }
                        },
                    }
                },
            }
        }
        chain
    }

    /// The effective access of page `page_id`: its own owner and base
    /// visibility, with the grants of all its containment ancestors merged
    /// into its own (a principal present in both keeps the higher level).
    pub fn effective_access(&self, page_id: &PageId) -> (r: Option<PageAccess>)
        requires
            self.wf(),
        ensures
            match effective_access_of(self@, page_id.0) {
                Some(a) => r is Some && r->0@ == a,
                None => r is None,
            },
    {
        let node = match self.get_node(page_id) {
            None => return None,
            Some(n) => n,
        };
        let ghost ns = self@.nodes;
        let ghost i = last_index_of(ns, page_id.0)->0;
        let mut effective = node.access.duplicate();
        let ancestors = self.ancestor_slugs(page_id);
        let ghost chain = slugs_view(ancestors@);
        let n = ancestors.len();
        for k in 0..n
            invariant
                self.wf(),
                ns == self@.nodes,
                n == ancestors@.len(),
                chain == slugs_view(ancestors@),
                effective@.owner == ns[i].access.owner,
                effective@.base_visibility == ns[i].access.base_visibility,
                effective@.grants == union_all(
                    ns[i].access.grants,
                    inherited_grants(ns, chain.take(k as int)),
                ),
        {
            assert(chain.take(k + 1).drop_last() =~= chain.take(k as int));
            assert(chain.take(k + 1).last() == ancestors@[k as int]@);
            match self.node_by_slug_unfiltered(&ancestors[k]) {
                Some(ancestor) => {
                    let gs = &ancestor.access.grants;
                    let m = gs.len();
                    let ghost base = effective@.grants;
                    for q in 0..m
                        invariant
                            m == gs@.len(),
                            effective@.owner == ns[i].access.owner,
                            effective@.base_visibility == ns[i].access.base_visibility,
                            effective@.grants == union_all(base, grants_view(gs@).take(q as int)),
                    {
                        let g = gs[q].duplicate();
                        merge_grant(&mut effective.grants, g);
                        assert(grants_view(gs@).take(q + 1).drop_last() =~= grants_view(gs@).take(
                            q as int,
                        ));
                    }
                    assert(grants_view(gs@).take(m as int) =~= grants_view(gs@));
                    proof {
                        lemma_union_all_append(
                            ns[i].access.grants,
                            inherited_grants(ns, chain.take(k as int)),
                            grants_view(gs@),
                        );
                    }
                },
                None => {
                    assert(inherited_grants(ns, chain.take(k + 1)) =~= inherited_grants(
                        ns,
                        chain.take(k as int),
                    ));
                },
            }
        }
        assert(chain.take(n as int) =~= chain);
        Some(effective)
    }

    /// The effective access of the first page with this slug.
    pub fn effective_access_by_slug(&self, slug: &Slug) -> (r: Option<PageAccess>)
        requires
            self.wf(),
        ensures
            match first_with_slug(self@.nodes, slug@) {
                Some(i) => match effective_access_of(self@, self@.nodes[i].page_id) {
                    Some(a) => r is Some && r->0@ == a,
                    None => r is None,
                },
                None => r is None,
            },
    {
        match self.node_by_slug_unfiltered(slug) {
            Some(n) => {
                let id = n.page_id;
                self.effective_access(&id)
            },
            None => None,
        }
    }

    /// Whether `ctx` sees node `node`, taking inherited grants into account.
    fn can_see_node(&self, node: &GraphNode, ctx: &TenantContext) -> (r: bool)
        requires
            self.wf(),
        ensures
            r == node_visible(self@, ctx@, node@),
    {
        proof {
            reveal(node_visible);
        }
        match self.effective_access(&node.page_id) {
            Some(access) => ctx.can_see_page(&access),
            None => ctx.can_see_page(&node.access),
        }
    }

    /// Whether making `parent` the container of `child` would create a
    /// cycle: `parent` is `child` itself, or `child` is already among the
    /// ancestors of the first page with slug `parent`.
    pub fn would_create_cycle(&self, child: &Slug, parent: &Slug) -> (r: bool)
        requires
            self.wf(),
        ensures
            r == creates_cycle(self@, child@, parent@),
    {
        if child.same_as(parent) {
            return true;
        }
        let parent_node = match self.node_by_slug_unfiltered(parent) {
            None => return false,
            Some(n) => n,
        };
        let id = parent_node.page_id;
        let chain = self.ancestor_slugs(&id);
        slugs_contain(&chain, child)
    }
}

/// Whether making `parent` the container of `child` would close a cycle:
/// `parent` is `child`, or `child` is among the ancestors of the first page
/// with slug `parent`.
pub open spec fn creates_cycle(g: GraphView, child: Seq<char>, parent: Seq<char>) -> bool {
    child == parent || match first_with_slug(g.nodes, parent) {
        Some(i) => ancestors_of(g, g.nodes[i].page_id).contains(child),
        None => false,
    }
}

/// The untenanted global context sees every node, so its first visible
/// node with a slug is the first node with it.
pub proof fn lemma_global_first_with_slug(g: GraphView, ns: Seq<GraphNodeView>, slug: Seq<char>)
    ensures
        first_visible_with_slug(g, global_view(), ns, slug) == first_with_slug(ns, slug),
    decreases ns.len(),
{
    reveal(node_visible);
    if ns.len() > 0 {
        lemma_global_first_with_slug(g, ns.drop_first(), slug);
    }
}

/// Merging the grants of `more` after those of `inc` is merging `inc + more`.
pub proof fn lemma_union_all_append(gs: Seq<GrantView>, inc: Seq<GrantView>, more: Seq<GrantView>)
    ensures
        union_all(union_all(gs, inc), more) == union_all(gs, inc + more),
    decreases more.len(),
{
    if more.len() == 0 {
        assert(inc + more =~= inc);
    } else {
        lemma_union_all_append(gs, inc, more.drop_last());
        assert((inc + more).drop_last() =~= inc + more.drop_last());
        assert((inc + more).last() == more.last());
    }
}

// ---------------------------------------------------------------------------
// Listing and lookup, filtered by what the caller may see
// ---------------------------------------------------------------------------

/// The nodes of `ns` the caller sees, in order; with `index_only`, only the
/// `Index` pages among them.
pub open spec fn listed(g: GraphView, c: ContextView, ns: Seq<GraphNodeView>, index_only: bool) -> Seq<
    GraphNodeView,
>
    decreases ns.len(),
{
    if ns.len() == 0 {
        Seq::empty()
    } else {
        let rest = listed(g, c, ns.drop_last(), index_only);
        let n = ns.last();
        if (!index_only || n.page_type == PageType::Index) && node_visible(g, c, n) {
            rest.push(n)
        } else {
            rest
        }
    }
}

/// The index of the first node of `ns` with this slug that the caller sees.
pub open spec fn first_visible_with_slug(
    g: GraphView,
    c: ContextView,
    ns: Seq<GraphNodeView>,
    slug: Seq<char>,
) -> Option<int>
    decreases ns.len(),
{
    if ns.len() == 0 {
        None
    } else if ns[0].slug == slug && node_visible(g, c, ns[0]) {
        Some(0)
    } else {
        match first_visible_with_slug(g, c, ns.drop_first(), slug) {
            Some(i) => Some(i + 1),
            None => None,
        }
    }
}

/// A found index holds a visible node with the slug and no earlier one
/// does; `None` means no visible node has it.
pub proof fn lemma_first_visible_with_slug(
    g: GraphView,
    c: ContextView,
    ns: Seq<GraphNodeView>,
    slug: Seq<char>,
)
    ensures
        match first_visible_with_slug(g, c, ns, slug) {
            Some(i) => 0 <= i < ns.len() && ns[i].slug == slug && node_visible(g, c, ns[i])
                && forall|j: int|
                0 <= j < i ==> !((#[trigger] ns[j]).slug == slug && node_visible(g, c, ns[j])),
            None => forall|j: int|
                0 <= j < ns.len() ==> !((#[trigger] ns[j]).slug == slug && node_visible(g, c, ns[j])),
        },
    decreases ns.len(),
{
    if ns.len() > 0 && !(ns[0].slug == slug && node_visible(g, c, ns[0])) {
        lemma_first_visible_with_slug(g, c, ns.drop_first(), slug);
        assert forall|j: int| 1 <= j < ns.len() implies ns[j] == ns.drop_first()[j - 1] by {}
    }
}

/// The views of a list of node references.
pub open spec fn node_refs_view(v: Seq<&GraphNode>) -> Seq<GraphNodeView> {
    Seq::new(v.len(), |k: int| v[k]@)
}

/// The neighbour entries produced from edges `es` taken in order: the node
/// at the far end of each edge, when the caller sees it, with the edge's kind.
pub open spec fn neighbors_from(
    g: GraphView,
    c: ContextView,
    es: Seq<(u32, u32, u8)>,
    dir: Direction,
) -> Seq<NeighborView>
    decreases es.len(),
{
    if es.len() == 0 {
        Seq::empty()
    } else {
        let rest = neighbors_from(g, c, es.drop_last(), dir);
        let e = es.last();
        let j = if dir == Direction::Outgoing {
            e.1
        } else {
            e.0
        };
        let n = g.nodes[j as int];
        if node_visible(g, c, n) {
            rest.push(neighbor_of(n, kind_of_code(e.2)))
        } else {
            rest
        }
    }
}

/// The views of a list of neighbour entries.
pub open spec fn neighbors_view(v: Seq<NeighborInfo>) -> Seq<NeighborView> {
    Seq::new(v.len(), |k: int| v[k]@)
}

/// The edges at a node are edges of the graph.
proof fn lemma_edges_at_in_range(es: Seq<(u32, u32, u8)>, a: u32, dir: Direction, n: nat)
    requires
        edges_in_range(es, n),
    ensures
        edges_in_range(edges_at(es, a, dir), n),
        forall|k: int|
            0 <= k < edges_at(es, a, dir).len() ==> (dir == Direction::Outgoing && (
            #[trigger] edges_at(es, a, dir)[k]).0 == a) || (dir == Direction::Incoming && edges_at(
                es,
                a,
                dir,
            )[k].1 == a),
    decreases es.len(),
{
    if es.len() > 0 {
        assert(edges_in_range(es.drop_last(), n)) by {
            assert forall|k: int| 0 <= k < es.drop_last().len() implies ((
            #[trigger] es.drop_last()[k]).0 as int) < n && (es.drop_last()[k].1 as int) < n
                && es.drop_last()[k].2 <= 3 by {
                assert(es.drop_last()[k] == es[k]);
            }
        }
        lemma_edges_at_in_range(es.drop_last(), a, dir, n);
        assert(es.last() == es[es.len() - 1]);
    }
}

impl KnowledgeGraph {
    fn list_nodes(&self, ctx: &TenantContext, index_only: bool) -> (r: Vec<&GraphNode>)
        requires
            self.wf(),
        ensures
            node_refs_view(r@) == listed(self@, ctx@, self@.nodes, index_only),
    {
        let mut out: Vec<&GraphNode> = Vec::new();
        let n = self.nodes.len();
        for i in 0..n
            invariant
                self.wf(),
                n == self.nodes@.len(),
                node_refs_view(out@) == listed(self@, ctx@, self@.nodes.take(i as int), index_only),
        {
            let node = &self.nodes[i];
            assert(self@.nodes.take(i + 1).drop_last() =~= self@.nodes.take(i as int));
            assert(self@.nodes.take(i + 1).last() == node@);
            if (!index_only || node.page_type == PageType::Index) && self.can_see_node(node, ctx) {
                let ghost before = node_refs_view(out@);
                out.push(node);
                assert(node_refs_view(out@) =~= before.push(node@));
            }
        }
        assert(self@.nodes.take(n as int) =~= self@.nodes);
        out
    }

    /// The `Index` pages the caller sees, in node order.
    pub fn get_index_pages(&self, ctx: &TenantContext) -> (r: Vec<&GraphNode>)
        requires
            self.wf(),
        ensures
            node_refs_view(r@) == listed(self@, ctx@, self@.nodes, true),
    {
        self.list_nodes(ctx, true)
    }

    /// Every node the caller sees, in node order.
    pub fn all_nodes(&self, ctx: &TenantContext) -> (r: Vec<&GraphNode>)
        requires
            self.wf(),
        ensures
            node_refs_view(r@) == listed(self@, ctx@, self@.nodes, false),
    {
        self.list_nodes(ctx, false)
    }

    /// The first node with this slug that the caller sees.
    pub fn find_by_slug(&self, slug: &Slug, ctx: &TenantContext) -> (r: Option<&GraphNode>)
        requires
            self.wf(),
        ensures
            match first_visible_with_slug(self@, ctx@, self@.nodes, slug@) {
                Some(i) => r is Some && r->0@ == self@.nodes[i],
                None => r is None,
            },
    {
        let n = self.nodes.len();
        proof {
            lemma_first_visible_with_slug(self@, ctx@, self@.nodes, slug@);
        }
        for i in 0..n
            invariant
                self.wf(),
                n == self.nodes@.len(),
                forall|j: int|
                    0 <= j < i ==> !((#[trigger] self@.nodes[j]).slug == slug@ && node_visible(
                        self@,
                        ctx@,
                        self@.nodes[j],
                    )),
        {
            let node = &self.nodes[i];
            if node.slug.same_as(slug) && self.can_see_node(node, ctx) {
                proof {
                    lemma_first_visible_with_slug(self@, ctx@, self@.nodes, slug@);
                    match first_visible_with_slug(self@, ctx@, self@.nodes, slug@) {
                        Some(k) => {
                            if k < i {
                                assert(!(self@.nodes[k].slug == slug@ && node_visible(
                                    self@,
                                    ctx@,
                                    self@.nodes[k],
                                )));
                            } else if k > i {
                                assert(!(self@.nodes[i as int].slug == slug@ && node_visible(
                                    self@,
                                    ctx@,
                                    self@.nodes[i as int],
                                )));
                            }
                        },
                        None => {
                            assert(!(self@.nodes[i as int].slug == slug@ && node_visible(
                                self@,
                                ctx@,
                                self@.nodes[i as int],
                            )));
                        },
                    }
                }
                return Some(node);
            }
        }
        None
    }

    /// The neighbours of page `page_id` along its edges in direction `dir`
    /// that the caller sees, each with the kind of the edge. The edges are
    /// taken in the order the graph lists them, which is not stated.
    pub fn get_neighbors(&self, page_id: &PageId, dir: Direction, ctx: &TenantContext) -> (r: Vec<
        NeighborInfo,
    >)
        requires
            self.wf(),
        ensures
            match last_index_of(self@.nodes, page_id.0) {
                None => r@.len() == 0,
                Some(i) => exists|es: Seq<(u32, u32, u8)>|
                    #![trigger neighbors_from(self@, ctx@, es, dir)]
                    es.to_multiset() == edges_at(self@.edges, i as u32, dir).to_multiset()
                        && neighbors_view(r@) == neighbors_from(self@, ctx@, es, dir),
            },
    {
        let idx = match self.index_of(page_id) {
            None => return Vec::new(),
            Some(i) => i,
        };
        let es = pg_edges_directed(&self.graph, idx, dir);
        proof {
            lemma_edges_at_in_range(self@.edges, idx, dir, self@.nodes.len());
            lemma_in_range_by_multiset(es@, edges_at(self@.edges, idx, dir), self@.nodes.len());
        }
        let mut out: Vec<NeighborInfo> = Vec::new();
        let m = es.len();
        for k in 0..m
            invariant
                self.wf(),
                m == es@.len(),
                edges_in_range(es@, self@.nodes.len()),
                neighbors_view(out@) == neighbors_from(self@, ctx@, es@.take(k as int), dir),
        {
            let e = es[k];
            let j = match dir {
                Direction::Outgoing => e.1,
                Direction::Incoming => e.0,
            };
            assert(es@.take(k + 1).drop_last() =~= es@.take(k as int));
            assert(es@.take(k + 1).last() == e);
            let nb = &self.nodes[j as usize];
            if self.can_see_node(nb, ctx) {
                let ghost before = neighbors_view(out@);
                let info = NeighborInfo {
                    page_id: nb.page_id,
                    slug: nb.slug.duplicate(),
                    title: nb.title.clone(),
                    summary: nb.summary.clone(),
                    page_type: nb.page_type,
                    edge_kind: edge_kind_of(e.2),
                };
                out.push(info);
                assert(neighbors_view(out@) =~= before.push(neighbor_of(nb@, kind_of_code(e.2))));
            }
        }
        assert(es@.take(m as int) =~= es@);
        out
    }
}

impl Default for KnowledgeGraph {
    /// An empty graph.
    fn default() -> (r: Self)
        ensures
            r.wf(),
            r@.nodes.len() == 0,
            r@.edges.len() == 0,
    {
        KnowledgeGraph::new()
    }
}

// ---------------------------------------------------------------------------
// Breadth-first traversal
// ---------------------------------------------------------------------------

/// What a breadth-first walk from `root` along outgoing edges produced:
/// `order` lists the nodes reached, `root` first, with their `depth` and the
/// kind of the edge each (but the root) was reached by. Every node after the
/// root is visible to the caller, lies at most `max_depth` edges away, and
/// was reached from an earlier node one level up; and the walk is closed:
/// from every listed node above `max_depth`, each edge to a node the caller
/// sees leads to a listed node at most one level further down. So every
/// node within `max_depth` steps of the root through visible nodes is listed
/// (see [`lemma_bfs_complete`]).
pub open spec fn bfs_tree(
    g: GraphView,
    c: ContextView,
    root: int,
    max_depth: int,
    order: Seq<int>,
    depth: Seq<int>,
    kinds: Seq<u8>,
) -> bool {
    &&& order.len() >= 1
    &&& depth.len() == order.len()
    &&& kinds.len() + 1 == order.len()
    &&& order[0] == root
    &&& depth[0] == 0
    &&& order.no_duplicates()
    &&& forall|k: int| 0 <= k < order.len() ==> 0 <= #[trigger] order[k] < g.nodes.len()
    &&& forall|k: int|
        1 <= k < order.len() ==> {
            &&& node_visible(g, c, g.nodes[#[trigger] order[k]])
            &&& 1 <= depth[k] <= max_depth
            &&& exists|j: int|
                0 <= j < k && depth[j] == depth[k] - 1 && #[trigger] g.edges.contains(
                    (order[j] as u32, order[k] as u32, kinds[k - 1]),
                )
        }
    &&& forall|j: int, x: int|
        0 <= j < order.len() && 0 <= x < g.edges.len() && (#[trigger] g.edges[x]).0 == (
        #[trigger] order[j]) as u32 && depth[j] < max_depth && node_visible(
            g,
            c,
            g.nodes[g.edges[x].1 as int],
        ) ==> exists|k: int|
            0 <= k < order.len() && #[trigger] order[k] == g.edges[x].1 as int && depth[k]
                <= depth[j] + 1
}

/// The neighbour entries of a walk: one per node after the root, in order.
pub open spec fn bfs_entries(g: GraphView, order: Seq<int>, kinds: Seq<u8>) -> Seq<NeighborView> {
    Seq::new(kinds.len(), |k: int| neighbor_of(g.nodes[order[k + 1]], kind_of_code(kinds[k])))
}

/// An edge is at a node exactly when it is an edge of the graph with that
/// endpoint.
proof fn lemma_edges_at_contains(es: Seq<(u32, u32, u8)>, a: u32, dir: Direction, x: (u32, u32, u8))
    ensures
        edges_at(es, a, dir).contains(x) <==> es.contains(x) && ((dir == Direction::Outgoing
            && x.0 == a) || (dir == Direction::Incoming && x.1 == a)),
    decreases es.len(),
{
    if es.len() > 0 {
        lemma_edges_at_contains(es.drop_last(), a, dir, x);
        let rest = edges_at(es.drop_last(), a, dir);
        if es.contains(x) {
            let i = choose|i: int| 0 <= i < es.len() && es[i] == x;
            if i < es.len() - 1 {
                assert(es.drop_last()[i] == x);
            }
        }
        if es.drop_last().contains(x) {
            let i = choose|i: int| 0 <= i < es.drop_last().len() && es.drop_last()[i] == x;
            assert(es[i] == x);
        }
        if rest.contains(x) {
            let i = choose|i: int| 0 <= i < rest.len() && rest[i] == x;
            assert(rest.push(es.last())[i] == x);
        }
        assert(rest.push(es.last())[rest.len() as int] == es.last());
        if (dir == Direction::Outgoing && es.last().0 == a) || (dir == Direction::Incoming
            && es.last().1 == a) {
            if rest.push(es.last()).contains(x) {
                let i = choose|i: int| 0 <= i < rest.len() + 1 && rest.push(es.last())[i] == x;
                if i < rest.len() {
                    assert(rest[i] == x);
                }
            }
        }
    }
}

/// The shape of a walk: the root first at depth 0, distinct node indices,
/// depths within bounds and never decreasing along the list.
#[verifier::opaque]
pub open spec fn bfs_shape(
    n: int,
    root: int,
    md: int,
    order: Seq<int>,
    depth: Seq<int>,
    kinds: Seq<u8>,
) -> bool {
    &&& order.len() >= 1
    &&& depth.len() == order.len()
    &&& kinds.len() + 1 == order.len()
    &&& order[0] == root
    &&& depth[0] == 0
    &&& order.no_duplicates()
    &&& forall|k: int| 0 <= k < order.len() ==> 0 <= #[trigger] order[k] < n
    &&& forall|k: int| 0 <= k < order.len() ==> 0 <= #[trigger] depth[k] <= md
    &&& forall|k: int| 1 <= k < order.len() ==> 1 <= #[trigger] depth[k]
    &&& forall|a: int, b: int| 0 <= a <= b < order.len() ==> #[trigger] depth[a] <= #[trigger] depth[b]
}

/// Every node after the root is visible and was reached from an earlier
/// node one level up.
#[verifier::opaque]
pub open spec fn bfs_parents(
    g: GraphView,
    c: ContextView,
    order: Seq<int>,
    depth: Seq<int>,
    kinds: Seq<u8>,
) -> bool {
    forall|k: int|
        1 <= k < order.len() ==> {
            &&& node_visible(g, c, g.nodes[#[trigger] order[k]])
            &&& exists|j: int|
                0 <= j < k && depth[j] == depth[k] - 1 && #[trigger] g.edges.contains(
                    (order[j] as u32, order[k] as u32, kinds[k - 1]),
                )
        }
}

/// The part of [`bfs_tree`] that holds throughout the walk.
pub open spec fn bfs_core(
    g: GraphView,
    c: ContextView,
    root: int,
    md: int,
    order: Seq<int>,
    depth: Seq<int>,
    kinds: Seq<u8>,
) -> bool {
    &&& bfs_shape(g.nodes.len() as int, root, md, order, depth, kinds)
    &&& bfs_parents(g, c, order, depth, kinds)
}

/// The walk is closed at the first `h` listed nodes.
#[verifier::opaque]
pub open spec fn bfs_closed(
    g: GraphView,
    c: ContextView,
    md: int,
    order: Seq<int>,
    depth: Seq<int>,
    h: int,
) -> bool {
    forall|j: int, x: int|
        0 <= j < h && 0 <= x < g.edges.len() && (#[trigger] g.edges[x]).0 == (#[trigger] order[j]) as u32
            && depth[j] < md && node_visible(g, c, g.nodes[g.edges[x].1 as int]) ==> exists|k: int|
            0 <= k < order.len() && #[trigger] order[k] == g.edges[x].1 as int && depth[k]
                <= depth[j] + 1
}

/// Of the edges `es` of the node at depth `dc`, the first `k` lead to
/// listed nodes at most one level further down when the caller sees them.
#[verifier::opaque]
pub open spec fn bfs_partial(
    g: GraphView,
    c: ContextView,
    order: Seq<int>,
    depth: Seq<int>,
    es: Seq<(u32, u32, u8)>,
    k: int,
    dc: int,
) -> bool {
    forall|y: int|
        0 <= y < k && node_visible(g, c, g.nodes[(#[trigger] es[y]).1 as int]) ==> exists|q: int|
            0 <= q < order.len() && #[trigger] order[q] == es[y].1 as int && depth[q] <= dc + 1
}

/// The walk's start: the root alone.
proof fn lemma_bfs_start(g: GraphView, c: ContextView, root: int, md: int)
    requires
        0 <= root < g.nodes.len(),
        md >= 0,
    ensures
        bfs_core(g, c, root, md, seq![root], seq![0int], Seq::empty()),
        bfs_closed(g, c, md, seq![root], seq![0int], 0),
{
    reveal(bfs_shape);
    reveal(bfs_parents);
    reveal(bfs_closed);
}

/// Appending a new node one level below node `order[hc]` keeps the shape.
proof fn lemma_bfs_push_shape(
    n: int,
    root: int,
    md: int,
    order: Seq<int>,
    depth: Seq<int>,
    kinds: Seq<u8>,
    hc: int,
    nb: int,
    kind: u8,
)
    requires
        bfs_shape(n, root, md, order, depth, kinds),
        0 <= hc < order.len(),
        depth[hc] < md,
        depth[order.len() - 1] <= depth[hc] + 1,
        !order.contains(nb),
        0 <= nb < n,
    ensures
        bfs_shape(n, root, md, order.push(nb), depth.push(depth[hc] + 1), kinds.push(kind)),
{
    reveal(bfs_shape);
    let o2 = order.push(nb);
    let d2 = depth.push(depth[hc] + 1);
    assert(o2.no_duplicates()) by {
        assert forall|a: int, b: int| 0 <= a < b < o2.len() implies o2[a] != o2[b] by {
            if b == o2.len() - 1 {
                assert(order.contains(order[a]));
            } else {
                assert(o2[a] == order[a] && o2[b] == order[b]);
            }
        }
    }
    assert forall|a: int, b: int| 0 <= a <= b < o2.len() implies #[trigger] d2[a] <= #[trigger] d2[b] by {
        if b == o2.len() - 1 && a < b {
            if a <= hc {
                assert(depth[a] <= depth[hc]);
            } else {
                assert(depth[a] <= depth[order.len() - 1]);
            }
        } else if b < o2.len() - 1 {
            assert(d2[a] == depth[a] && d2[b] == depth[b]);
            assert(depth[a] <= depth[b]);
        }
    }
    assert forall|k: int| 0 <= k < o2.len() implies 0 <= #[trigger] o2[k] < n by {
        if k < order.len() {
            assert(o2[k] == order[k]);
        }
    }
    assert forall|k: int| 0 <= k < o2.len() implies 0 <= #[trigger] d2[k] <= md by {
        if k < order.len() {
            assert(d2[k] == depth[k]);
        }
    }
    assert forall|k: int| 1 <= k < o2.len() implies 1 <= #[trigger] d2[k] by {
        if k < order.len() {
            assert(d2[k] == depth[k]);
        } else {
            assert(depth[hc] >= 0);
        }
    }
}

/// Appending a visible node reached from `order[hc]` keeps every node's
/// parent.
proof fn lemma_bfs_push_parents(
    g: GraphView,
    c: ContextView,
    order: Seq<int>,
    depth: Seq<int>,
    kinds: Seq<u8>,
    hc: int,
    nb: int,
    kind: u8,
)
    requires
        bfs_parents(g, c, order, depth, kinds),
        order.len() == depth.len(),
        kinds.len() + 1 == order.len(),
        0 <= hc < order.len(),
        g.edges.contains((order[hc] as u32, nb as u32, kind)),
        0 <= nb < g.nodes.len(),
        node_visible(g, c, g.nodes[nb]),
    ensures
        bfs_parents(g, c, order.push(nb), depth.push(depth[hc] + 1), kinds.push(kind)),
{
    reveal(bfs_parents);
    let o2 = order.push(nb);
    let d2 = depth.push(depth[hc] + 1);
    let k2 = kinds.push(kind);
    assert forall|q: int|
        1 <= q < o2.len() implies {
            &&& node_visible(g, c, g.nodes[#[trigger] o2[q]])
            &&& exists|j: int|
                0 <= j < q && d2[j] == d2[q] - 1 && #[trigger] g.edges.contains(
                    (o2[j] as u32, o2[q] as u32, k2[q - 1]),
                )
        } by {
        if q == o2.len() - 1 {
            lemma_parent_new(g, order, depth, kinds, hc, nb, kind);
        } else {
            lemma_parent_old(g, c, order, depth, kinds, nb, hc, kind, q);
        }
    }
}

proof fn lemma_parent_new(
    g: GraphView,
    order: Seq<int>,
    depth: Seq<int>,
    kinds: Seq<u8>,
    hc: int,
    nb: int,
    kind: u8,
)
    requires
        order.len() == depth.len(),
        kinds.len() + 1 == order.len(),
        0 <= hc < order.len(),
        g.edges.contains((order[hc] as u32, nb as u32, kind)),
    ensures
        ({
            let o2 = order.push(nb);
            let d2 = depth.push(depth[hc] + 1);
            let k2 = kinds.push(kind);
            let q = order.len() as int;
            exists|j: int|
                0 <= j < q && d2[j] == d2[q] - 1 && #[trigger] g.edges.contains(
                    (o2[j] as u32, o2[q] as u32, k2[q - 1]),
                )
        }),
{
    let o2 = order.push(nb);
    let d2 = depth.push(depth[hc] + 1);
    let k2 = kinds.push(kind);
    let q = order.len() as int;
    assert(o2[hc] == order[hc] && d2[hc] == depth[hc] && o2[q] == nb && k2[q - 1] == kind);
    assert(g.edges.contains((o2[hc] as u32, o2[q] as u32, k2[q - 1])));
}

proof fn lemma_parent_old(
    g: GraphView,
    c: ContextView,
    order: Seq<int>,
    depth: Seq<int>,
    kinds: Seq<u8>,
    nb: int,
    hc: int,
    kind: u8,
    q: int,
)
    requires
        bfs_parents(g, c, order, depth, kinds),
        order.len() == depth.len(),
        kinds.len() + 1 == order.len(),
        0 <= hc < order.len(),
        1 <= q < order.len(),
    ensures
        ({
            let o2 = order.push(nb);
            let d2 = depth.push(depth[hc] + 1);
            let k2 = kinds.push(kind);
            &&& node_visible(g, c, g.nodes[o2[q]])
            &&& exists|j: int|
                0 <= j < q && d2[j] == d2[q] - 1 && #[trigger] g.edges.contains(
                    (o2[j] as u32, o2[q] as u32, k2[q - 1]),
                )
        }),
{
    reveal(bfs_parents);
    let o2 = order.push(nb);
    let d2 = depth.push(depth[hc] + 1);
    let k2 = kinds.push(kind);
    assert(o2[q] == order[q]);
    assert(node_visible(g, c, g.nodes[order[q]]));
    let j = choose|j: int|
        0 <= j < q && depth[j] == depth[q] - 1 && #[trigger] g.edges.contains(
            (order[j] as u32, order[q] as u32, kinds[q - 1]),
        );
    assert(o2[j] == order[j] && d2[j] == depth[j] && d2[q] == depth[q]);
    assert(k2[q - 1] == kinds[q - 1]);
    assert(g.edges.contains((o2[j] as u32, o2[q] as u32, k2[q - 1])));
}

/// Appending a node keeps the closure at the nodes already expanded.
proof fn lemma_bfs_push_closed(
    g: GraphView,
    c: ContextView,
    md: int,
    order: Seq<int>,
    depth: Seq<int>,
    hc: int,
    nb: int,
    d: int,
)
    requires
        bfs_closed(g, c, md, order, depth, hc),
        0 <= hc < order.len(),
        depth.len() == order.len(),
    ensures
        bfs_closed(g, c, md, order.push(nb), depth.push(d), hc),
{
    reveal(bfs_closed);
    let o2 = order.push(nb);
    let d2 = depth.push(d);
    assert forall|j: int, x: int|
        0 <= j < hc && 0 <= x < g.edges.len() && (#[trigger] g.edges[x]).0 == (#[trigger] o2[j]) as u32
            && d2[j] < md && node_visible(g, c, g.nodes[g.edges[x].1 as int]) implies exists|q: int|
        0 <= q < o2.len() && #[trigger] o2[q] == g.edges[x].1 as int && d2[q] <= d2[j] + 1 by {
        assert(o2[j] == order[j]);
        let q = choose|q: int|
            0 <= q < order.len() && #[trigger] order[q] == g.edges[x].1 as int && depth[q]
                <= depth[j] + 1;
        assert(o2[q] == order[q]);
    }
}

/// Appending the far end of edge `es[k]` extends the partial closure to it.
proof fn lemma_bfs_push_partial(
    g: GraphView,
    c: ContextView,
    order: Seq<int>,
    depth: Seq<int>,
    es: Seq<(u32, u32, u8)>,
    k: int,
    dc: int,
)
    requires
        bfs_partial(g, c, order, depth, es, k, dc),
        0 <= k < es.len(),
        depth.len() == order.len(),
    ensures
        bfs_partial(g, c, order.push(es[k].1 as int), depth.push(dc + 1), es, k + 1, dc),
{
    reveal(bfs_partial);
    let o2 = order.push(es[k].1 as int);
    let d2 = depth.push(dc + 1);
    assert forall|y: int|
        0 <= y < k + 1 && node_visible(g, c, g.nodes[(#[trigger] es[y]).1 as int]) implies exists|q: int|
        0 <= q < o2.len() && #[trigger] o2[q] == es[y].1 as int && d2[q] <= dc + 1 by {
        if y == k {
            assert(o2[o2.len() - 1] == es[k].1 as int);
        } else {
            let q = choose|q: int|
                0 <= q < order.len() && #[trigger] order[q] == es[y].1 as int && depth[q] <= dc + 1;
            assert(o2[q] == order[q]);
        }
    }
}

/// Skipping an edge to a node already listed, or to one the caller does not
/// see, keeps the partial closure.
proof fn lemma_bfs_skip(
    g: GraphView,
    c: ContextView,
    root: int,
    md: int,
    order: Seq<int>,
    depth: Seq<int>,
    kinds: Seq<u8>,
    hc: int,
    es: Seq<(u32, u32, u8)>,
    k: int,
)
    requires
        bfs_core(g, c, root, md, order, depth, kinds),
        bfs_partial(g, c, order, depth, es, k, depth[hc]),
        0 <= hc < order.len(),
        0 <= k < es.len(),
        depth[order.len() - 1] <= depth[hc] + 1,
        order.contains(es[k].1 as int) || !node_visible(g, c, g.nodes[es[k].1 as int]),
    ensures
        bfs_partial(g, c, order, depth, es, k + 1, depth[hc]),
{
    reveal(bfs_shape);
    reveal(bfs_partial);
    assert forall|y: int|
        0 <= y < k + 1 && node_visible(g, c, g.nodes[(#[trigger] es[y]).1 as int]) implies exists|q: int|
        0 <= q < order.len() && #[trigger] order[q] == es[y].1 as int && depth[q] <= depth[hc] + 1 by {
        if y == k {
            let q = choose|q: int| 0 <= q < order.len() && order[q] == es[k].1 as int;
            assert(depth[q] <= depth[order.len() - 1]);
        }
    }
}

/// Once every edge of the node `order[hc]` has been looked at, the walk is
/// closed at it too.
proof fn lemma_bfs_node_done(
    g: GraphView,
    c: ContextView,
    md: int,
    order: Seq<int>,
    depth: Seq<int>,
    hc: int,
    es: Seq<(u32, u32, u8)>,
)
    requires
        bfs_closed(g, c, md, order, depth, hc),
        bfs_partial(g, c, order, depth, es, es.len() as int, depth[hc]),
        0 <= hc < order.len(),
        es.to_multiset() == edges_at(g.edges, order[hc] as u32, Direction::Outgoing).to_multiset(),
    ensures
        bfs_closed(g, c, md, order, depth, hc + 1),
{
    broadcast use vstd::seq_lib::group_to_multiset_ensures;

    reveal(bfs_closed);
    reveal(bfs_partial);
    assert forall|j: int, x: int|
        0 <= j < hc + 1 && 0 <= x < g.edges.len() && (#[trigger] g.edges[x]).0 == (
        #[trigger] order[j]) as u32 && depth[j] < md && node_visible(
            g,
            c,
            g.nodes[g.edges[x].1 as int],
        ) implies exists|q: int|
        0 <= q < order.len() && #[trigger] order[q] == g.edges[x].1 as int && depth[q] <= depth[j]
            + 1 by {
        if j == hc {
            let ex = g.edges[x];
            assert(g.edges.contains(ex));
            lemma_edges_at_contains(g.edges, order[hc] as u32, Direction::Outgoing, ex);
            assert(edges_at(g.edges, order[hc] as u32, Direction::Outgoing).to_multiset().contains(ex));
            assert(es.contains(ex));
            let y = choose|y: int| 0 <= y < es.len() && es[y] == ex;
            assert(node_visible(g, c, g.nodes[es[y].1 as int]));
        }
    }
}

/// A node at depth `md` or more has nothing to close.
proof fn lemma_bfs_node_deep(
    g: GraphView,
    c: ContextView,
    md: int,
    order: Seq<int>,
    depth: Seq<int>,
    hc: int,
)
    requires
        bfs_closed(g, c, md, order, depth, hc),
        0 <= hc < order.len(),
        depth[hc] >= md,
    ensures
        bfs_closed(g, c, md, order, depth, hc + 1),
{
    reveal(bfs_closed);
}

/// A walk that is closed at every listed node is a [`bfs_tree`]; distinct
/// node indices number at most the nodes.
proof fn lemma_bfs_finish(
    g: GraphView,
    c: ContextView,
    root: int,
    md: int,
    order: Seq<int>,
    depth: Seq<int>,
    kinds: Seq<u8>,
)
    requires
        bfs_core(g, c, root, md, order, depth, kinds),
        bfs_closed(g, c, md, order, depth, order.len() as int),
    ensures
        bfs_tree(g, c, root, md, order, depth, kinds),
{
    reveal(bfs_shape);
    reveal(bfs_parents);
    reveal(bfs_closed);
}

/// Listed nodes number at most the nodes, and depths do not decrease.
proof fn lemma_bfs_facts(
    g: GraphView,
    c: ContextView,
    root: int,
    md: int,
    order: Seq<int>,
    depth: Seq<int>,
    kinds: Seq<u8>,
)
    requires
        bfs_core(g, c, root, md, order, depth, kinds),
    ensures
        order.len() <= g.nodes.len(),
        order.len() >= 1,
        depth.len() == order.len(),
        kinds.len() + 1 == order.len(),
        forall|k: int| 0 <= k < order.len() ==> 0 <= #[trigger] order[k] < g.nodes.len(),
        forall|k: int| 0 <= k < order.len() ==> 0 <= #[trigger] depth[k] <= md,
        forall|a: int, b: int| 0 <= a <= b < order.len() ==> #[trigger] depth[a] <= #[trigger] depth[b],
{
    reveal(bfs_shape);
    order.unique_seq_to_set();
    vstd::set_lib::lemma_int_range(0, g.nodes.len() as int);
    assert(order.to_set().subset_of(vstd::set_lib::set_int_range(0, g.nodes.len() as int)));
    vstd::set_lib::lemma_len_subset(
        order.to_set(),
        vstd::set_lib::set_int_range(0, g.nodes.len() as int),
    );
}

impl KnowledgeGraph {
    /// The pages reachable from `root` along outgoing edges within
    /// `max_depth` steps, through pages the caller sees, breadth first; each
    /// is listed once with the kind of the edge it was first reached by.
    /// Which of several edges reaching a page at the same depth is reported
    /// depends on the order the graph lists edges in, which is not stated.
    pub fn get_subtree(&self, root: &PageId, max_depth: usize, ctx: &TenantContext) -> (r: Vec<
        NeighborInfo,
    >)
        requires
            self.wf(),
        ensures
            match last_index_of(self@.nodes, root.0) {
                None => r@.len() == 0,
                Some(i) => exists|order: Seq<int>, depth: Seq<int>, kinds: Seq<u8>|
                    #[trigger] bfs_tree(self@, ctx@, i, max_depth as int, order, depth, kinds)
                        && neighbors_view(r@) == bfs_entries(self@, order, kinds),
            },
    {
        broadcast use vstd::seq_lib::group_to_multiset_ensures;

        let mut results: Vec<NeighborInfo> = Vec::new();
        let mut visited: HashMap<u32, usize> = HashMap::new();
        let mut queue: std::collections::VecDeque<(u32, usize)> = std::collections::VecDeque::new();
        let root_idx = match self.index_of(root) {
            None => return results,
            Some(i) => i,
        };
        let ghost g = self@;
        let ghost n = self@.nodes.len() as int;
        let ghost c = ctx@;
        let ghost md = max_depth as int;
        visited.insert(root_idx, 0);
        queue.push_back((root_idx, 0));
        let ghost mut order: Seq<int> = seq![root_idx as int];
        let ghost mut depth: Seq<int> = seq![0int];
        let ghost mut kinds: Seq<u8> = Seq::empty();
        let ghost mut h: int = 0;
        proof {
            lemma_bfs_start(g, c, root_idx as int, md);
            assert forall|v: u32| #[trigger] visited@.contains_key(v) <==> order.contains(v as int) by {
                if order.contains(v as int) {
                    assert(order[0] == v as int);
                }
                if v == root_idx {
                    assert(order[0] == v as int);
                }
            }
            assert(queue@ =~= Seq::new(
                (order.len() - h) as nat,
                |p: int| (order[h + p] as u32, depth[h + p] as usize),
            ));
            assert(neighbors_view(results@) =~= bfs_entries(g, order, kinds));
        }
        loop
            invariant
                self.wf(),
                g == self@,
                n == g.nodes.len(),
                c == ctx@,
                md == max_depth as int,
                bfs_core(g, c, root_idx as int, md, order, depth, kinds),
                bfs_closed(g, c, md, order, depth, h),
                forall|v: u32| #[trigger] visited@.contains_key(v) <==> order.contains(v as int),
                forall|k: int|
                    0 <= k < order.len() ==> visited@[#[trigger] order[k] as u32] == depth[k] as usize,
                0 <= h <= order.len(),
                queue@ == Seq::new(
                    (order.len() - h) as nat,
                    |p: int| (order[h + p] as u32, depth[h + p] as usize),
                ),
                h < order.len() ==> depth[order.len() - 1] <= depth[h] + 1,
                neighbors_view(results@) == bfs_entries(g, order, kinds),
            ensures
                bfs_core(g, c, root_idx as int, md, order, depth, kinds),
                bfs_closed(g, c, md, order, depth, order.len() as int),
                neighbors_view(results@) == bfs_entries(g, order, kinds),
            decreases 2 * n - order.len() - h,
        {
            proof {
                lemma_bfs_facts(g, c, root_idx as int, md, order, depth, kinds);
            }
            let (cur, cur_depth) = match queue.pop_front() {
                None => {
                    assert(h == order.len());
                    break ;
                },
                Some(x) => x,
            };
            assert(cur as int == order[h] && cur_depth as int == depth[h]);
            if cur_depth >= max_depth {
                proof {
                    lemma_bfs_node_deep(g, c, md, order, depth, h);
                    h = h + 1;
                    assert(queue@ =~= Seq::new(
                        (order.len() - h) as nat,
                        |p: int| (order[h + p] as u32, depth[h + p] as usize),
                    ));
                    if h < order.len() {
                        assert(depth[h - 1] <= depth[h]);
                    }
                }
                continue ;
            }
            let es = pg_edges_directed(&self.graph, cur, Direction::Outgoing);
            proof {
                lemma_edges_at_in_range(g.edges, cur, Direction::Outgoing, g.nodes.len());
                lemma_in_range_by_multiset(es@, edges_at(g.edges, cur, Direction::Outgoing), n as nat);
                reveal(bfs_partial);
            }
            let ghost hc = h;
            let ghost len0 = order.len();
            let m = es.len();
            for k in 0..m
                invariant
                    self.wf(),
                    order.len() >= len0,
                    g == self@,
                    n == g.nodes.len(),
                    c == ctx@,
                    md == max_depth as int,
                    m == es@.len(),
                    es@.to_multiset() == edges_at(g.edges, cur, Direction::Outgoing).to_multiset(),
                    edges_in_range(es@, n as nat),
                    0 <= hc < order.len(),
                    cur as int == order[hc],
                    cur_depth as int == depth[hc],
                    cur_depth < max_depth,
                    bfs_core(g, c, root_idx as int, md, order, depth, kinds),
                    bfs_closed(g, c, md, order, depth, hc),
                    bfs_partial(g, c, order, depth, es@, k as int, depth[hc]),
                    forall|v: u32| #[trigger] visited@.contains_key(v) <==> order.contains(v as int),
                    forall|q: int|
                        0 <= q < order.len() ==> visited@[#[trigger] order[q] as u32]
                            == depth[q] as usize,
                    queue@ == Seq::new(
                        (order.len() - hc - 1) as nat,
                        |p: int| (order[hc + 1 + p] as u32, depth[hc + 1 + p] as usize),
                    ),
                    depth[order.len() - 1] <= depth[hc] + 1,
                    neighbors_view(results@) == bfs_entries(g, order, kinds),
            {
                proof {
                    lemma_bfs_facts(g, c, root_idx as int, md, order, depth, kinds);
                }
                let e = es[k];
                let nb = e.1;
                proof {
                    assert(es@[k as int] == e);
                    assert(es@.contains(e));
                    vstd::seq_lib::to_multiset_contains(es@, e);
                    vstd::seq_lib::to_multiset_contains(edges_at(g.edges, cur, Direction::Outgoing), e);
                    assert(es@.to_multiset().count(e) > 0);
                    assert(edges_at(g.edges, cur, Direction::Outgoing).to_multiset().count(e) > 0);
                    assert(edges_at(g.edges, cur, Direction::Outgoing).contains(e));
                    lemma_edges_at_contains(g.edges, cur, Direction::Outgoing, e);
                }
                if visited.contains_key(&nb) {
                    proof {
                        lemma_bfs_skip(g, c, root_idx as int, md, order, depth, kinds, hc, es@, k as int);
                    }
                } else {
                    let node = &self.nodes[nb as usize];
                    if self.can_see_node(node, ctx) {
                        let nd = cur_depth + 1;
                        visited.insert(nb, nd);
                        queue.push_back((nb, nd));
                        let info = NeighborInfo {
                            page_id: node.page_id,
                            slug: node.slug.duplicate(),
                            title: node.title.clone(),
                            summary: node.summary.clone(),
                            page_type: node.page_type,
                            edge_kind: edge_kind_of(e.2),
                        };
                        let ghost before = neighbors_view(results@);
                        results.push(info);
                        proof {
                            assert(order[hc] as u32 == cur);
                            lemma_bfs_push_shape(
                                n,
                                root_idx as int,
                                md,
                                order,
                                depth,
                                kinds,
                                hc,
                                nb as int,
                                e.2,
                            );
                            lemma_bfs_push_parents(g, c, order, depth, kinds, hc, nb as int, e.2);
                            lemma_bfs_push_closed(g, c, md, order, depth, hc, nb as int, nd as int);
                            lemma_bfs_push_partial(g, c, order, depth, es@, k as int, depth[hc]);
                            let old_order = order;
                            order = order.push(nb as int);
                            depth = depth.push(nd as int);
                            kinds = kinds.push(e.2);
                            assert(neighbors_view(results@) =~= bfs_entries(g, order, kinds)) by {
                                assert(neighbors_view(results@) =~= before.push(
                                    neighbor_of(g.nodes[nb as int], kind_of_code(e.2)),
                                ));
                            }
                            assert forall|v: u32| #[trigger]
                                visited@.contains_key(v) <==> order.contains(v as int) by {
                                if order.contains(v as int) {
                                    let q = choose|q: int| 0 <= q < order.len() && order[q] == v as int;
                                    if q < old_order.len() {
                                        assert(old_order[q] == order[q]);
                                        assert(old_order.contains(v as int));
                                    }
                                }
                                if old_order.contains(v as int) {
                                    let q = choose|q: int|
                                        0 <= q < old_order.len() && old_order[q] == v as int;
                                    assert(order[q] == v as int);
                                }
                                assert(order[order.len() - 1] == nb as int);
                            }
                            assert forall|q: int| 0 <= q < order.len() implies visited@[
                                #[trigger] order[q] as u32] == depth[q] as usize by {
                                if q < old_order.len() {
                                    assert(old_order[q] == order[q]);
                                    assert(old_order.contains(old_order[q]));
                                }
                            }
                            assert(queue@ =~= Seq::new(
                                (order.len() - hc - 1) as nat,
                                |p: int| (order[hc + 1 + p] as u32, depth[hc + 1 + p] as usize),
                            ));
                        }
                    } else {
                        proof {
                            lemma_bfs_skip(g, c, root_idx as int, md, order, depth, kinds, hc, es@, k as int);
                        }
                    }
                }
            }
            proof {
                lemma_bfs_node_done(g, c, md, order, depth, hc, es@);
                lemma_bfs_facts(g, c, root_idx as int, md, order, depth, kinds);
                h = hc + 1;
                assert(queue@ =~= Seq::new(
                    (order.len() - h) as nat,
                    |p: int| (order[h + p] as u32, depth[h + p] as usize),
                ));
                if h < order.len() {
                    assert(depth[hc] <= depth[h]);
                }
            }
        }
        proof {
            lemma_bfs_finish(g, c, root_idx as int, md, order, depth, kinds);
        }
        results
    }
}

// ---------------------------------------------------------------------------
// Laws of containment and inheritance
// ---------------------------------------------------------------------------

/// Level `a` is at least level `b`.
pub open spec fn level_at_least(a: Level, b: Level) -> bool {
    a == Level::Edit || b == Level::View
}

/// Every grant of `gs` has a counterpart in `hs` for the same principal with
/// at least its level.
#[verifier::opaque]
pub open spec fn grants_covered(gs: Seq<GrantView>, hs: Seq<GrantView>) -> bool {
    forall|j: int|
        0 <= j < gs.len() ==> exists|k: int|
            0 <= k < hs.len() && (#[trigger] hs[k]).principal == (#[trigger] gs[j]).principal
                && level_at_least(hs[k].level, gs[j].level)
}

/// Merging a grant covers the list merged into and the grant itself.
proof fn lemma_union_grant_covers(gs: Seq<GrantView>, g: GrantView)
    ensures
        grants_covered(gs, union_grant(gs, g)),
        grants_covered(seq![g], union_grant(gs, g)),
{
    reveal(grants_covered);
    lemma_first_grant_for(gs, g.principal);
    let u = union_grant(gs, g);
    match first_grant_for(gs, g.principal) {
        Some(i) => {
            assert forall|j: int| 0 <= j < gs.len() implies exists|k: int|
                0 <= k < u.len() && (#[trigger] u[k]).principal == (#[trigger] gs[j]).principal
                    && level_at_least(u[k].level, gs[j].level) by {
                assert(u[j].principal == gs[j].principal);
            }
            assert(u[i].principal == seq![g][0].principal);
        },
        None => {
            assert forall|j: int| 0 <= j < gs.len() implies exists|k: int|
                0 <= k < u.len() && (#[trigger] u[k]).principal == (#[trigger] gs[j]).principal
                    && level_at_least(u[k].level, gs[j].level) by {
                assert(u[j] == gs[j]);
            }
            assert(u[gs.len() as int] == seq![g][0]);
        },
    }
}

/// Covering is transitive.
proof fn lemma_covered_trans(a: Seq<GrantView>, b: Seq<GrantView>, c: Seq<GrantView>)
    requires
        grants_covered(a, b),
        grants_covered(b, c),
    ensures
        grants_covered(a, c),
{
    reveal(grants_covered);
    assert forall|j: int| 0 <= j < a.len() implies exists|k: int|
        0 <= k < c.len() && (#[trigger] c[k]).principal == (#[trigger] a[j]).principal
            && level_at_least(c[k].level, a[j].level) by {
        let m = choose|m: int|
            0 <= m < b.len() && (#[trigger] b[m]).principal == a[j].principal && level_at_least(
                b[m].level,
                a[j].level,
            );
        assert(b[m] == b[m] && a[j] == a[j]);
        let k = choose|k: int|
            0 <= k < c.len() && (#[trigger] c[k]).principal == (#[trigger] b[m]).principal
                && level_at_least(c[k].level, b[m].level);
    }
}

/// Covering lists cover their concatenation.
proof fn lemma_covered_concat(a: Seq<GrantView>, b: Seq<GrantView>, c: Seq<GrantView>)
    requires
        grants_covered(a, c),
        grants_covered(b, c),
    ensures
        grants_covered(a + b, c),
{
    reveal(grants_covered);
    let ab = a + b;
    assert forall|j: int| 0 <= j < ab.len() implies exists|k: int|
        0 <= k < c.len() && (#[trigger] c[k]).principal == (#[trigger] ab[j]).principal
            && level_at_least(c[k].level, ab[j].level) by {
        if j < a.len() {
            assert(ab[j] == a[j]);
            let k = choose|k: int|
                0 <= k < c.len() && (#[trigger] c[k]).principal == (#[trigger] a[j]).principal
                    && level_at_least(c[k].level, a[j].level);
        } else {
            assert(ab[j] == b[j - a.len()]);
            let k = choose|k: int|
                0 <= k < c.len() && (#[trigger] c[k]).principal == (#[trigger] b[j - a.len()]).principal
                    && level_at_least(c[k].level, b[j - a.len()].level);
        }
    }
}

/// A list covers itself.
proof fn lemma_covered_refl(a: Seq<GrantView>)
    ensures
        grants_covered(a, a),
{
    reveal(grants_covered);
    assert forall|j: int| 0 <= j < a.len() implies exists|k: int|
        0 <= k < a.len() && (#[trigger] a[k]).principal == (#[trigger] a[j]).principal
            && level_at_least(a[k].level, a[j].level) by {
        assert(level_at_least(a[j].level, a[j].level));
    }
}

/// Merging a list of grants covers the list merged into and every merged
/// grant.
pub proof fn lemma_union_all_covers(gs: Seq<GrantView>, inc: Seq<GrantView>)
    ensures
        grants_covered(gs, union_all(gs, inc)),
        grants_covered(inc, union_all(gs, inc)),
    decreases inc.len(),
{
    if inc.len() == 0 {
        lemma_covered_refl(gs);
        reveal(grants_covered);
    } else {
        let prev = union_all(gs, inc.drop_last());
        let u = union_all(gs, inc);
        lemma_union_all_covers(gs, inc.drop_last());
        lemma_union_grant_covers(prev, inc.last());
        lemma_covered_trans(gs, prev, u);
        lemma_covered_trans(inc.drop_last(), prev, u);
        lemma_covered_concat(inc.drop_last(), seq![inc.last()], u);
        assert(inc.drop_last() + seq![inc.last()] =~= inc);
    }
}

/// Widening grants never narrows who may see or edit: a caller reached by
/// some grant of `a` is reached by a grant of `b` at least as high.
proof fn lemma_covered_reaches(c: ContextView, a: AccessView, b: AccessView, min: Level)
    requires
        grants_covered(a.grants, b.grants),
        grant_reaches(c, a, min),
    ensures
        grant_reaches(c, b, min),
{
    reveal(grants_covered);
    let i = choose|i: int|
        0 <= i < a.grants.len() && principal_covers(c, (#[trigger] a.grants[i]).principal) && (min
            == Level::View || a.grants[i].level == Level::Edit);
    let k = choose|k: int|
        0 <= k < b.grants.len() && (#[trigger] b.grants[k]).principal == (
        #[trigger] a.grants[i]).principal && level_at_least(b.grants[k].level, a.grants[i].level);
    assert(principal_covers(c, b.grants[k].principal));
}

/// A root page (no containment parent) has exactly its own access.
pub proof fn lemma_root_effective_access(ns: Seq<GraphNodeView>, i: int)
    requires
        0 <= i < ns.len(),
        ns[i].parent is None,
    ensures
        spec_effective_access(ns, i) == ns[i].access,
{
    assert(spec_ancestors(ns, i) == Seq::<Seq<char>>::empty());
    assert(inherited_grants(ns, Seq::<Seq<char>>::empty()) == Seq::<GrantView>::empty());
}

/// Inheritance only adds: the effective access of a page keeps its own
/// owner and base visibility (a private page under a public ancestor stays
/// private), keeps each of its own grants at least at its level, and holds
/// every grant of every ancestor at least at that grant's level. So whoever
/// may see or edit a page by its own access may do so by its effective
/// access too.
pub proof fn lemma_inheritance_only_widens(ns: Seq<GraphNodeView>, i: int, c: ContextView)
    requires
        0 <= i < ns.len(),
    ensures
        spec_effective_access(ns, i).owner == ns[i].access.owner,
        spec_effective_access(ns, i).base_visibility == ns[i].access.base_visibility,
        grants_covered(ns[i].access.grants, spec_effective_access(ns, i).grants),
        grants_covered(
            inherited_grants(ns, spec_ancestors(ns, i)),
            spec_effective_access(ns, i).grants,
        ),
        spec_can_see_page(c, ns[i].access) ==> spec_can_see_page(c, spec_effective_access(ns, i)),
        spec_can_edit_page(c, ns[i].access) ==> spec_can_edit_page(c, spec_effective_access(ns, i)),
        spec_can_manage_grants(c, spec_effective_access(ns, i)) == spec_can_manage_grants(
            c,
            ns[i].access,
        ),
{
    let own = ns[i].access;
    let eff = spec_effective_access(ns, i);
    lemma_union_all_covers(own.grants, inherited_grants(ns, spec_ancestors(ns, i)));
    if grant_reaches(c, own, Level::View) {
        lemma_covered_reaches(c, own, eff, Level::View);
    }
    if grant_reaches(c, own, Level::Edit) {
        lemma_covered_reaches(c, own, eff, Level::Edit);
    }
}

/// The grants an ancestor holds reach its descendants: every grant of the
/// first node named by an ancestor slug is in the page's effective access
/// at least at its level.
pub proof fn lemma_ancestor_grants_inherited(ns: Seq<GraphNodeView>, i: int, k: int)
    requires
        0 <= i < ns.len(),
        0 <= k < spec_ancestors(ns, i).len(),
        first_with_slug(ns, spec_ancestors(ns, i)[k]) is Some,
    ensures
        grants_covered(
            ns[first_with_slug(ns, spec_ancestors(ns, i)[k])->0].access.grants,
            spec_effective_access(ns, i).grants,
        ),
{
    let chain = spec_ancestors(ns, i);
    let a = first_with_slug(ns, chain[k])->0;
    lemma_inherited_grants_contain(ns, chain, k);
    lemma_union_all_covers(ns[i].access.grants, inherited_grants(ns, chain));
    lemma_covered_trans(
        ns[a].access.grants,
        inherited_grants(ns, chain),
        spec_effective_access(ns, i).grants,
    );
}

/// The inherited grants hold those of each ancestor in the chain.
proof fn lemma_inherited_grants_contain(ns: Seq<GraphNodeView>, chain: Seq<Seq<char>>, k: int)
    requires
        0 <= k < chain.len(),
        first_with_slug(ns, chain[k]) is Some,
    ensures
        grants_covered(ns[first_with_slug(ns, chain[k])->0].access.grants, inherited_grants(ns, chain)),
    decreases chain.len(),
{
    reveal(grants_covered);
    let a = first_with_slug(ns, chain[k])->0;
    let gs = ns[a].access.grants;
    let prev = inherited_grants(ns, chain.drop_last());
    let all = inherited_grants(ns, chain);
    if k == chain.len() - 1 {
        assert(all == prev + gs);
        assert forall|j: int| 0 <= j < gs.len() implies exists|m: int|
            0 <= m < all.len() && (#[trigger] all[m]).principal == (#[trigger] gs[j]).principal
                && level_at_least(all[m].level, gs[j].level) by {
            assert(all[prev.len() + j] == gs[j]);
        }
    } else {
        assert(chain.drop_last()[k] == chain[k]);
        lemma_inherited_grants_contain(ns, chain.drop_last(), k);
        assert forall|j: int| 0 <= j < gs.len() implies exists|m: int|
            0 <= m < all.len() && (#[trigger] all[m]).principal == (#[trigger] gs[j]).principal
                && level_at_least(all[m].level, gs[j].level) by {
            let m = choose|m: int|
                0 <= m < prev.len() && (#[trigger] prev[m]).principal == (#[trigger] gs[j]).principal
                    && level_at_least(prev[m].level, gs[j].level);
            assert(all[m] == prev[m]);
        }
    }
}

/// The ancestor walk never repeats a slug and never returns to one already
/// visited, in particular the page's own slug: a cycle in a malformed store
/// is cut at its first repetition.
pub proof fn lemma_walk_distinct(
    ns: Seq<GraphNodeView>,
    cur: Option<Seq<char>>,
    visited: Seq<Seq<char>>,
    fuel: nat,
)
    ensures
        walk(ns, cur, visited, fuel).no_duplicates(),
        forall|k: int|
            0 <= k < walk(ns, cur, visited, fuel).len() ==> !visited.contains(
                #[trigger] walk(ns, cur, visited, fuel)[k],
            ),
    decreases fuel,
{
    if fuel > 0 {
        match cur {
            None => {},
            Some(p) => {
                if !visited.contains(p) {
                    match first_with_slug(ns, p) {
                        None => {},
                        Some(i) => {
                            let rest = walk(ns, ns[i].parent, visited.push(p), (fuel - 1) as nat);
                            lemma_walk_distinct(ns, ns[i].parent, visited.push(p), (fuel - 1) as nat);
                            let w = seq![p] + rest;
                            assert(w == walk(ns, cur, visited, fuel));
                            assert forall|k: int| 0 <= k < rest.len() implies rest[k] != p
                                && !visited.contains(#[trigger] rest[k]) by {
                                assert(!visited.push(p).contains(rest[k]));
                                assert(visited.push(p)[visited.len() as int] == p);
                                if visited.contains(rest[k]) {
                                    let m = choose|m: int| 0 <= m < visited.len() && visited[m] == rest[k];
                                    assert(visited.push(p)[m] == rest[k]);
                                }
                            }
                            assert forall|a: int, b: int| 0 <= a < b < w.len() implies w[a] != w[b] by {
                                if a == 0 {
                                    assert(w[b] == rest[b - 1]);
                                } else {
                                    assert(w[a] == rest[a - 1] && w[b] == rest[b - 1]);
                                }
                            }
                            assert forall|k: int| 0 <= k < w.len() implies !visited.contains(
                                #[trigger] w[k],
                            ) by {
                                if k > 0 {
                                    assert(w[k] == rest[k - 1]);
                                }
                            }
                        },
                    }
                }
            },
        }
    }
}

/// The ancestors of a page are distinct and exclude the page's own slug.
pub proof fn lemma_ancestors_distinct(ns: Seq<GraphNodeView>, i: int)
    requires
        0 <= i < ns.len(),
    ensures
        spec_ancestors(ns, i).no_duplicates(),
        !spec_ancestors(ns, i).contains(ns[i].slug),
{
    lemma_walk_distinct(ns, ns[i].parent, seq![ns[i].slug], ns.len());
    let w = spec_ancestors(ns, i);
    if w.contains(ns[i].slug) {
        let k = choose|k: int| 0 <= k < w.len() && w[k] == ns[i].slug;
        assert(seq![ns[i].slug][0] == w[k]);
        assert(seq![ns[i].slug].contains(w[k]));
    }
}

/// Every slug the walk visits names a node of the graph.
proof fn lemma_walk_nodes(ns: Seq<GraphNodeView>, cur: Option<Seq<char>>, visited: Seq<Seq<char>>, fuel: nat)
    ensures
        forall|j: int|
            0 <= j < walk(ns, cur, visited, fuel).len() ==> #[trigger] first_with_slug(
                ns,
                walk(ns, cur, visited, fuel)[j],
            ) is Some,
    decreases fuel,
{
    if fuel > 0 {
        match cur {
            None => {},
            Some(p) => if !visited.contains(p) {
                match first_with_slug(ns, p) {
                    None => {},
                    Some(i) => {
                        let rest = walk(ns, ns[i].parent, visited.push(p), (fuel - 1) as nat);
                        lemma_walk_nodes(ns, ns[i].parent, visited.push(p), (fuel - 1) as nat);
                        let w = walk(ns, cur, visited, fuel);
                        assert(w == seq![p] + rest);
                        assert forall|j: int| 0 <= j < w.len() implies #[trigger] first_with_slug(ns, w[j]) is Some by {
                            if j > 0 {
                                assert(w[j] == rest[j - 1]);
                            }
                        }
                    },
                }
            },
        }
    }
}

/// The ancestor walk of a page, even through a malformed parent cycle,
/// visits only slugs of nodes of the graph, each once and never the page's
/// own; so a page has fewer ancestors than the graph has nodes.
pub proof fn lemma_ancestors_are_nodes(ns: Seq<GraphNodeView>, i: int)
    requires
        0 <= i < ns.len(),
    ensures
        forall|j: int|
            0 <= j < spec_ancestors(ns, i).len() ==> exists|k: int|
                0 <= k < ns.len() && ns[k].slug == #[trigger] spec_ancestors(ns, i)[j],
        spec_ancestors(ns, i).len() < ns.len(),
{
    let w = spec_ancestors(ns, i);
    lemma_ancestors_distinct(ns, i);
    lemma_walk_nodes(ns, ns[i].parent, seq![ns[i].slug], ns.len());
    // The first node index of each ancestor.
    let idx = Seq::new(w.len(), |j: int| first_with_slug(ns, w[j])->0);
    assert forall|j: int| 0 <= j < w.len() implies 0 <= #[trigger] idx[j] < ns.len() && ns[idx[j]].slug
        == w[j] && idx[j] != i by {
        assert(first_with_slug(ns, w[j]) is Some);
        lemma_first_with_slug(ns, w[j]);
        assert(w.contains(w[j]));
    }
    assert forall|j: int| 0 <= j < w.len() implies exists|k: int|
        0 <= k < ns.len() && ns[k].slug == #[trigger] w[j] by {
        assert(ns[idx[j]].slug == w[j]);
    }
    assert(idx.no_duplicates()) by {
        assert forall|a: int, b: int| 0 <= a < idx.len() && 0 <= b < idx.len() && a != b implies idx[a]
            != idx[b] by {
            assert(ns[idx[a]].slug == w[a]);
            assert(ns[idx[b]].slug == w[b]);
        }
    }
    idx.unique_seq_to_set();
    let full = vstd::set_lib::set_int_range(0, ns.len() as int);
    vstd::set_lib::lemma_int_range(0, ns.len() as int);
    let others = full.remove(i);
    assert(idx.to_set().subset_of(others));
    vstd::set_lib::lemma_len_subset(idx.to_set(), others);
}

// ---------------------------------------------------------------------------
// Loading
// ---------------------------------------------------------------------------

/// The edges a loaded graph gets: each stored edge whose two pages have
/// nodes, in order, between the last nodes holding them.
pub open spec fn edges_from_data(ns: Seq<GraphNodeView>, es: Seq<GraphEdgeData>) -> Seq<(u32, u32, u8)>
    decreases es.len(),
{
    if es.len() == 0 {
        Seq::empty()
    } else {
        let rest = edges_from_data(ns, es.drop_last());
        let e = es.last();
        match (last_index_of(ns, e.source.0), last_index_of(ns, e.target.0)) {
            (Some(s), Some(t)) => rest.push((s as u32, t as u32, kind_code(e.kind))),
            _ => rest,
        }
    }
}

/// The views of stored nodes.
pub open spec fn node_data_view(v: Seq<GraphNodeData>) -> Seq<GraphNodeView> {
    Seq::new(v.len(), |i: int| v[i]@)
}

impl KnowledgeGraph {
    /// Builds the graph from stored data: every node in order, then every
    /// edge whose two pages have nodes.
    pub fn from_data(data: GraphData) -> (r: KnowledgeGraph)
        requires
            data.nodes@.len() < 0xffff_ffff,
            data.edges@.len() < 0xffff_ffff,
        ensures
            r.wf(),
            r@.nodes == node_data_view(data.nodes@),
            r@.edges == edges_from_data(node_data_view(data.nodes@), data.edges@),
    {
        let mut kg = KnowledgeGraph::new();
        let ghost nv = node_data_view(data.nodes@);
        let n = data.nodes.len();
        for i in 0..n
            invariant
                n == data.nodes@.len(),
                n < 0xffff_ffff,
                nv == node_data_view(data.nodes@),
                kg.wf(),
                kg@.nodes == nv.take(i as int),
                kg@.edges.len() == 0,
        {
            let d = &data.nodes[i];
            let node = GraphNode {
                page_id: d.page_id,
                slug: d.slug.duplicate(),
                title: d.title.clone(),
                summary: d.summary.clone(),
                visibility: d.visibility.duplicate(),
                access: d.access.duplicate(),
                page_type: d.page_type,
                parent: duplicate_opt_slug(&d.parent),
            };
            kg.add_node(node);
            assert(kg@.nodes =~= nv.take(i + 1));
        }
        assert(nv.take(n as int) =~= nv);
        let m = data.edges.len();
        for k in 0..m
            invariant
                m == data.edges@.len(),
                m < 0xffff_ffff,
                nv == node_data_view(data.nodes@),
                kg.wf(),
                kg@.nodes == nv,
                kg@.edges == edges_from_data(nv, data.edges@.take(k as int)),
        {
            proof {
                lemma_edges_from_data_len(nv, data.edges@.take(k as int));
            }
            let e = data.edges[k];
            kg.add_edge(&e.source, &e.target, e.kind);
            assert(data.edges@.take(k + 1).drop_last() =~= data.edges@.take(k as int));
            assert(data.edges@.take(k + 1).last() == e);
        }
        assert(data.edges@.take(m as int) =~= data.edges@);
        kg
    }
}

/// A loaded graph has at most as many edges as were stored.
proof fn lemma_edges_from_data_len(ns: Seq<GraphNodeView>, es: Seq<GraphEdgeData>)
    ensures
        edges_from_data(ns, es).len() <= es.len(),
    decreases es.len(),
{
    if es.len() > 0 {
        lemma_edges_from_data_len(ns, es.drop_last());
    }
}

/// Whether some edge of the graph goes from node `a` to node `b`.
pub open spec fn has_edge(g: GraphView, a: int, b: int) -> bool {
    exists|x: int| 0 <= x < g.edges.len() && (#[trigger] g.edges[x]).0 as int == a && g.edges[x].1 as int == b
}

/// A path from `p[0]` along edges of the graph, through nodes the caller
/// sees (all but the first).
#[verifier::opaque]
pub open spec fn visible_path(g: GraphView, c: ContextView, p: Seq<int>) -> bool {
    &&& p.len() >= 1
    &&& forall|k: int| 0 <= k < p.len() ==> 0 <= #[trigger] p[k] < g.nodes.len()
    &&& forall|k: int| 1 <= k < p.len() ==> node_visible(g, c, g.nodes[#[trigger] p[k]])
    &&& forall|k: int| 0 <= k < p.len() - 1 ==> #[trigger] has_edge(g, p[k], p[k + 1])
}

/// A path's prefix is a path, and its last step is an edge into a visible
/// node.
proof fn lemma_visible_path_step(g: GraphView, c: ContextView, p: Seq<int>)
    requires
        visible_path(g, c, p),
        p.len() >= 2,
    ensures
        visible_path(g, c, p.drop_last()),
        node_visible(g, c, g.nodes[p.last()]),
        has_edge(g, p[p.len() - 2], p.last()),
{
    reveal(visible_path);
    let q = p.drop_last();
    assert forall|k: int| 0 <= k < q.len() - 1 implies #[trigger] has_edge(g, q[k], q[k + 1]) by {
        assert(q[k] == p[k] && q[k + 1] == p[k + 1]);
        assert(has_edge(g, p[k], p[k + 1]));
    }
    assert forall|k: int| 1 <= k < q.len() implies node_visible(g, c, g.nodes[#[trigger] q[k]]) by {
        assert(q[k] == p[k]);
    }
    assert forall|k: int| 0 <= k < q.len() implies 0 <= #[trigger] q[k] < g.nodes.len() by {
        assert(q[k] == p[k]);
    }
    let m = p.len() - 2;
    assert(p[m + 1] == p.last());
    assert(has_edge(g, p[m], p[m + 1]));
}

/// One closure step of a walk: from a listed node above `max_depth`, an
/// edge to a visible node leads to a listed node one level down at most.
proof fn lemma_bfs_closure_step(
    g: GraphView,
    c: ContextView,
    root: int,
    max_depth: int,
    order: Seq<int>,
    depth: Seq<int>,
    kinds: Seq<u8>,
    j: int,
    x: int,
)
    requires
        bfs_tree(g, c, root, max_depth, order, depth, kinds),
        0 <= j < order.len(),
        0 <= x < g.edges.len(),
        g.edges[x].0 as int == order[j],
        depth[j] < max_depth,
        node_visible(g, c, g.nodes[g.edges[x].1 as int]),
    ensures
        exists|k: int|
            0 <= k < order.len() && order[k] == g.edges[x].1 as int && depth[k] <= depth[j] + 1,
{
    assert(g.edges[x].0 == order[j] as u32);
    let k = choose|k: int|
        0 <= k < order.len() && #[trigger] order[k] == g.edges[x].1 as int && depth[k] <= depth[j] + 1;
}

/// The breadth-first walk misses nothing: every node at the end of a path
/// of at most `max_depth` edges from the root through visible nodes is
/// listed, at a depth no greater than the path's length.
pub proof fn lemma_bfs_complete(
    g: GraphView,
    c: ContextView,
    root: int,
    max_depth: int,
    order: Seq<int>,
    depth: Seq<int>,
    kinds: Seq<u8>,
    p: Seq<int>,
)
    requires
        bfs_tree(g, c, root, max_depth, order, depth, kinds),
        visible_path(g, c, p),
        p[0] == root,
        p.len() - 1 <= max_depth,
    ensures
        exists|j: int| 0 <= j < order.len() && order[j] == p.last() && depth[j] <= p.len() - 1,
    decreases p.len(),
{
    reveal(visible_path);
    if p.len() == 1 {
        assert(order[0] == p.last() && depth[0] <= 0);
    } else {
        let q = p.drop_last();
        lemma_visible_path_step(g, c, p);
        assert(q[0] == root);
        lemma_bfs_complete(g, c, root, max_depth, order, depth, kinds, q);
        let j = choose|j: int| 0 <= j < order.len() && order[j] == q.last() && depth[j] <= q.len() - 1;
        let x = choose|x: int|
            0 <= x < g.edges.len() && (#[trigger] g.edges[x]).0 as int == p[p.len() - 2]
                && g.edges[x].1 as int == p.last();
        assert(q.last() == p[p.len() - 2]);
        assert(node_visible(g, c, g.nodes[g.edges[x].1 as int]));
        lemma_bfs_closure_step(g, c, root, max_depth, order, depth, kinds, j, x);
    }
}

} // verus!
