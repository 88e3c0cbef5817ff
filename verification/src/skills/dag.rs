//! The skill dependency graph: built on petgraph, with dependency resolution
//! in topological order, cycle detection and broken dependencies.
use vstd::prelude::*;
use petgraph::graph::{DiGraph, NodeIndex};
use crate::skills::format::{manifest_view, strs, SkillError, SkillManifest};
use crate::text::{append_chars, decimal, decimal_exec, push_str, str_eq, string_of};

verus! {

#[verifier::external_type_specification]
#[verifier::external_body]
#[verifier::reject_recursive_types(N)]
#[verifier::reject_recursive_types(E)]
#[verifier::reject_recursive_types(Ty)]
#[verifier::reject_recursive_types(Ix)]
pub struct ExGraph<N, E, Ty, Ix>(petgraph::graph::Graph<N, E, Ty, Ix>);

#[verifier::external_type_specification]
#[verifier::external_body]
pub struct ExDirected(petgraph::Directed);

/// The edges of a graph, in the order they were added.
pub uninterp spec fn graph_edges(g: DiGraph<(), ()>) -> Seq<(nat, nat)>;

/// The number of nodes of a graph; they are numbered from zero in the order
/// they were added.
pub uninterp spec fn graph_node_count(g: DiGraph<(), ()>) -> nat;

/// A new empty graph.
/// Trusted: `Graph::new` makes a graph without nodes or edges.
#[verifier::external_body]
fn graph_new() -> (g: DiGraph<(), ()>)
    ensures
        graph_node_count(g) == 0,
        graph_edges(g) == Seq::<(nat, nat)>::empty(),
{
    DiGraph::new()
}

/// Adds a node and returns its number.
/// Trusted: `Graph::add_node` appends a node whose index is the former node
/// count, leaving the edges; it panics only at the index type's limit, which
/// `requires` excludes.
#[verifier::external_body]
fn graph_add_node(g: &mut DiGraph<(), ()>) -> (i: usize)
    requires
        graph_node_count(*old(g)) < u32::MAX,
    ensures
        i == graph_node_count(*old(g)),
        graph_node_count(*final(g)) == graph_node_count(*old(g)) + 1,
        graph_edges(*final(g)) == graph_edges(*old(g)),
{
    g.add_node(()).index()
}

/// Adds an edge from `a` to `b`.
/// Trusted: `Graph::add_edge` appends the edge; it panics only for missing
/// nodes or at the index type's limit, which `requires` excludes.
#[verifier::external_body]
fn graph_add_edge(g: &mut DiGraph<(), ()>, a: usize, b: usize)
    requires
        a < graph_node_count(*old(g)),
        b < graph_node_count(*old(g)),
        graph_edges(*old(g)).len() < u32::MAX,
    ensures
        graph_node_count(*final(g)) == graph_node_count(*old(g)),
        graph_edges(*final(g)) == graph_edges(*old(g)).push((a as nat, b as nat)),
{
    g.add_edge(NodeIndex::new(a), NodeIndex::new(b), ());
}

/// The sources of the edges into `a`, the most recently added first.
pub open spec fn incoming(edges: Seq<(nat, nat)>, a: nat) -> Seq<nat>
    decreases edges.len(),
{
    if edges.len() == 0 {
        Seq::empty()
    } else {
        (if edges.last().1 == a {
            seq![edges.last().0]
        } else {
            Seq::empty()
        }) + incoming(edges.drop_last(), a)
    }
}

/// The targets of the edges out of `a`, the most recently added first.
pub open spec fn outgoing(edges: Seq<(nat, nat)>, a: nat) -> Seq<nat>
    decreases edges.len(),
{
    if edges.len() == 0 {
        Seq::empty()
    } else {
        (if edges.last().0 == a {
            seq![edges.last().1]
        } else {
            Seq::empty()
        }) + outgoing(edges.drop_last(), a)
    }
}

/// The neighbours of node `a` along edges in one direction.
/// Trusted: `Graph::neighbors_directed` lists, for a directed graph, the other
/// ends of the edges into (`Incoming`) or out of (`Outgoing`) the node, in
/// reverse order of their addition, as its documentation states. The node
/// must be one of the graph's, so that its index converts to petgraph's
/// `u32` index unchanged.
#[verifier::external_body]
fn graph_neighbors(g: &DiGraph<(), ()>, a: usize, into: bool) -> (r: Vec<usize>)
    requires
        a < graph_node_count(*g),
    ensures
        r@.map_values(|x: usize| x as nat) == if into {
            incoming(graph_edges(*g), a as nat)
        } else {
            outgoing(graph_edges(*g), a as nat)
        },
{
    let dir = if into {
        petgraph::Direction::Incoming
    } else {
        petgraph::Direction::Outgoing
    };
    g.neighbors_directed(NodeIndex::new(a), dir).map(|n| n.index()).collect()
}

/// What petgraph's topological sort returns for a graph's nodes and edges.
pub uninterp spec fn toposort_spec(n: nat, edges: Seq<(nat, nat)>) -> Result<Seq<nat>, nat>;

/// No entry of `order` comes before one with an edge into it.
pub open spec fn respects(edges: Seq<(nat, nat)>, order: Seq<nat>) -> bool {
    forall|i: int, j: int, e: int|
        #![trigger order[i], order[j], edges[e]]
        0 <= i < j < order.len() && 0 <= e < edges.len() ==> !(edges[e].0 == order[j] && edges[e].1
            == order[i])
}

/// No entry occurs twice.
pub open spec fn no_repeats(order: Seq<nat>) -> bool {
    forall|i: int, j: int| 0 <= i < j < order.len() ==> order[i] != order[j]
}

/// No edge runs from a node to itself.
pub open spec fn no_self_loops(edges: Seq<(nat, nat)>) -> bool {
    forall|e: int| 0 <= e < edges.len() ==> (#[trigger] edges[e]).0 != edges[e].1
}

/// Every node of `0..n` once, each before its successors (so no node is its
/// own successor).
pub open spec fn is_topological(n: nat, edges: Seq<(nat, nat)>, order: Seq<nat>) -> bool {
    &&& no_self_loops(edges)
    &&& order.len() == n
    &&& forall|k: int| 0 <= k < order.len() ==> order[k] < n
    &&& forall|x: nat| x < n ==> order.contains(x)
    &&& no_repeats(order)
    &&& respects(edges, order)
}

/// A topological order of the graph, or a node on a cycle.
/// Trusted: `petgraph::algo::toposort` returns the nodes in topological order
/// (each node once, before its successors) when the graph is acyclic, and
/// otherwise (self loops count as cycles) a cycle whose `node_id` is a node of
/// the graph; a graph with a cycle has no topological order. The result
/// depends on the graph alone and is named by `toposort_spec`. The sort is
/// iterative.
#[verifier::external_body]
fn graph_toposort(g: &DiGraph<(), ()>) -> (r: Result<Vec<usize>, usize>)
    ensures
        r matches Ok(v) ==> (toposort_spec(graph_node_count(*g), graph_edges(*g)) matches Ok(o)
            && o == v@.map_values(|x: usize| x as nat) && is_topological(
            graph_node_count(*g),
            graph_edges(*g),
            o,
        )),
        r matches Err(c) ==> (toposort_spec(graph_node_count(*g), graph_edges(*g)) matches Err(d)
            && d == c as nat && c < graph_node_count(*g)),
        r is Err ==> forall|o: Seq<nat>| !is_topological(graph_node_count(*g), graph_edges(*g), o),
{
    match petgraph::algo::toposort(g, None) {
        Ok(v) => Ok(v.iter().map(|i| i.index()).collect()),
        Err(c) => Err(c.node_id().index()),
    }
}

/// The edges of the graph as (source, target) pairs, in the order they were
/// added.
/// Trusted: `Graph::raw_edges` is the graph's edge array, indexed in the
/// order of `add_edge` (no edge is ever removed here); `Edge::source` and
/// `Edge::target` give its ends.
#[verifier::external_body]
fn graph_edge_list(g: &DiGraph<(), ()>) -> (r: Vec<(usize, usize)>)
    ensures
        r@.map_values(|e: (usize, usize)| (e.0 as nat, e.1 as nat)) == graph_edges(*g),
{
    g.raw_edges().iter().map(|e| (e.source().index(), e.target().index())).collect()
}

/// The largest graph whose components are searched: the search recurses
/// once per node along a path, so its depth is bounded to keep within the
/// stack.
pub const MAX_SCC_NODES: usize = 1000;

/// What petgraph's strongly-connected-components search returns.
pub uninterp spec fn scc_spec(n: nat, edges: Seq<(nat, nat)>) -> Seq<Seq<nat>>;

/// The strongly connected components of the graph.
/// Trusted: `petgraph::algo::tarjan_scc` lists the components as lists of
/// node indices; the result depends on the graph alone and is named by
/// `scc_spec`; every index is a node of the graph. The search recurses once
/// per node along a path, so `requires` bounds the graph's size.
#[verifier::external_body]
fn graph_sccs(g: &DiGraph<(), ()>) -> (r: Vec<Vec<usize>>)
    requires
        graph_node_count(*g) <= MAX_SCC_NODES,
    ensures
        r@.map_values(|c: Vec<usize>| c@.map_values(|x: usize| x as nat)) == scc_spec(
            graph_node_count(*g),
            graph_edges(*g),
        ),
        forall|i: int, j: int|
            0 <= i < r@.len() && 0 <= j < r@[i]@.len() ==> r@[i]@[j] < graph_node_count(*g),
{
    petgraph::algo::tarjan_scc(g).iter().map(|c| c.iter().map(|i| i.index()).collect()).collect()
}

/// The number of edges of the graph.
/// Trusted: `Graph::edge_count` returns how many edges were added.
#[verifier::external_body]
fn graph_edge_count(g: &DiGraph<(), ()>) -> (r: usize)
    ensures
        r == graph_edges(*g).len(),
{
    g.edge_count()
}

/// Skill node in the DAG
#[derive(Debug, Clone)]
pub struct SkillNode {
    /// Skill name
    pub name: String,
    /// Skill manifest (L0)
    pub manifest: SkillManifest,
}

/// DAG statistics
#[derive(Debug, Clone, Copy)]
pub struct DagStats {
    /// Number of skills (nodes)
    pub node_count: usize,
    /// Number of dependency edges
    pub edge_count: usize,
    /// Number of cycles detected
    pub cycle_count: usize,
    /// Number of skills with broken dependencies
    pub orphan_count: usize,
}

/// Skill dependency graph: node `i` of the graph carries `nodes[i]`, and an
/// edge runs from a dependency to the skill that needs it.
pub struct SkillDag {
    graph: DiGraph<(), ()>,
    nodes: Vec<SkillNode>,
}

/// The names of a list of nodes.
pub open spec fn names_of(nodes: Seq<SkillNode>) -> Seq<Seq<char>> {
    nodes.map_values(|n: SkillNode| n.name@)
}

/// The dependency lists of a list of manifests.
pub open spec fn deps_of(ms: Seq<SkillManifest>) -> Seq<Seq<Seq<char>>> {
    ms.map_values(|m: SkillManifest| strs(m.dependencies@))
}

/// How many dependencies the lists name in all.
pub open spec fn total_len(deps: Seq<Seq<Seq<char>>>) -> nat
    decreases deps.len(),
{
    if deps.len() == 0 {
        0
    } else {
        total_len(deps.drop_last()) + deps.last().len()
    }
}

/// The node a name resolves to: the last skill of that name, since a later
/// skill of the same name replaces an earlier one in the lookup.
pub open spec fn last_index(names: Seq<Seq<char>>, name: Seq<char>) -> Option<nat>
    decreases names.len(),
{
    if names.len() == 0 {
        None
    } else if names.last() == name {
        Some((names.len() - 1) as nat)
    } else {
        last_index(names.drop_last(), name)
    }
}

/// The edges added for one skill, whose node is `src`: one from each
/// dependency that names a node, in the order the dependencies are listed.
pub open spec fn skill_edges(names: Seq<Seq<char>>, deps: Seq<Seq<char>>, src: nat) -> Seq<
    (nat, nat),
>
    decreases deps.len(),
{
    if deps.len() == 0 {
        Seq::empty()
    } else {
        let prev = skill_edges(names, deps.drop_last(), src);
        match last_index(names, deps.last()) {
            Some(t) => prev.push((t, src)),
            None => prev,
        }
    }
}

/// The edges of the graph built from skills with these names and these
/// dependency lists, skill by skill.
pub open spec fn dag_edges(names: Seq<Seq<char>>, deps: Seq<Seq<Seq<char>>>) -> Seq<(nat, nat)>
    decreases deps.len(),
{
    if deps.len() == 0 {
        Seq::empty()
    } else {
        let i = deps.len() - 1;
        dag_edges(names, deps.drop_last()) + match last_index(names, names[i]) {
            Some(src) => skill_edges(names, deps.last(), src),
            None => Seq::empty(),
        }
    }
}

proof fn lemma_last_index(names: Seq<Seq<char>>, name: Seq<char>)
    ensures
        last_index(names, name) matches Some(i) ==> i < names.len() && names[i as int] == name
            && forall|j: int| i < j < names.len() ==> names[j] != name,
        last_index(names, name) is None ==> forall|j: int| 0 <= j < names.len() ==> names[j] != name,
    decreases names.len(),
{
    if names.len() > 0 {
        let pre = names.drop_last();
        lemma_last_index(pre, name);
        assert forall|j: int| 0 <= j < pre.len() implies pre[j] == names[j] by {}
    }
}

proof fn lemma_last_index_of_member(names: Seq<Seq<char>>, i: int)
    requires
        0 <= i < names.len(),
    ensures
        last_index(names, names[i]) matches Some(j) && i <= j < names.len(),
{
    lemma_last_index(names, names[i]);
}

proof fn lemma_skill_edges_len(names: Seq<Seq<char>>, deps: Seq<Seq<char>>, src: nat)
    ensures
        skill_edges(names, deps, src).len() <= deps.len(),
        forall|e: int|
            0 <= e < skill_edges(names, deps, src).len() ==> (#[trigger] skill_edges(names, deps, src)[e]).0
                < names.len() && skill_edges(names, deps, src)[e].1 == src,
    decreases deps.len(),
{
    if deps.len() > 0 {
        lemma_skill_edges_len(names, deps.drop_last(), src);
        lemma_last_index(names, deps.last());
    }
}

proof fn lemma_dag_edges_len(names: Seq<Seq<char>>, deps: Seq<Seq<Seq<char>>>)
    requires
        deps.len() <= names.len(),
    ensures
        dag_edges(names, deps).len() <= total_len(deps),
        forall|e: int|
            0 <= e < dag_edges(names, deps).len() ==> (#[trigger] dag_edges(names, deps)[e]).0
                < names.len() && dag_edges(names, deps)[e].1 < names.len(),
    decreases deps.len(),
{
    if deps.len() > 0 {
        let i = deps.len() - 1;
        lemma_dag_edges_len(names, deps.drop_last());
        lemma_last_index_of_member(names, i);
        let src = last_index(names, names[i]).unwrap();
        lemma_skill_edges_len(names, deps.last(), src);
        let a = dag_edges(names, deps.drop_last());
        let b = skill_edges(names, deps.last(), src);
        assert forall|e: int| 0 <= e < (a + b).len() implies (#[trigger] (a + b)[e]).0 < names.len()
            && (a + b)[e].1 < names.len() by {
            if e >= a.len() {
                assert((a + b)[e] == b[e - a.len()]);
            }
        }
    }
}

proof fn lemma_total_len_prefix(deps: Seq<Seq<Seq<char>>>, i: int)
    requires
        0 <= i < deps.len(),
    ensures
        total_len(deps.take(i)) + deps[i].len() == total_len(deps.take(i + 1)),
        total_len(deps.take(i + 1)) <= total_len(deps),
    decreases deps.len() - i,
{
    assert(deps.take(i + 1).drop_last() =~= deps.take(i));
    if i + 1 < deps.len() {
        lemma_total_len_prefix(deps, i + 1);
    } else {
        assert(deps.take(i + 1) =~= deps);
    }
}

/// The node a name resolves to among the nodes built so far.
fn find_last(nodes: &Vec<SkillNode>, name: &str) -> (r: Option<usize>)
    ensures
        match r {
            Some(i) => last_index(names_of(nodes@), name@) == Some(i as nat),
            None => last_index(names_of(nodes@), name@) is None,
        },
{
    let ghost names = names_of(nodes@);
    let mut i: usize = nodes.len();
    assert(names.take(i as int) =~= names);
    while i > 0
        invariant
            i <= nodes@.len(),
            names == names_of(nodes@),
            last_index(names, name@) == last_index(names.take(i as int), name@),
        decreases i,
    {
        let ghost pre = names.take(i as int);
        assert(pre.drop_last() =~= names.take(i - 1));
        if str_eq(nodes[i - 1].name.as_str(), name) {
            return Some(i - 1);
        }
        i = i - 1;
    }
    None
}

/// A manifest as its parts: name, description, version, dependencies, tags,
/// platforms.
pub type ManifestView = (
    Seq<char>,
    Seq<char>,
    Seq<char>,
    Seq<Seq<char>>,
    Seq<Seq<char>>,
    Seq<Seq<char>>,
);

impl SkillDag {
    /// The names of the nodes, by node index.
    pub closed spec fn node_names(self) -> Seq<Seq<char>> {
        names_of(self.nodes@)
    }

    /// The manifests of the nodes, by node index.
    pub closed spec fn node_manifests(self) -> Seq<ManifestView> {
        self.nodes@.map_values(|n: SkillNode| manifest_view(n.manifest))
    }

    /// The dependency lists of the nodes, by node index.
    pub closed spec fn node_deps(self) -> Seq<Seq<Seq<char>>> {
        self.nodes@.map_values(|n: SkillNode| strs(n.manifest.dependencies@))
    }

    /// The dependency edges, in the order they were added.
    pub closed spec fn edges(self) -> Seq<(nat, nat)> {
        graph_edges(self.graph)
    }

    /// One node per skill, edges between nodes, and each node named as its
    /// manifest.
    pub closed spec fn well_formed(self) -> bool {
        &&& graph_node_count(self.graph) == self.nodes@.len()
        &&& self.nodes@.len() < u32::MAX
        &&& self.edges().len() < u32::MAX
        &&& forall|e: int|
            0 <= e < self.edges().len() ==> (#[trigger] self.edges()[e]).0 < self.nodes@.len()
                && self.edges()[e].1 < self.nodes@.len()
        &&& forall|i: int|
            0 <= i < self.nodes@.len() ==> (#[trigger] self.nodes@[i]).name@
                == self.nodes@[i].manifest.name@
    }

    /// Build a skill DAG from a list of skill manifests
    ///
    /// Creates nodes for all skills and edges for dependencies: an edge from
    /// each dependency that names a skill to the skill that lists it.
    /// Dependencies naming no skill get no edge (see `find_orphans`).
    pub fn build(skills: &[SkillManifest]) -> (dag: Self)
        requires
            skills@.len() < u32::MAX,
            total_len(deps_of(skills@)) < u32::MAX,
        ensures
            dag.well_formed(),
            dag.node_names() == skills@.map_values(|m: SkillManifest| m.name@),
            dag.node_manifests() == skills@.map_values(|m: SkillManifest| manifest_view(m)),
            dag.node_deps() == deps_of(skills@),
            dag.edges() == dag_edges(dag.node_names(), deps_of(skills@)),
    {
        let mut graph = graph_new();
        let mut nodes: Vec<SkillNode> = Vec::new();
        let mut i: usize = 0;
        while i < skills.len()
            invariant
                i <= skills@.len(),
                skills@.len() < u32::MAX,
                graph_node_count(graph) == i,
                graph_edges(graph) == Seq::<(nat, nat)>::empty(),
                nodes@.len() == i,
                forall|k: int|
                    0 <= k < i ==> (#[trigger] nodes@[k]).name@ == skills@[k].name@ && manifest_view(
                        nodes@[k].manifest,
                    ) == manifest_view(skills@[k]),
            decreases skills.len() - i,
        {
            let _ = graph_add_node(&mut graph);
            let m = skills[i].duplicate();
            nodes.push(SkillNode { name: skills[i].name.clone(), manifest: m });
            i = i + 1;
        }
        let ghost names = names_of(nodes@);
        let ghost deps = deps_of(skills@);
        assert(names =~= skills@.map_values(|m: SkillManifest| m.name@));
        assert(deps.take(0) =~= Seq::<Seq<Seq<char>>>::empty());
        let mut i: usize = 0;
        while i < skills.len()
            invariant
                i <= skills@.len(),
                names == names_of(nodes@),
                names == skills@.map_values(|m: SkillManifest| m.name@),
                deps == deps_of(skills@),
                nodes@.len() == skills@.len(),
                graph_node_count(graph) == nodes@.len(),
                graph_edges(graph) == dag_edges(names, deps.take(i as int)),
                total_len(deps) < u32::MAX,
            decreases skills.len() - i,
        {
            let found = find_last(&nodes, skills[i].name.as_str());
            proof {
                lemma_last_index_of_member(names, i as int);
            }
            let src = found.unwrap();
            let ds = &skills[i].dependencies;
            let ghost di = deps[i as int];
            assert(di =~= strs(ds@));
            assert(di.take(0) =~= Seq::<Seq<char>>::empty());
            let mut j: usize = 0;
            while j < ds.len()
                invariant
                    i < skills@.len(),
                    j <= ds@.len(),
                    names == names_of(nodes@),
                    nodes@.len() == skills@.len(),
                    names.len() == skills@.len(),
                    deps.len() == skills@.len(),
                    di == deps[i as int],
                    di == strs(ds@),
                    src < nodes@.len(),
                    graph_node_count(graph) == nodes@.len(),
                    graph_edges(graph) == dag_edges(names, deps.take(i as int)) + skill_edges(
                        names,
                        di.take(j as int),
                        src as nat,
                    ),
                    total_len(deps) < u32::MAX,
                decreases ds.len() - j,
            {
                proof {
                    assert(di.take(j + 1).drop_last() =~= di.take(j as int));
                    lemma_dag_edges_len(names, deps.take(i as int));
                    lemma_skill_edges_len(names, di.take(j as int), src as nat);
                    lemma_total_len_prefix(deps, i as int);
                }
                let t = find_last(&nodes, ds[j].as_str());
                proof {
                    lemma_last_index(names, di[j as int]);
                }
                match t {
                    Some(t) => {
                        graph_add_edge(&mut graph, t, src);
                    },
                    None => {},
                }
                j = j + 1;
            }
            proof {
                assert(di.take(ds.len() as int) =~= di);
                assert(deps.take(i + 1).drop_last() =~= deps.take(i as int));
            }
            i = i + 1;
        }
        proof {
            assert(deps.take(skills.len() as int) =~= deps);
            lemma_dag_edges_len(names, deps);
        }
        let dag = SkillDag { graph, nodes };
        assert(dag.node_manifests() =~= skills@.map_values(|m: SkillManifest| manifest_view(m)));
        assert(dag.node_deps() =~= deps_of(skills@));
        dag
    }
}

/// The names of the given nodes.
pub open spec fn names_at(names: Seq<Seq<char>>, ids: Seq<nat>) -> Seq<Seq<char>> {
    ids.map_values(|x: nat| names[x as int])
}

/// Each name once, at its last occurrence among the first `k` nodes, in node
/// order.
pub open spec fn distinct_names(names: Seq<Seq<char>>, k: int) -> Seq<Seq<char>>
    decreases k,
{
    if k <= 0 {
        Seq::empty()
    } else {
        let prev = distinct_names(names, k - 1);
        if last_index(names, names[k - 1]) == Some((k - 1) as nat) {
            prev.push(names[k - 1])
        } else {
            prev
        }
    }
}

/// The dependencies of one skill that name no skill, each paired with the
/// skill's name.
pub open spec fn missing_deps(names: Seq<Seq<char>>, skill: Seq<char>, deps: Seq<Seq<char>>) -> Seq<
    (Seq<char>, Seq<char>),
>
    decreases deps.len(),
{
    if deps.len() == 0 {
        Seq::empty()
    } else {
        let prev = missing_deps(names, skill, deps.drop_last());
        if last_index(names, deps.last()) is None {
            prev.push((skill, deps.last()))
        } else {
            prev
        }
    }
}

/// The broken dependencies of all skills, node by node.
pub open spec fn orphans_spec(names: Seq<Seq<char>>, deps: Seq<Seq<Seq<char>>>) -> Seq<
    (Seq<char>, Seq<char>),
>
    decreases deps.len(),
{
    if deps.len() == 0 {
        Seq::empty()
    } else {
        orphans_spec(names, deps.drop_last()) + missing_deps(
            names,
            names[deps.len() - 1],
            deps.last(),
        )
    }
}

/// The views of a list of string pairs.
pub open spec fn pair_views(v: Seq<(String, String)>) -> Seq<(Seq<char>, Seq<char>)> {
    v.map_values(|p: (String, String)| (p.0@, p.1@))
}

impl SkillDag {
    /// The names of the given nodes, as strings.
    fn names_of_ids(&self, ids: &Vec<usize>) -> (r: Vec<String>)
        requires
            forall|k: int| 0 <= k < ids@.len() ==> ids@[k] < self.nodes@.len(),
        ensures
            strs(r@) == names_at(self.node_names(), ids@.map_values(|x: usize| x as nat)),
    {
        let mut out: Vec<String> = Vec::new();
        let mut k: usize = 0;
        while k < ids.len()
            invariant
                k <= ids@.len(),
                forall|m: int| 0 <= m < ids@.len() ==> ids@[m] < self.nodes@.len(),
                out@.len() == k,
                forall|m: int| 0 <= m < k ==> (#[trigger] out@[m])@ == self.nodes@[ids@[m] as int].name@,
            decreases ids.len() - k,
        {
            out.push(self.nodes[ids[k]].name.clone());
            k = k + 1;
        }
        assert(strs(out@) =~= names_at(self.node_names(), ids@.map_values(|x: usize| x as nat)));
        out
    }

    /// Get a skill node by name
    pub fn get(&self, name: &str) -> (r: Option<&SkillNode>)
        ensures
            r is Some <==> last_index(self.node_names(), name@) is Some,
            r matches Some(n) ==> n.name@ == name@ && manifest_view(n.manifest)
                == self.node_manifests()[last_index(self.node_names(), name@).unwrap() as int],
    {
        match find_last(&self.nodes, name) {
            Some(i) => {
                proof {
                    lemma_last_index(self.node_names(), name@);
                }
                Some(&self.nodes[i])
            },
            None => None,
        }
    }

    /// Check if a skill exists in the DAG
    pub fn contains(&self, name: &str) -> (r: bool)
        ensures
            r == (last_index(self.node_names(), name@) is Some),
    {
        find_last(&self.nodes, name).is_some()
    }

    /// Get all skill names in the DAG, each once
    pub fn skill_names(&self) -> (r: Vec<String>)
        ensures
            strs(r@) == distinct_names(self.node_names(), self.node_names().len() as int),
    {
        let ghost names = self.node_names();
        let mut out: Vec<String> = Vec::new();
        let mut i: usize = 0;
        while i < self.nodes.len()
            invariant
                i <= self.nodes@.len(),
                names == self.node_names(),
                strs(out@) == distinct_names(names, i as int),
            decreases self.nodes.len() - i,
        {
            let found = find_last(&self.nodes, self.nodes[i].name.as_str());
            proof {
                lemma_last_index_of_member(names, i as int);
            }
            if found == Some(i) {
                out.push(self.nodes[i].name.clone());
                assert(strs(out@) =~= distinct_names(names, i as int).push(names[i as int]));
            }
            i = i + 1;
        }
        out
    }

    /// Get dependencies of a skill: the skills it lists that exist, the
    /// latest added edge first
    pub fn get_dependencies(&self, name: &str) -> (r: Option<Vec<String>>)
        requires
            self.well_formed(),
        ensures
            match last_index(self.node_names(), name@) {
                Some(i) => r matches Some(v) && strs(v@) == names_at(
                    self.node_names(),
                    incoming(self.edges(), i),
                ),
                None => r is None,
            },
    {
        self.neighbor_names(name, true)
    }

    /// Get dependents of a skill (skills that depend on it), the latest added
    /// edge first
    pub fn get_dependents(&self, name: &str) -> (r: Option<Vec<String>>)
        requires
            self.well_formed(),
        ensures
            match last_index(self.node_names(), name@) {
                Some(i) => r matches Some(v) && strs(v@) == names_at(
                    self.node_names(),
                    outgoing(self.edges(), i),
                ),
                None => r is None,
            },
    {
        self.neighbor_names(name, false)
    }

    fn neighbor_names(&self, name: &str, into: bool) -> (r: Option<Vec<String>>)
        requires
            self.well_formed(),
        ensures
            match last_index(self.node_names(), name@) {
                Some(i) => r matches Some(v) && strs(v@) == names_at(
                    self.node_names(),
                    if into {
                        incoming(self.edges(), i)
                    } else {
                        outgoing(self.edges(), i)
                    },
                ),
                None => r is None,
            },
    {
        match find_last(&self.nodes, name) {
            Some(i) => {
                proof {
                    lemma_last_index(self.node_names(), name@);
                }
                let ids = graph_neighbors(&self.graph, i, into);
                proof {
                    lemma_neighbors_are_nodes(self.edges(), i as nat, self.nodes@.len());
                    assert forall|k: int| 0 <= k < ids@.len() implies ids@[k] < self.nodes@.len() by {
                        assert(ids@.map_values(|x: usize| x as nat)[k] == ids@[k] as nat);
                    }
                }
                Some(self.names_of_ids(&ids))
            },
            None => None,
        }
    }

    /// Find skills with broken dependencies: (skill name, missing dependency)
    /// pairs, node by node
    pub fn find_orphans(&self) -> (r: Vec<(String, String)>)
        requires
            self.well_formed(),
        ensures
            pair_views(r@) == orphans_spec(self.node_names(), self.node_deps()),
    {
        let ghost names = self.node_names();
        let ghost deps = self.node_deps();
        let mut out: Vec<(String, String)> = Vec::new();
        let mut i: usize = 0;
        assert(deps.take(0) =~= Seq::<Seq<Seq<char>>>::empty());
        while i < self.nodes.len()
            invariant
                i <= self.nodes@.len(),
                names == self.node_names(),
                deps == self.node_deps(),
                deps.len() == self.nodes@.len(),
                pair_views(out@) == orphans_spec(names, deps.take(i as int)),
            decreases self.nodes.len() - i,
        {
            let node = &self.nodes[i];
            let ds = &node.manifest.dependencies;
            let ghost di = deps[i as int];
            let ghost base = pair_views(out@);
            assert(di =~= strs(ds@));
            assert(di.take(0) =~= Seq::<Seq<char>>::empty());
            let mut j: usize = 0;
            while j < ds.len()
                invariant
                    i < self.nodes@.len(),
                    node == self.nodes@[i as int],
                    ds == node.manifest.dependencies,
                    j <= ds@.len(),
                    names == self.node_names(),
                    di == strs(ds@),
                    pair_views(out@) == base + missing_deps(names, names[i as int], di.take(j as int)),
                decreases ds.len() - j,
            {
                assert(di.take(j + 1).drop_last() =~= di.take(j as int));
                assert(di.take(j + 1).last() == ds@[j as int]@);
                let found = find_last(&self.nodes, ds[j].as_str());
                let ghost before = out@;
                if found.is_none() {
                    out.push((node.name.clone(), ds[j].clone()));
                    assert(names[i as int] == node.name@);
                    assert(pair_views(out@) =~= pair_views(before).push((node.name@, ds@[j as int]@)));
                }
                assert(pair_views(out@) =~= base + missing_deps(names, names[i as int], di.take(j + 1)));
                j = j + 1;
            }
            proof {
                assert(di.take(ds.len() as int) =~= di);
                assert(deps.take(i + 1).drop_last() =~= deps.take(i as int));
            }
            i = i + 1;
        }
        assert(deps.take(self.nodes.len() as int) =~= deps);
        out
    }
}

proof fn lemma_neighbors_are_nodes(edges: Seq<(nat, nat)>, a: nat, n: nat)
    requires
        forall|e: int| 0 <= e < edges.len() ==> (#[trigger] edges[e]).0 < n && edges[e].1 < n,
    ensures
        forall|k: int| 0 <= k < incoming(edges, a).len() ==> #[trigger] incoming(edges, a)[k] < n,
        forall|k: int| 0 <= k < outgoing(edges, a).len() ==> #[trigger] outgoing(edges, a)[k] < n,
    decreases edges.len(),
{
    if edges.len() > 0 {
        let pre = edges.drop_last();
        assert forall|e: int| 0 <= e < pre.len() implies (#[trigger] pre[e]).0 < n && pre[e].1 < n by {
            assert(pre[e] == edges[e]);
        }
        lemma_neighbors_are_nodes(pre, a, n);
        let x = edges.last();
        let ins = incoming(edges, a);
        let outs = outgoing(edges, a);
        let hi: Seq<nat> = if x.1 == a { seq![x.0] } else { Seq::empty() };
        let ho: Seq<nat> = if x.0 == a { seq![x.1] } else { Seq::empty() };
        assert(ins == hi + incoming(pre, a));
        assert(outs == ho + outgoing(pre, a));
        assert forall|k: int| 0 <= k < ins.len() implies #[trigger] ins[k] < n by {
            if k >= hi.len() {
                assert(ins[k] == incoming(pre, a)[k - hi.len()]);
            }
        }
        assert forall|k: int| 0 <= k < outs.len() implies #[trigger] outs[k] < n by {
            if k >= ho.len() {
                assert(outs[k] == outgoing(pre, a)[k - ho.len()]);
            }
        }
    }
}

/// Step `k` of the walk `p` follows an edge.
pub open spec fn walk_step(edges: Seq<(nat, nat)>, p: Seq<nat>, k: int) -> bool {
    edges.contains((p[k], p[k + 1]))
}

/// `p` is a walk along edges: a node, then each next node along an edge.
pub open spec fn is_walk(edges: Seq<(nat, nat)>, p: Seq<nat>) -> bool {
    &&& p.len() >= 1
    &&& forall|k: int| 0 <= k < p.len() - 1 ==> #[trigger] walk_step(edges, p, k)
}

/// Skill `root` needs skill `x`, itself or through other skills: a walk
/// leads from `x` to `root`.
pub open spec fn needed_by(edges: Seq<(nat, nat)>, x: nat, root: nat) -> bool {
    exists|p: Seq<nat>| #[trigger] is_walk(edges, p) && p[0] == x && p.last() == root
}

/// How many entries are set.
pub open spec fn count_true(s: Seq<bool>) -> nat
    decreases s.len(),
{
    if s.len() == 0 {
        0
    } else {
        count_true(s.drop_last()) + if s.last() {
            1nat
        } else {
            0nat
        }
    }
}

proof fn lemma_count_true_bound(s: Seq<bool>)
    ensures
        count_true(s) <= s.len(),
    decreases s.len(),
{
    if s.len() > 0 {
        lemma_count_true_bound(s.drop_last());
    }
}

proof fn lemma_count_true_set(s: Seq<bool>, i: int)
    requires
        0 <= i < s.len(),
        !s[i],
    ensures
        count_true(s.update(i, true)) == count_true(s) + 1,
    decreases s.len(),
{
    let t = s.update(i, true);
    if i < s.len() - 1 {
        assert(t.drop_last() =~= s.drop_last().update(i, true));
        lemma_count_true_set(s.drop_last(), i);
    } else {
        assert(t.drop_last() =~= s.drop_last());
    }
}

proof fn lemma_incoming_edges(edges: Seq<(nat, nat)>, a: nat)
    ensures
        forall|k: int|
            0 <= k < incoming(edges, a).len() ==> edges.contains((#[trigger] incoming(edges, a)[k], a)),
        forall|e: int|
            0 <= e < edges.len() && (#[trigger] edges[e]).1 == a ==> incoming(edges, a).contains(
                edges[e].0,
            ),
    decreases edges.len(),
{
    if edges.len() > 0 {
        let pre = edges.drop_last();
        lemma_incoming_edges(pre, a);
        let x = edges.last();
        let ins = incoming(edges, a);
        let hi: Seq<nat> = if x.1 == a {
            seq![x.0]
        } else {
            Seq::empty()
        };
        assert(ins == hi + incoming(pre, a));
        assert forall|k: int| 0 <= k < ins.len() implies edges.contains((#[trigger] ins[k], a)) by {
            if k < hi.len() {
                assert(edges[edges.len() - 1] == (ins[k], a));
            } else {
                assert(ins[k] == incoming(pre, a)[k - hi.len()]);
                let e = choose|e: int| 0 <= e < pre.len() && pre[e] == (ins[k], a);
                assert(edges[e] == pre[e]);
            }
        }
        assert forall|e: int| 0 <= e < edges.len() && (#[trigger] edges[e]).1 == a implies ins.contains(
            edges[e].0,
        ) by {
            if e == edges.len() - 1 {
                assert(ins[0] == edges[e].0);
            } else {
                assert(pre[e] == edges[e]);
                let k = choose|k: int| 0 <= k < incoming(pre, a).len() && incoming(pre, a)[k] == edges[e].0;
                assert(ins[k + hi.len()] == edges[e].0);
            }
        }
    }
}

proof fn lemma_walk_prepend(edges: Seq<(nat, nat)>, p: Seq<nat>, u: nat)
    requires
        is_walk(edges, p),
        edges.contains((u, p[0])),
    ensures
        is_walk(edges, seq![u] + p),
        (seq![u] + p)[0] == u,
        (seq![u] + p).last() == p.last(),
{
    let q = seq![u] + p;
    assert forall|k: int| 0 <= k < q.len() - 1 implies #[trigger] walk_step(edges, q, k) by {
        if k > 0 {
            assert(walk_step(edges, p, k - 1));
            assert(q[k] == p[k - 1]);
            assert(q[k + 1] == p[k]);
        }
    }
}

proof fn lemma_walk_closed(edges: Seq<(nat, nat)>, p: Seq<nat>, vis: Seq<bool>)
    requires
        is_walk(edges, p),
        p.last() < vis.len(),
        vis[p.last() as int],
        forall|e: int|
            0 <= e < edges.len() ==> (#[trigger] edges[e]).0 < vis.len() && edges[e].1 < vis.len(),
        forall|e: int| 0 <= e < edges.len() && vis[(#[trigger] edges[e]).1 as int] ==> vis[edges[e].0 as int],
    ensures
        p[0] < vis.len(),
        vis[p[0] as int],
    decreases p.len(),
{
    if p.len() > 1 {
        let q = p.drop_first();
        assert forall|k: int| 0 <= k < q.len() - 1 implies #[trigger] walk_step(edges, q, k) by {
            assert(walk_step(edges, p, k + 1));
        }
        lemma_walk_closed(edges, q, vis);
        assert(walk_step(edges, p, 0));
        let e = choose|e: int| 0 <= e < edges.len() && edges[e] == (p[0], p[1]);
        assert(edges[e].1 == q[0]);
    }
}

impl SkillDag {
    /// Which nodes `root` needs, itself included.
    fn needed_nodes(&self, root: usize) -> (vis: Vec<bool>)
        requires
            self.well_formed(),
            root < self.nodes@.len(),
        ensures
            vis@.len() == self.nodes@.len(),
            forall|x: nat| x < self.nodes@.len() ==> (vis@[x as int] <==> needed_by(self.edges(), x, root as nat)),
    {
        let ghost edges = self.edges();
        let n = self.nodes.len();
        let mut vis: Vec<bool> = Vec::new();
        let mut i: usize = 0;
        while i < n
            invariant
                i <= n,
                vis@.len() == i,
                forall|k: int| 0 <= k < i ==> !vis@[k],
                count_true(vis@) == 0,
            decreases n - i,
        {
            let ghost prev = vis@;
            vis.push(false);
            assert(vis@.drop_last() =~= prev);
            i = i + 1;
        }
        proof {
            lemma_count_true_set(vis@, root as int);
            let p = seq![root as nat];
            assert(is_walk(edges, p));
        }
        vis.set(root, true);
        let mut stack: Vec<usize> = Vec::new();
        stack.push(root);
        let ghost mut count: nat = 1;
        proof {
            assert(stack@[0] == root);
            assert forall|e: int|
                0 <= e < edges.len() && vis@[(#[trigger] edges[e]).1 as int] && !stack@.contains(
                    edges[e].1 as usize,
                ) implies vis@[edges[e].0 as int] by {
                if edges[e].1 != root {
                    assert(vis@[edges[e].1 as int] == false);
                }
            }
            lemma_count_true_bound(vis@);
        }
        while stack.len() > 0
            invariant
                self.well_formed(),
                edges == self.edges(),
                n == self.nodes@.len(),
                root < n,
                vis@.len() == n,
                vis@[root as int],
                count == count_true(vis@),
                count <= n,
                forall|k: int| 0 <= k < stack@.len() ==> #[trigger] stack@[k] < n && vis@[stack@[k] as int],
                forall|a: int, b: int| 0 <= a < b < stack@.len() ==> stack@[a] != stack@[b],
                forall|x: int| 0 <= x < n && #[trigger] vis@[x] ==> needed_by(edges, x as nat, root as nat),
                forall|e: int|
                    0 <= e < edges.len() && vis@[(#[trigger] edges[e]).1 as int] && !stack@.contains(
                        edges[e].1 as usize,
                    ) ==> vis@[edges[e].0 as int],
            decreases (n - count) + stack@.len(),
        {
            let ghost old_stack = stack@;
            let v = stack.pop().unwrap();
            proof {
                assert(stack@ =~= old_stack.drop_last());
                assert forall|w: usize| !stack@.contains(w) && w != v implies !old_stack.contains(w) by {
                    if old_stack.contains(w) {
                        let k = choose|k: int| 0 <= k < old_stack.len() && old_stack[k] == w;
                        assert(k < old_stack.len() - 1);
                        assert(stack@[k] == w);
                    }
                }
                assert forall|k: int| 0 <= k < stack@.len() implies stack@[k] != v by {
                    assert(old_stack[k] != old_stack[old_stack.len() - 1]);
                }
            }
            let ghost c0 = count;
            let ghost s0 = stack@.len();
            let ins = graph_neighbors(&self.graph, v, true);
            proof {
                lemma_incoming_edges(edges, v as nat);
                lemma_neighbors_are_nodes(edges, v as nat, n as nat);
                assert(!stack@.contains(v));
            }
            let ghost ins_n = ins@.map_values(|x: usize| x as nat);
            let mut j: usize = 0;
            while j < ins.len()
                invariant
                    self.well_formed(),
                    edges == self.edges(),
                    n == self.nodes@.len(),
                    root < n,
                    v < n,
                    vis@[v as int],
                    needed_by(edges, v as nat, root as nat),
                    ins_n == ins@.map_values(|x: usize| x as nat),
                    ins_n == incoming(edges, v as nat),
                    forall|k: int| 0 <= k < ins_n.len() ==> edges.contains((#[trigger] ins_n[k], v as nat)),
                    forall|k: int| 0 <= k < ins_n.len() ==> #[trigger] ins_n[k] < n,
                    j <= ins@.len(),
                    forall|k: int| 0 <= k < j ==> vis@[#[trigger] ins@[k] as int],
                    vis@.len() == n,
                    count == count_true(vis@),
                    !stack@.contains(v),
                    vis@[root as int],
                    count - c0 == stack@.len() - s0,
                    forall|k: int| 0 <= k < stack@.len() ==> #[trigger] stack@[k] < n && vis@[stack@[k] as int],
                    forall|a: int, b: int| 0 <= a < b < stack@.len() ==> stack@[a] != stack@[b],
                    forall|x: int| 0 <= x < n && #[trigger] vis@[x] ==> needed_by(edges, x as nat, root as nat),
                    forall|e: int|
                        0 <= e < edges.len() && vis@[(#[trigger] edges[e]).1 as int] && !stack@.contains(
                            edges[e].1 as usize,
                        ) && edges[e].1 != v ==> vis@[edges[e].0 as int],
                decreases ins.len() - j,
            {
                let u = ins[j];
                assert(ins_n[j as int] == u as nat);
                let ghost vis0 = vis@;
                let ghost st0 = stack@;
                if !vis[u] {
                    proof {
                        lemma_count_true_set(vis@, u as int);
                        let p = choose|p: Seq<nat>| #[trigger] is_walk(edges, p) && p[0] == v as nat && p.last() == root as nat;
                        lemma_walk_prepend(edges, p, u as nat);
                        assert(is_walk(edges, seq![u as nat] + p));
                        count = count + 1;
                    }
                    vis.set(u, true);
                    stack.push(u);
                    proof {
                        assert forall|w: usize| !stack@.contains(w) implies !st0.contains(w) by {
                            if st0.contains(w) {
                                let k = choose|k: int| 0 <= k < st0.len() && st0[k] == w;
                                assert(stack@[k] == w);
                            }
                        }
                        assert forall|k: int| 0 <= k < st0.len() implies st0[k] != u by {
                            assert(vis0[st0[k] as int]);
                        }
                        assert(stack@[stack@.len() - 1] == u);
                    }
                }
                assert forall|k: int| 0 <= k < j + 1 implies vis@[#[trigger] ins@[k] as int] by {
                    assert(ins_n[k] == ins@[k] as nat);
                    if k < j {
                        assert(vis0[ins@[k] as int]);
                    } else {
                        assert(ins@[k] == u);
                    }
                }
                j = j + 1;
            }
            proof {
                assert forall|e: int|
                    0 <= e < edges.len() && vis@[(#[trigger] edges[e]).1 as int] && !stack@.contains(
                        edges[e].1 as usize,
                    ) implies vis@[edges[e].0 as int] by {
                    if edges[e].1 == v {
                        let k = choose|k: int| 0 <= k < ins_n.len() && ins_n[k] == edges[e].0;
                        assert(vis@[ins@[k] as int]);
                    }
                }
                lemma_count_true_bound(vis@);
            }
        }
        proof {
            assert forall|x: nat| x < n implies (vis@[x as int] <==> needed_by(edges, x, root as nat)) by {
                if needed_by(edges, x, root as nat) {
                    let p = choose|p: Seq<nat>| #[trigger] is_walk(edges, p) && p[0] == x && p.last() == root as nat;
                    lemma_walk_closed(edges, p, vis@);
                }
            }
        }
        vis
    }
}

/// The nodes of `order` that `root` needs, in that order.
pub open spec fn needed_in_order(edges: Seq<(nat, nat)>, order: Seq<nat>, root: nat) -> Seq<nat>
    decreases order.len(),
{
    if order.len() == 0 {
        Seq::empty()
    } else {
        let prev = needed_in_order(edges, order.drop_last(), root);
        if needed_by(edges, order.last(), root) {
            prev.push(order.last())
        } else {
            prev
        }
    }
}

/// The edges of `es` that lead into a skill that `root` needs.
pub open spec fn edges_into_needed(es: Seq<(nat, nat)>, edges: Seq<(nat, nat)>, root: nat) -> Seq<
    (nat, nat),
>
    decreases es.len(),
{
    if es.len() == 0 {
        Seq::empty()
    } else {
        let prev = edges_into_needed(es.drop_last(), edges, root);
        if needed_by(edges, es.last().1, root) {
            prev.push(es.last())
        } else {
            prev
        }
    }
}

/// The dependency edges among the skills that `root` needs: those leading
/// into one of them (their sources are then needed too).
pub open spec fn dependency_edges(edges: Seq<(nat, nat)>, root: nat) -> Seq<(nat, nat)> {
    edges_into_needed(edges, edges, root)
}

/// The skills that `root` needs cannot be put in an order with every
/// dependency first: some of them lie on a dependency cycle.
pub open spec fn needs_meet_cycle(n: nat, edges: Seq<(nat, nat)>, root: nat) -> bool {
    !exists|o: Seq<nat>| is_topological(n, dependency_edges(edges, root), o)
}

/// The sort a resolution of skill `name` rests on: the topological sort of
/// the graph of its dependency edges alone.
pub open spec fn resolution_sort(names: Seq<Seq<char>>, edges: Seq<(nat, nat)>, name: Seq<char>) -> Result<
    Seq<nat>,
    nat,
> {
    match last_index(names, name) {
        Some(root) => toposort_spec(names.len(), dependency_edges(edges, root)),
        None => Err(0),
    }
}

/// The message of a cycle found at node `c`.
pub open spec fn cycle_message(c: nat) -> Seq<char> {
    "Dependency cycle detected at node NodeIndex("@ + decimal(c) + ")"@
}

/// The answer to a request for the run order of skill `name` and what it
/// needs, given the result of a sort of the graph: the needed names in
/// sorted order, or (skill, message) for an unknown skill or a cycle.
pub open spec fn resolve_spec(
    names: Seq<Seq<char>>,
    edges: Seq<(nat, nat)>,
    name: Seq<char>,
    sorted: Result<Seq<nat>, nat>,
) -> Result<Seq<Seq<char>>, (Seq<char>, Seq<char>)> {
    match last_index(names, name) {
        None => Err((name, "Skill not found in DAG"@)),
        Some(root) => match sorted {
            Ok(order) => Ok(names_at(names, needed_in_order(edges, order, root))),
            Err(c) => Err((name, cycle_message(c))),
        },
    }
}

/// A sort result as node numbers.
pub open spec fn sort_view(r: Result<Vec<usize>, usize>) -> Result<Seq<nat>, nat> {
    match r {
        Ok(v) => Ok(v@.map_values(|x: usize| x as nat)),
        Err(c) => Err(c as nat),
    }
}

/// A list of names or a skill error, as plain values.
pub open spec fn names_result_view(r: Result<Vec<String>, SkillError>) -> Result<
    Seq<Seq<char>>,
    (Seq<char>, Seq<char>),
> {
    match r {
        Ok(v) => Ok(strs(v@)),
        Err(e) => Err((e.skill@, e.message@)),
    }
}

/// The components with more than one node, as lists of names.
pub open spec fn cycles_spec(names: Seq<Seq<char>>, sccs: Seq<Seq<nat>>) -> Seq<Seq<Seq<char>>>
    decreases sccs.len(),
{
    if sccs.len() == 0 {
        Seq::empty()
    } else {
        let prev = cycles_spec(names, sccs.drop_last());
        if sccs.last().len() > 1 {
            prev.push(names_at(names, sccs.last()))
        } else {
            prev
        }
    }
}

/// The views of a list of name lists.
pub open spec fn name_lists(v: Seq<Vec<String>>) -> Seq<Seq<Seq<char>>> {
    v.map_values(|c: Vec<String>| strs(c@))
}

impl SkillDag {
    /// The run order of skill `name` and what it needs, from the given sort
    /// of the whole graph: the needed skills in sorted order; an error for an
    /// unknown skill, or naming the node at which the sort found a cycle.
    pub fn order_from_sort(&self, name: &str, sorted: Result<Vec<usize>, usize>) -> (r: Result<
        Vec<String>,
        SkillError,
    >)
        requires
            self.well_formed(),
            sorted matches Ok(v) ==> forall|k: int| 0 <= k < v@.len() ==> v@[k] < self.node_names().len(),
        ensures
            names_result_view(r) == resolve_spec(
                self.node_names(),
                self.edges(),
                name@,
                sort_view(sorted),
            ),
    {
        let root = match find_last(&self.nodes, name) {
            Some(i) => i,
            None => {
                return Err(
                    SkillError {
                        skill: String::from_str(name),
                        message: String::from_str("Skill not found in DAG"),
                    },
                );
            },
        };
        proof {
            lemma_last_index(self.node_names(), name@);
        }
        match sorted {
            Ok(order) => {
                let vis = self.needed_nodes(root);
                let ghost edges = self.edges();
                let ghost on = order@.map_values(|x: usize| x as nat);
                let mut out: Vec<String> = Vec::new();
                let mut k: usize = 0;
                assert(on.take(0) =~= Seq::<nat>::empty());
                while k < order.len()
                    invariant
                        k <= order@.len(),
                        on == order@.map_values(|x: usize| x as nat),
                        forall|m: int| 0 <= m < order@.len() ==> order@[m] < self.nodes@.len(),
                        vis@.len() == self.nodes@.len(),
                        forall|x: nat|
                            x < self.nodes@.len() ==> (vis@[x as int] <==> needed_by(
                                edges,
                                x,
                                root as nat,
                            )),
                        edges == self.edges(),
                        strs(out@) == names_at(
                            self.node_names(),
                            needed_in_order(edges, on.take(k as int), root as nat),
                        ),
                    decreases order.len() - k,
                {
                    let x = order[k];
                    assert(on.take(k + 1).drop_last() =~= on.take(k as int));
                    assert(on.take(k + 1).last() == x as nat);
                    let ghost before = out@;
                    if vis[x] {
                        out.push(self.nodes[x].name.clone());
                        assert(strs(out@) =~= strs(before).push(self.node_names()[x as int]));
                    }
                    assert(strs(out@) =~= names_at(
                        self.node_names(),
                        needed_in_order(edges, on.take(k + 1), root as nat),
                    ));
                    k = k + 1;
                }
                assert(on.take(order.len() as int) =~= on);
                Ok(out)
            },
            Err(c) => {
                let mut msg: Vec<char> = Vec::new();
                push_str(&mut msg, "Dependency cycle detected at node NodeIndex(");
                let digits = decimal_exec(c as u64);
                append_chars(&mut msg, &digits);
                push_str(&mut msg, ")");
                Err(SkillError { skill: String::from_str(name), message: string_of(&msg) })
            },
        }
    }

    /// Resolve execution order for a skill and its dependencies
    ///
    /// Returns the skill and all it needs in topological order (dependencies
    /// first). If the skill or any of its dependencies is part of a cycle, or
    /// the skill is unknown, returns an error; cycles among other skills do
    /// not matter.
    pub fn resolve_order(&self, skill_name: &str) -> (r: Result<Vec<String>, SkillError>)
        requires
            self.well_formed(),
        ensures
            names_result_view(r) == resolve_spec(
                self.node_names(),
                self.edges(),
                skill_name@,
                resolution_sort(self.node_names(), self.edges(), skill_name@),
            ),
            last_index(self.node_names(), skill_name@) matches Some(root) ==> (r is Err
                <==> needs_meet_cycle(self.node_names().len(), self.edges(), root)),
            r is Ok ==> (last_index(self.node_names(), skill_name@) matches Some(root)
                && resolution_sort(self.node_names(), self.edges(), skill_name@) matches Ok(s)
                && is_topological(
                self.node_names().len(),
                dependency_edges(self.edges(), root),
                s,
            )),
    {
        let root = match find_last(&self.nodes, skill_name) {
            Some(i) => i,
            None => {
                return self.order_from_sort(skill_name, Err(0));
            },
        };
        proof {
            lemma_last_index(self.node_names(), skill_name@);
        }
        let ghost edges = self.edges();
        let vis = self.needed_nodes(root);
        let all = graph_edge_list(&self.graph);
        let ghost av = all@.map_values(|e: (usize, usize)| (e.0 as nat, e.1 as nat));
        let n = self.nodes.len();
        let mut sub = graph_new();
        let mut i: usize = 0;
        while i < n
            invariant
                i <= n,
                n == self.nodes@.len(),
                n < u32::MAX,
                graph_node_count(sub) == i,
                graph_edges(sub) == Seq::<(nat, nat)>::empty(),
            decreases n - i,
        {
            let _ = graph_add_node(&mut sub);
            i = i + 1;
        }
        let mut k: usize = 0;
        assert(av.take(0) =~= Seq::<(nat, nat)>::empty());
        while k < all.len()
            invariant
                k <= all@.len(),
                av == all@.map_values(|e: (usize, usize)| (e.0 as nat, e.1 as nat)),
                av == edges,
                edges == self.edges(),
                self.well_formed(),
                n == self.nodes@.len(),
                graph_node_count(sub) == n,
                vis@.len() == n,
                forall|x: nat| x < n ==> (vis@[x as int] <==> needed_by(edges, x, root as nat)),
                graph_edges(sub) == edges_into_needed(av.take(k as int), edges, root as nat),
                graph_edges(sub).len() <= k,
            decreases all.len() - k,
        {
            let (a, b) = all[k];
            assert(av[k as int] == (a as nat, b as nat));
            assert(edges[k as int] == av[k as int]);
            assert(av.take(k + 1).drop_last() =~= av.take(k as int));
            if vis[b] {
                graph_add_edge(&mut sub, a, b);
            }
            k = k + 1;
        }
        assert(av.take(all.len() as int) =~= av);
        let sorted = graph_toposort(&sub);
        proof {
            if sorted is Ok {
                let o = sorted->Ok_0@.map_values(|x: usize| x as nat);
                assert forall|m: int| 0 <= m < sorted->Ok_0@.len() implies sorted->Ok_0@[m]
                    < self.node_names().len() by {
                    assert(o[m] == sorted->Ok_0@[m] as nat);
                }
            } else {
                assert(!exists|o: Seq<nat>| is_topological(n as nat, dependency_edges(edges, root as nat), o));
            }
        }
        self.order_from_sort(skill_name, sorted)
    }

    /// The cycles among the given strongly connected components: those with
    /// more than one node, as lists of names.
    pub fn cycles_from_components(&self, sccs: &Vec<Vec<usize>>) -> (r: Vec<Vec<String>>)
        requires
            forall|i: int, j: int|
                0 <= i < sccs@.len() && 0 <= j < sccs@[i]@.len() ==> sccs@[i]@[j] < self.node_names().len(),
        ensures
            name_lists(r@) == cycles_spec(
                self.node_names(),
                sccs@.map_values(|c: Vec<usize>| c@.map_values(|x: usize| x as nat)),
            ),
    {
        let ghost cs = sccs@.map_values(|c: Vec<usize>| c@.map_values(|x: usize| x as nat));
        let mut out: Vec<Vec<String>> = Vec::new();
        let mut i: usize = 0;
        assert(cs.take(0) =~= Seq::<Seq<nat>>::empty());
        while i < sccs.len()
            invariant
                i <= sccs@.len(),
                cs == sccs@.map_values(|c: Vec<usize>| c@.map_values(|x: usize| x as nat)),
                forall|a: int, b: int|
                    0 <= a < sccs@.len() && 0 <= b < sccs@[a]@.len() ==> sccs@[a]@[b] < self.nodes@.len(),
                name_lists(out@) == cycles_spec(self.node_names(), cs.take(i as int)),
            decreases sccs.len() - i,
        {
            assert(cs.take(i + 1).drop_last() =~= cs.take(i as int));
            assert(cs.take(i + 1).last() == sccs@[i as int]@.map_values(|x: usize| x as nat));
            let ghost before = out@;
            if sccs[i].len() > 1 {
                let names = self.names_of_ids(&sccs[i]);
                out.push(names);
                assert(name_lists(out@) =~= name_lists(before).push(strs(names@)));
            }
            assert(name_lists(out@) =~= cycles_spec(self.node_names(), cs.take(i + 1)));
            i = i + 1;
        }
        assert(cs.take(sccs.len() as int) =~= cs);
        out
    }

    /// Detect cycles in the dependency graph
    ///
    /// Any strongly connected component with more than one node is a cycle;
    /// each is given as a list of skill names. The graph may hold at most
    /// `MAX_SCC_NODES` skills.
    pub fn detect_cycles(&self) -> (r: Vec<Vec<String>>)
        requires
            self.well_formed(),
            self.node_names().len() <= MAX_SCC_NODES,
        ensures
            name_lists(r@) == cycles_spec(
                self.node_names(),
                scc_spec(self.node_names().len(), self.edges()),
            ),
    {
        let sccs = graph_sccs(&self.graph);
        self.cycles_from_components(&sccs)
    }

    /// Get DAG statistics
    pub fn stats(&self) -> (r: DagStats)
        requires
            self.well_formed(),
            self.node_names().len() <= MAX_SCC_NODES,
        ensures
            r.node_count == self.node_names().len(),
            r.edge_count == self.edges().len(),
            r.cycle_count == cycles_spec(
                self.node_names(),
                scc_spec(self.node_names().len(), self.edges()),
            ).len(),
            r.orphan_count == orphans_spec(self.node_names(), self.node_deps()).len(),
    {
        let cycles = self.detect_cycles();
        let orphans = self.find_orphans();
        DagStats {
            node_count: self.nodes.len(),
            edge_count: graph_edge_count(&self.graph),
            cycle_count: cycles.len(),
            orphan_count: orphans.len(),
        }
    }
}

proof fn lemma_needed_in_order(edges: Seq<(nat, nat)>, t: Seq<nat>, root: nat)
    ensures
        forall|x: nat|
            #![trigger needed_in_order(edges, t, root).contains(x)]
            needed_in_order(edges, t, root).contains(x) <==> (t.contains(x) && needed_by(edges, x, root)),
        respects(edges, t) ==> respects(edges, needed_in_order(edges, t, root)),
        no_repeats(t) ==> no_repeats(needed_in_order(edges, t, root)),
    decreases t.len(),
{
    if t.len() > 0 {
        let pre = t.drop_last();
        let y = t.last();
        lemma_needed_in_order(edges, pre, root);
        let fp = needed_in_order(edges, pre, root);
        let f = needed_in_order(edges, t, root);
        assert forall|x: nat| t.contains(x) <==> (pre.contains(x) || x == y) by {
            if t.contains(x) {
                let k = choose|k: int| 0 <= k < t.len() && t[k] == x;
                if k < t.len() - 1 {
                    assert(pre[k] == x);
                }
            }
            if pre.contains(x) {
                let k = choose|k: int| 0 <= k < pre.len() && pre[k] == x;
                assert(t[k] == x);
            }
            if x == y {
                assert(t[t.len() - 1] == x);
            }
        }
        if needed_by(edges, y, root) {
            assert forall|x: nat| f.contains(x) <==> (fp.contains(x) || x == y) by {
                if f.contains(x) {
                    let k = choose|k: int| 0 <= k < f.len() && f[k] == x;
                    if k < f.len() - 1 {
                        assert(fp[k] == x);
                    }
                }
                if fp.contains(x) {
                    let k = choose|k: int| 0 <= k < fp.len() && fp[k] == x;
                    assert(f[k] == x);
                }
                if x == y {
                    assert(f[f.len() - 1] == x);
                }
            }
        }
        if respects(edges, t) {
            assert(respects(edges, pre)) by {
                assert forall|i: int, j: int, e: int|
                    0 <= i < j < pre.len() && 0 <= e < edges.len() implies !(edges[e].0 == pre[j]
                        && edges[e].1 == pre[i]) by {
                    assert(pre[i] == t[i] && pre[j] == t[j]);
                }
            }
            if needed_by(edges, y, root) {
                assert forall|i: int, j: int, e: int|
                    #![trigger f[i], f[j], edges[e]]
                    0 <= i < j < f.len() && 0 <= e < edges.len() implies !(edges[e].0 == f[j]
                        && edges[e].1 == f[i]) by {
                    if j < f.len() - 1 {
                        assert(f[i] == fp[i] && f[j] == fp[j]);
                    } else {
                        assert(f[i] == fp[i]);
                        assert(fp.contains(fp[i]));
                        let p = choose|p: int| 0 <= p < pre.len() && pre[p] == fp[i];
                        assert(t[p] == f[i] && t[t.len() - 1] == f[j]);
                    }
                }
            }
        }
        if no_repeats(t) {
            assert(no_repeats(pre)) by {
                assert forall|i: int, j: int| 0 <= i < j < pre.len() implies pre[i] != pre[j] by {
                    assert(pre[i] == t[i] && pre[j] == t[j]);
                }
            }
            if needed_by(edges, y, root) {
                assert forall|i: int, j: int| 0 <= i < j < f.len() implies f[i] != f[j] by {
                    if j < f.len() - 1 {
                        assert(f[i] == fp[i] && f[j] == fp[j]);
                    } else {
                        assert(fp.contains(fp[i]));
                        let p = choose|p: int| 0 <= p < pre.len() && pre[p] == fp[i];
                        assert(t[p] == f[i] && t[t.len() - 1] == f[j]);
                    }
                }
            }
        }
    }
}

proof fn lemma_dependency_edges_cover(es: Seq<(nat, nat)>, edges: Seq<(nat, nat)>, root: nat)
    ensures
        forall|e: int|
            0 <= e < es.len() && needed_by(edges, es[e].1, root) ==> #[trigger] edges_into_needed(
                es,
                edges,
                root,
            ).contains(es[e]),
    decreases es.len(),
{
    if es.len() > 0 {
        let pre = es.drop_last();
        lemma_dependency_edges_cover(pre, edges, root);
        let f = edges_into_needed(es, edges, root);
        let fp = edges_into_needed(pre, edges, root);
        assert forall|e: int| 0 <= e < es.len() && needed_by(edges, es[e].1, root) implies #[trigger] f.contains(
            es[e],
        ) by {
            if e < es.len() - 1 {
                assert(pre[e] == es[e]);
                assert(fp.contains(pre[e]));
                let k = choose|k: int| 0 <= k < fp.len() && fp[k] == pre[e];
                if needed_by(edges, es.last().1, root) {
                    assert(f[k] == fp[k]);
                } else {
                    assert(f == fp);
                }
            } else {
                assert(f[f.len() - 1] == es[e]);
            }
        }
    }
}

proof fn lemma_needed_in_order_respects(
    edges: Seq<(nat, nat)>,
    dep: Seq<(nat, nat)>,
    t: Seq<nat>,
    root: nat,
)
    requires
        respects(dep, t),
        forall|e: int|
            0 <= e < edges.len() && needed_by(edges, edges[e].1, root) ==> #[trigger] dep.contains(
                edges[e],
            ),
    ensures
        respects(edges, needed_in_order(edges, t, root)),
    decreases t.len(),
{
    if t.len() > 0 {
        let pre = t.drop_last();
        let y = t.last();
        assert(respects(dep, pre)) by {
            assert forall|i: int, j: int, e: int|
                0 <= i < j < pre.len() && 0 <= e < dep.len() implies !(dep[e].0 == pre[j]
                    && dep[e].1 == pre[i]) by {
                assert(pre[i] == t[i] && pre[j] == t[j]);
            }
        }
        lemma_needed_in_order_respects(edges, dep, pre, root);
        lemma_needed_in_order(edges, pre, root);
        let fp = needed_in_order(edges, pre, root);
        let f = needed_in_order(edges, t, root);
        if needed_by(edges, y, root) {
            assert forall|i: int, j: int, e: int|
                #![trigger f[i], f[j], edges[e]]
                0 <= i < j < f.len() && 0 <= e < edges.len() implies !(edges[e].0 == f[j]
                    && edges[e].1 == f[i]) by {
                if j < f.len() - 1 {
                    assert(f[i] == fp[i] && f[j] == fp[j]);
                } else if edges[e].0 == f[j] && edges[e].1 == f[i] {
                    assert(f[i] == fp[i]);
                    assert(fp.contains(fp[i]));
                    assert(needed_by(edges, edges[e].1, root));
                    assert(dep.contains(edges[e]));
                    let d = choose|d: int| 0 <= d < dep.len() && dep[d] == edges[e];
                    let p = choose|p: int| 0 <= p < pre.len() && pre[p] == fp[i];
                    assert(t[p] == f[i] && t[t.len() - 1] == f[j]);
                    assert(!(dep[d].0 == t[t.len() - 1] && dep[d].1 == t[p]));
                }
            }
        }
    }
}

/// What a skill resolves to, when the graph of its dependency edges sorts:
/// exactly the skills it needs (itself included), each once, and no skill
/// before one that it needs directly.
pub proof fn law_resolved_order(n: nat, edges: Seq<(nat, nat)>, sorted: Seq<nat>, root: nat)
    requires
        is_topological(n, dependency_edges(edges, root), sorted),
        root < n,
        forall|e: int| 0 <= e < edges.len() ==> (#[trigger] edges[e]).0 < n && edges[e].1 < n,
    ensures
        forall|x: nat|
            x < n ==> (needed_in_order(edges, sorted, root).contains(x) <==> needed_by(edges, x, root)),
        needed_in_order(edges, sorted, root).contains(root),
        no_repeats(needed_in_order(edges, sorted, root)),
        respects(edges, needed_in_order(edges, sorted, root)),
{
    lemma_needed_in_order(edges, sorted, root);
    lemma_dependency_edges_cover(edges, edges, root);
    lemma_needed_in_order_respects(edges, dependency_edges(edges, root), sorted, root);
    let p = seq![root];
    assert(is_walk(edges, p));
    assert(sorted.contains(root));
}

proof fn lemma_skill_edge_or_missing(names: Seq<Seq<char>>, skill: Seq<char>, deps: Seq<Seq<char>>, src: nat, j: int)
    requires
        0 <= j < deps.len(),
    ensures
        match last_index(names, deps[j]) {
            Some(t) => skill_edges(names, deps, src).contains((t, src)),
            None => missing_deps(names, skill, deps).contains((skill, deps[j])),
        },
    decreases deps.len(),
{
    let pre = deps.drop_last();
    if j < deps.len() - 1 {
        lemma_skill_edge_or_missing(names, skill, pre, src, j);
        assert(pre[j] == deps[j]);
        match last_index(names, deps[j]) {
            Some(t) => {
                let e = skill_edges(names, pre, src);
                let k = choose|k: int| 0 <= k < e.len() && e[k] == (t, src);
                assert(skill_edges(names, deps, src)[k] == (t, src));
            },
            None => {
                let m = missing_deps(names, skill, pre);
                let k = choose|k: int| 0 <= k < m.len() && m[k] == (skill, deps[j]);
                assert(missing_deps(names, skill, deps)[k] == (skill, deps[j]));
            },
        }
    } else {
        match last_index(names, deps[j]) {
            Some(t) => {
                let e = skill_edges(names, deps, src);
                assert(e[e.len() - 1] == (t, src));
            },
            None => {
                let m = missing_deps(names, skill, deps);
                assert(m[m.len() - 1] == (skill, deps[j]));
            },
        }
    }
}

/// Law: every dependency a skill lists either names a skill, and then the
/// graph has an edge from that skill to the one that lists it, or names none,
/// and then it is reported as broken for that skill.
pub proof fn law_dependency_edge_or_orphan(names: Seq<Seq<char>>, deps: Seq<Seq<Seq<char>>>, i: int, j: int)
    requires
        deps.len() <= names.len(),
        0 <= i < deps.len(),
        0 <= j < deps[i].len(),
    ensures
        match last_index(names, deps[i][j]) {
            Some(t) => dag_edges(names, deps).contains((t, last_index(names, names[i]).unwrap())),
            None => orphans_spec(names, deps).contains((names[i], deps[i][j])),
        },
    decreases deps.len(),
{
    let pre = deps.drop_last();
    let last = deps.len() - 1;
    lemma_last_index_of_member(names, i);
    if i < last {
        law_dependency_edge_or_orphan(names, pre, i, j);
        assert(pre[i] == deps[i]);
        match last_index(names, deps[i][j]) {
            Some(t) => {
                let e = dag_edges(names, pre);
                let k = choose|k: int| 0 <= k < e.len() && e[k] == (t, last_index(names, names[i]).unwrap());
                assert(dag_edges(names, deps)[k] == e[k]);
            },
            None => {
                let o = orphans_spec(names, pre);
                let k = choose|k: int| 0 <= k < o.len() && o[k] == (names[i], deps[i][j]);
                assert(orphans_spec(names, deps)[k] == o[k]);
            },
        }
    } else {
        let src = last_index(names, names[i]).unwrap();
        lemma_skill_edge_or_missing(names, names[i], deps[i], src, j);
        match last_index(names, deps[i][j]) {
            Some(t) => {
                let a = dag_edges(names, pre);
                let b = skill_edges(names, deps[i], src);
                let k = choose|k: int| 0 <= k < b.len() && b[k] == (t, src);
                assert((a + b)[a.len() + k] == (t, src));
            },
            None => {
                let a = orphans_spec(names, pre);
                let b = missing_deps(names, names[i], deps[i]);
                let k = choose|k: int| 0 <= k < b.len() && b[k] == (names[i], deps[i][j]);
                assert((a + b)[a.len() + k] == (names[i], deps[i][j]));
            },
        }
    }
}

} // verus!
