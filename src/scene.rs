use vstd::prelude::*;

verus! {

broadcast use {vstd::std_specs::vec::axiom_vec_index_decreases, vstd::std_specs::vec::axiom_vec_decreases_to_view};

/// A node of the scene tree. Groups and paths carry the caller's handle for the
/// node, through which the caller finds its transform and its geometry.
#[derive(Debug)]
pub enum SceneNode {
    Group { id: usize, children: Vec<SceneNode> },
    Path { id: usize },
    /// Any other kind of node; it and everything below it is skipped.
    Other,
}

/// A path reached by the walk, with the groups above it from the outermost down.
/// Its final transform is the initial transform followed by each of these groups'
/// transforms, in this order.
#[derive(Debug)]
pub struct PathVisit {
    pub path: usize,
    pub groups: Vec<usize>,
}

/// The paths below `n`, depth first, each in declaration order, with the group
/// chain that leads to them.
pub open spec fn visits(n: SceneNode, chain: Seq<usize>) -> Seq<(usize, Seq<usize>)>
    decreases n,
{
    match n {
        SceneNode::Group { id, children } => visits_list(children@, chain.push(id)),
        SceneNode::Path { id } => seq![(id, chain)],
        SceneNode::Other => Seq::empty(),
    }
}

pub open spec fn visits_list(ns: Seq<SceneNode>, chain: Seq<usize>) -> Seq<(usize, Seq<usize>)>
    decreases ns,
{
    if ns.len() == 0 {
        Seq::empty()
    } else {
        visits_list(ns.drop_last(), chain) + visits(ns.last(), chain)
    }
}

pub open spec fn visit_view(v: PathVisit) -> (usize, Seq<usize>) {
    (v.path, v.groups@)
}

pub open spec fn visits_view(vs: Seq<PathVisit>) -> Seq<(usize, Seq<usize>)> {
    vs.map_values(|v: PathVisit| visit_view(v))
}

fn collect_visits(nodes: &Vec<SceneNode>, chain: &mut Vec<usize>, out: &mut Vec<PathVisit>)
    ensures
        final(chain)@ == old(chain)@,
        visits_view(final(out)@) == visits_view(old(out)@) + visits_list(nodes@, old(chain)@),
    decreases nodes,
{
    let ghost out0 = visits_view(out@);
    let mut i: usize = 0;
    while i < nodes.len()
        invariant
            0 <= i <= nodes.len(),
            chain@ == old(chain)@,
            visits_view(out@) == out0 + visits_list(nodes@.take(i as int), chain@),
        decreases nodes.len() - i,
    {
        let ghost before = visits_view(out@);
        match &nodes[i] {
            SceneNode::Group { id, children } => {
                chain.push(*id);
                collect_visits(children, chain, out);
                chain.pop();
                assert(chain@ =~= old(chain)@);
                assert(visits_view(out@) =~= before + visits(nodes@[i as int], chain@));
            },
            SceneNode::Path { id } => {
                let groups = chain.clone();
                out.push(PathVisit { path: *id, groups });
                assert(visits_view(out@) =~= before + seq![(*id, chain@)]);
            },
            SceneNode::Other => {},
        }
        assert(visits_view(out@) =~= before + visits(nodes@[i as int], chain@));
        assert(nodes@.take(i + 1).last() == nodes@[i as int]);
        assert(nodes@.take(i + 1).drop_last() =~= nodes@.take(i as int));
        i = i + 1;
        assert(visits_view(out@) =~= out0 + visits_list(nodes@.take(i as int), chain@));
    }
    assert(nodes@.take(i as int) =~= nodes@);
}

/// The paths of a scene whose top-level nodes are `nodes`, in depth-first
/// pre-order, each with the chain of groups that encloses it.
pub fn scene_paths(nodes: &Vec<SceneNode>) -> (r: Vec<PathVisit>)
    ensures
        visits_view(r@) == visits_list(nodes@, Seq::empty()),
{
    let mut chain: Vec<usize> = Vec::new();
    let mut out: Vec<PathVisit> = Vec::new();
    collect_visits(nodes, &mut chain, &mut out);
    assert(visits_view(out@) =~= visits_list(nodes@, Seq::empty()));
    out
}

/// Every path below nodes reached through `chain` carries a group chain that
/// starts with `chain`: a group's transform composes onto its ancestors'.
pub proof fn lemma_chain_extends(ns: Seq<SceneNode>, chain: Seq<usize>)
    ensures
        forall|k: int|
            0 <= k < visits_list(ns, chain).len() ==> {
                let v = #[trigger] visits_list(ns, chain)[k];
                &&& chain.len() <= v.1.len()
                &&& v.1.take(chain.len() as int) == chain
            },
    decreases ns,
{
    if ns.len() > 0 {
        lemma_chain_extends(ns.drop_last(), chain);
        lemma_chain_extends_node(ns.last(), chain);
        let a = visits_list(ns.drop_last(), chain);
        let b = visits(ns.last(), chain);
        assert forall|k: int| 0 <= k < visits_list(ns, chain).len() implies {
            let v = #[trigger] visits_list(ns, chain)[k];
            &&& chain.len() <= v.1.len()
            &&& v.1.take(chain.len() as int) == chain
        } by {
            if k < a.len() {
                assert(visits_list(ns, chain)[k] == a[k]);
            } else {
                assert(visits_list(ns, chain)[k] == b[k - a.len()]);
            }
        }
    }
}

proof fn lemma_chain_extends_node(n: SceneNode, chain: Seq<usize>)
    ensures
        forall|k: int|
            0 <= k < visits(n, chain).len() ==> {
                let v = #[trigger] visits(n, chain)[k];
                &&& chain.len() <= v.1.len()
                &&& v.1.take(chain.len() as int) == chain
            },
    decreases n,
{
    match n {
        SceneNode::Group { id, children } => {
            lemma_chain_extends(children@, chain.push(id));
            assert forall|k: int| 0 <= k < visits(n, chain).len() implies {
                let v = #[trigger] visits(n, chain)[k];
                &&& chain.len() <= v.1.len()
                &&& v.1.take(chain.len() as int) == chain
            } by {
                let v = visits(n, chain)[k];
                assert(v == visits_list(children@, chain.push(id))[k]);
                assert(v.1.take(chain.len() + 1 as int) == chain.push(id));
                assert(v.1.take(chain.len() as int) =~= chain.push(id).take(chain.len() as int));
            }
        },
        SceneNode::Path { id } => {
            assert(chain.take(chain.len() as int) =~= chain);
        },
        SceneNode::Other => {},
    }
}

} // verus!
