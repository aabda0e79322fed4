//! What lies upstream and downstream of a node: the nodes from which some
//! path of edges leads to it, with the decoders among them, and the nodes
//! that it leads to, whose estimates depend on it.

use vstd::prelude::*;
use crate::graph::{joins, Edge, Graph, NodeIndex};
use crate::ops::{Node, NodeParams};

verus! {

/// Whether a path of at least one and at most `steps` edges leads from
/// `anc` to `of`.
pub open spec fn upstream_within(links: Seq<Edge>, of: NodeIndex, anc: NodeIndex, steps: nat) -> bool
    decreases steps,
{
    steps > 0 && exists|i: int|
        0 <= i < links.len() && (#[trigger] links[i]).from == anc && (links[i].to == of
            || upstream_within(links, of, links[i].to, (steps - 1) as nat))
}

/// Whether some path of edges leads from `anc` to `of`.
pub open spec fn is_upstream(links: Seq<Edge>, of: NodeIndex, anc: NodeIndex) -> bool {
    exists|steps: nat| upstream_within(links, of, anc, steps)
}

/// The number of entries of `marks` that are not set.
pub open spec fn unmarked(marks: Seq<bool>) -> nat
    decreases marks.len(),
{
    if marks.len() == 0 {
        0
    } else {
        unmarked(marks.drop_last()) + if marks.last() {
            0nat
        } else {
            1nat
        }
    }
}

/// Setting a mark that was not set leaves one unmarked entry fewer.
proof fn lemma_unmarked_after_marking(marks: Seq<bool>, v: int)
    requires
        0 <= v < marks.len(),
        !marks[v],
    ensures
        unmarked(marks.update(v, true)) + 1 == unmarked(marks),
    decreases marks.len(),
{
    let after = marks.update(v, true);
    if v == marks.len() - 1 {
        assert(after.drop_last() =~= marks.drop_last());
    } else {
        assert(after.drop_last() =~= marks.drop_last().update(v, true));
        lemma_unmarked_after_marking(marks.drop_last(), v);
    }
}

/// Whether `marks` holds, with every node it marks, the sources of the edges
/// into that node, and the sources of the edges into `of`.
pub open spec fn closed_upward(links: Seq<Edge>, of: NodeIndex, marks: Seq<bool>) -> bool {
    forall|i: int|
        0 <= i < links.len() && ((#[trigger] links[i]).to == of || marks[links[i].to as int])
            ==> marks[links[i].from as int]
}

/// A set of marks that is closed upward holds everything upstream.
proof fn lemma_closed_holds_upstream(
    links: Seq<Edge>,
    of: NodeIndex,
    marks: Seq<bool>,
    anc: NodeIndex,
    steps: nat,
)
    requires
        closed_upward(links, of, marks),
        upstream_within(links, of, anc, steps),
    ensures
        marks[anc as int],
    decreases steps,
{
    let i = choose|i: int|
        0 <= i < links.len() && (#[trigger] links[i]).from == anc && (links[i].to == of
            || upstream_within(links, of, links[i].to, (steps - 1) as nat));
    if links[i].to != of {
        lemma_closed_holds_upstream(links, of, marks, links[i].to, (steps - 1) as nat);
    }
}

/// Whether `marks` holds, with `from` and with every node it marks, the
/// targets of the edges out of that node.
pub open spec fn closed_downward(links: Seq<Edge>, from: NodeIndex, marks: Seq<bool>) -> bool {
    forall|i: int|
        0 <= i < links.len() && ((#[trigger] links[i]).from == from || marks[links[i].from as int])
            ==> marks[links[i].to as int]
}

/// A path that ends in `mid` goes on along any edge out of `mid`.
proof fn lemma_path_goes_on(links: Seq<Edge>, mid: NodeIndex, anc: NodeIndex, steps: nat, e: int)
    requires
        upstream_within(links, mid, anc, steps),
        0 <= e < links.len(),
        links[e].from == mid,
    ensures
        upstream_within(links, links[e].to, anc, steps + 1),
    decreases steps,
{
    let i = choose|i: int|
        0 <= i < links.len() && (#[trigger] links[i]).from == anc && (links[i].to == mid
            || upstream_within(links, mid, links[i].to, (steps - 1) as nat));
    if links[i].to == mid {
        assert(upstream_within(links, links[e].to, mid, steps));
    } else {
        lemma_path_goes_on(links, mid, links[i].to, (steps - 1) as nat, e);
    }
    assert(links[i].from == anc && upstream_within(links, links[e].to, links[i].to, steps));
}

/// A set of marks that is closed downward holds everything downstream.
proof fn lemma_closed_holds_downstream(
    links: Seq<Edge>,
    from: NodeIndex,
    marks: Seq<bool>,
    anc: NodeIndex,
    of: NodeIndex,
    steps: nat,
)
    requires
        closed_downward(links, from, marks),
        anc == from || marks[anc as int],
        upstream_within(links, of, anc, steps),
    ensures
        marks[of as int],
    decreases steps,
{
    let i = choose|i: int|
        0 <= i < links.len() && (#[trigger] links[i]).from == anc && (links[i].to == of
            || upstream_within(links, of, links[i].to, (steps - 1) as nat));
    if links[i].to != of {
        lemma_closed_holds_downstream(links, from, marks, links[i].to, of, (steps - 1) as nat);
    }
}

impl Graph {
    /// The decoders among the nodes below handle `bound` that lie upstream
    /// of `of`, each with its IO identifier, by ascending handle.
    pub open spec fn decoders_below(&self, of: NodeIndex, bound: nat) -> Seq<(i32, NodeIndex)>
        decreases bound,
    {
        if bound == 0 {
            Seq::empty()
        } else {
            let v = (bound - 1) as usize;
            let rest = self.decoders_below(of, (bound - 1) as nat);
            if self.contains(v) && is_upstream(self.links(), of, v) {
                match self.node(v).params {
                    NodeParams::Decode { io_id } => rest.push((io_id, v)),
                    _ => rest,
                }
            } else {
                rest
            }
        }
    }

    /// Every decoder that lies upstream of `of`, once each, by ascending
    /// handle.
    pub open spec fn decoders_upstream(&self, of: NodeIndex) -> Seq<(i32, NodeIndex)> {
        self.decoders_below(of, self.slots().len())
    }

    /// Marks the nodes that lie upstream of `of`.
    fn mark_upstream(&self, of: NodeIndex) -> (marks: Vec<bool>)
        requires
            self.wf(),
        ensures
            marks@.len() == self.slots().len(),
            forall|v: int|
                0 <= v < marks@.len() ==> (#[trigger] marks@[v] <==> is_upstream(
                    self.links(),
                    of,
                    v as usize,
                )),
    {
        let n = self.node_bound();
        let m = self.edge_count();
        let mut marks: Vec<bool> = Vec::new();
        let mut k: usize = 0;
        while k < n
            invariant
                k <= n,
                marks@.len() == k,
                forall|v: int| 0 <= v < k ==> !(#[trigger] marks@[v]),
            decreases n - k,
        {
            marks.push(false);
            k += 1;
        }
        let mut changed = true;
        while changed
            invariant
                self.wf(),
                n == self.slots().len(),
                m == self.links().len(),
                marks@.len() == n,
                forall|v: int|
                    0 <= v < n && #[trigger] marks@[v] ==> is_upstream(self.links(), of, v as usize),
                !changed ==> closed_upward(self.links(), of, marks@),
            decreases unmarked(marks@), if changed { 1nat } else { 0nat },
        {
            changed = false;
            let ghost at_start = marks@;
            let mut j: usize = 0;
            while j < m
                invariant
                    j <= m,
                    self.wf(),
                    n == self.slots().len(),
                    m == self.links().len(),
                    marks@.len() == n,
                    forall|v: int|
                        0 <= v < n && #[trigger] marks@[v] ==> is_upstream(
                            self.links(),
                            of,
                            v as usize,
                        ),
                    !changed ==> marks@ == at_start,
                    changed ==> unmarked(marks@) < unmarked(at_start),
                    !changed ==> forall|i: int|
                        0 <= i < j && ((#[trigger] self.links()[i]).to == of
                            || marks@[self.links()[i].to as int]) ==> marks@[self.links()[i].from as int],
                decreases m - j,
            {
                let e = self.edge(j);
                proof {
                    assert(joins(self.slots(), self.links()[j as int]));
                }
                if (e.to == of || marks[e.to]) && !marks[e.from] {
                    proof {
                        lemma_unmarked_after_marking(marks@, e.from as int);
                        if e.to == of {
                            assert(upstream_within(self.links(), of, e.from, 1));
                        } else {
                            let steps = choose|steps: nat|
                                upstream_within(self.links(), of, e.to, steps);
                            assert(upstream_within(self.links(), of, e.from, steps + 1));
                        }
                    }
                    marks.set(e.from, true);
                    changed = true;
                }
                j += 1;
            }
        }
        proof {
            assert forall|v: int| 0 <= v < marks@.len() && is_upstream(
                self.links(),
                of,
                v as usize,
            ) implies #[trigger] marks@[v] by {
                let anc = v as usize;
                let steps = choose|steps: nat| upstream_within(self.links(), of, anc, steps);
                lemma_closed_holds_upstream(self.links(), of, marks@, anc, steps);
            }
        }
        marks
    }

    /// The decoders that lie upstream of `of`: each one's IO identifier and
    /// handle, once, by ascending handle.
    pub fn get_decoder_io_ids_and_indexes(&self, of: NodeIndex) -> (r: Vec<(i32, NodeIndex)>)
        requires
            self.wf(),
        ensures
            r@ == self.decoders_upstream(of),
    {
        let marks = self.mark_upstream(of);
        let n = self.node_bound();
        let mut found: Vec<(i32, NodeIndex)> = Vec::new();
        let mut v: usize = 0;
        while v < n
            invariant
                v <= n,
                n == self.slots().len(),
                marks@.len() == n,
                forall|u: int|
                    0 <= u < marks@.len() ==> (#[trigger] marks@[u] <==> is_upstream(
                        self.links(),
                        of,
                        u as usize,
                    )),
                found@ == self.decoders_below(of, v as nat),
            decreases n - v,
        {
            if marks[v] {
                match self.node_weight(v) {
                    Some(node) => match node.params {
                        NodeParams::Decode { io_id } => {
                            found.push((io_id, v));
                        },
                        _ => {},
                    },
                    None => {},
                }
            }
            v += 1;
        }
        found
    }

    /// The slots after the estimates downstream of `ix` have been withdrawn:
    /// every node that some path leads to from `ix` has its estimate
    /// invalidated, and nothing else differs.
    pub open spec fn invalidated_below(&self, ix: NodeIndex) -> Seq<Option<Node>> {
        Seq::new(
            self.slots().len(),
            |v: int|
                match self.slots()[v] {
                    Some(node) => if is_upstream(self.links(), v as usize, ix) {
                        Some(
                            Node {
                                def: node.def,
                                params: node.params,
                                frame_est: node.frame_est.spec_invalidated(),
                            },
                        )
                    } else {
                        Some(node)
                    },
                    None => None,
                },
        )
    }

    /// Marks the nodes that lie downstream of `from`.
    fn mark_downstream(&self, from: NodeIndex) -> (marks: Vec<bool>)
        requires
            self.wf(),
        ensures
            marks@.len() == self.slots().len(),
            forall|v: int|
                0 <= v < marks@.len() ==> (#[trigger] marks@[v] <==> is_upstream(
                    self.links(),
                    v as usize,
                    from,
                )),
    {
        let n = self.node_bound();
        let m = self.edge_count();
        let mut marks: Vec<bool> = Vec::new();
        let mut k: usize = 0;
        while k < n
            invariant
                k <= n,
                marks@.len() == k,
                forall|v: int| 0 <= v < k ==> !(#[trigger] marks@[v]),
            decreases n - k,
        {
            marks.push(false);
            k += 1;
        }
        let mut changed = true;
        while changed
            invariant
                self.wf(),
                n == self.slots().len(),
                m == self.links().len(),
                marks@.len() == n,
                forall|v: int|
                    0 <= v < n && #[trigger] marks@[v] ==> is_upstream(self.links(), v as usize, from),
                !changed ==> closed_downward(self.links(), from, marks@),
            decreases unmarked(marks@), if changed { 1nat } else { 0nat },
        {
            changed = false;
            let ghost at_start = marks@;
            let mut j: usize = 0;
            while j < m
                invariant
                    j <= m,
                    self.wf(),
                    n == self.slots().len(),
                    m == self.links().len(),
                    marks@.len() == n,
                    forall|v: int|
                        0 <= v < n && #[trigger] marks@[v] ==> is_upstream(
                            self.links(),
                            v as usize,
                            from,
                        ),
                    !changed ==> marks@ == at_start,
                    changed ==> unmarked(marks@) < unmarked(at_start),
                    !changed ==> forall|i: int|
                        0 <= i < j && ((#[trigger] self.links()[i]).from == from
                            || marks@[self.links()[i].from as int]) ==> marks@[self.links()[i].to as int],
                decreases m - j,
            {
                let e = self.edge(j);
                proof {
                    assert(joins(self.slots(), self.links()[j as int]));
                }
                if (e.from == from || marks[e.from]) && !marks[e.to] {
                    proof {
                        lemma_unmarked_after_marking(marks@, e.to as int);
                        if e.from == from {
                            assert(upstream_within(self.links(), e.to, from, 1));
                        } else {
                            let steps = choose|steps: nat|
                                upstream_within(self.links(), e.from, from, steps);
                            lemma_path_goes_on(self.links(), e.from, from, steps, j as int);
                        }
                    }
                    marks.set(e.to, true);
                    changed = true;
                }
                j += 1;
            }
        }
        proof {
            assert forall|v: int| 0 <= v < marks@.len() && is_upstream(
                self.links(),
                v as usize,
                from,
            ) implies #[trigger] marks@[v] by {
                let of = v as usize;
                let steps = choose|steps: nat| upstream_within(self.links(), of, from, steps);
                lemma_closed_holds_downstream(self.links(), from, marks@, from, of, steps);
            }
        }
        marks
    }

    /// Withdraws trust in every estimate that depends on the node behind
    /// `ix`: the estimate of each node downstream of it is invalidated. What
    /// was impossible stays impossible, and the node itself is not touched
    /// unless it lies on a cycle.
    pub fn invalidate_downstream(&mut self, ix: NodeIndex)
        requires
            old(self).wf(),
        ensures
            final(self).wf(),
            final(self).links() == old(self).links(),
            final(self).slots() == old(self).invalidated_below(ix),
    {
        let marks = self.mark_downstream(ix);
        let n = self.node_bound();
        let mut v: usize = 0;
        while v < n
            invariant
                v <= n,
                self.wf(),
                n == old(self).slots().len(),
                self.slots().len() == n,
                self.links() == old(self).links(),
                marks@.len() == n,
                forall|u: int|
                    0 <= u < n ==> (#[trigger] marks@[u] <==> is_upstream(
                        old(self).links(),
                        u as usize,
                        ix,
                    )),
                forall|u: int| 0 <= u < v ==> #[trigger] self.slots()[u] == old(self).invalidated_below(ix)[u],
                forall|u: int| v <= u < n ==> #[trigger] self.slots()[u] == old(self).slots()[u],
            decreases n - v,
        {
            if marks[v] && self.has_node(v) {
                let estimate = self.weight(v).frame_est.invalidated();
                self.set_estimate(v, estimate);
            }
            v += 1;
        }
        proof {
            assert(self.slots() =~= old(self).invalidated_below(ix));
        }
    }
}

} // verus!
