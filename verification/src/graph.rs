//! The pipeline graph: an arena of nodes behind stable handles, and the
//! directed, kinded edges between them.

use vstd::prelude::*;
use crate::frame::{FrameEstimate, FrameInfo};
use crate::ops::{Node, NodeParams};

verus! {

/// The handle of a node. It stays valid, and keeps naming the same slot,
/// until the node is removed; it is never given to another node.
pub type NodeIndex = usize;

/// What an edge carries from its source to its target.
#[derive(Clone, Copy, Debug, PartialEq, Eq, Structural)]
pub enum EdgeKind {
    /// The primary flow of frames.
    Input,
    /// The frame that the target draws onto.
    Canvas,
}

/// A directed connection between two nodes.
#[derive(Clone, Copy, Debug, PartialEq, Eq, Structural)]
pub struct Edge {
    pub from: NodeIndex,
    pub to: NodeIndex,
    pub kind: EdgeKind,
}

/// The pipeline graph. A slot holds its node while the node is alive and is
/// empty afterwards; edges are kept in the order in which they were made.
/// Nothing here refuses an edge that closes a cycle: what walks the graph
/// ends on cycles too.
#[derive(Debug)]
pub struct Graph {
    nodes: Vec<Option<Node>>,
    edges: Vec<Edge>,
}

/// The source of the first edge at or after position `start` that enters `of`
/// with the given kind.
pub open spec fn first_parent_from(links: Seq<Edge>, of: NodeIndex, kind: EdgeKind, start: int) -> Option<
    NodeIndex,
>
    decreases links.len() - start,
{
    if start < 0 || start >= links.len() {
        None
    } else if links[start].to == of && links[start].kind == kind {
        Some(links[start].from)
    } else {
        first_parent_from(links, of, kind, start + 1)
    }
}

/// The edge `e` after the node `gone` has given its place to a run of nodes
/// that starts at `head` and ends at `tail`: what entered `gone` enters
/// `head`, what left `gone` leaves `tail`.
pub open spec fn rewired(e: Edge, gone: NodeIndex, head: NodeIndex, tail: NodeIndex) -> Edge {
    Edge {
        from: if e.from == gone {
            tail
        } else {
            e.from
        },
        to: if e.to == gone {
            head
        } else {
            e.to
        },
        kind: e.kind,
    }
}

/// Whether both ends of `e` are nodes that are alive in `slots`.
pub open spec fn joins(slots: Seq<Option<Node>>, e: Edge) -> bool {
    &&& e.from < slots.len()
    &&& slots[e.from as int] is Some
    &&& e.to < slots.len()
    &&& slots[e.to as int] is Some
}

/// `rewired` as a function of the edge alone.
pub open spec fn rewiring(gone: NodeIndex, head: NodeIndex, tail: NodeIndex) -> spec_fn(Edge) -> Edge {
    |e: Edge| rewired(e, gone, head, tail)
}

/// The edges that do not enter `ix`.
pub open spec fn not_entering(ix: NodeIndex) -> spec_fn(Edge) -> bool {
    |e: Edge| e.to != ix
}

/// The edges that neither enter nor leave `ix`.
pub open spec fn not_touching(ix: NodeIndex) -> spec_fn(Edge) -> bool {
    |e: Edge| e.to != ix && e.from != ix
}

/// The edges of the given kind that enter `ix`.
pub open spec fn entering(ix: NodeIndex, kind: EdgeKind) -> spec_fn(Edge) -> bool {
    |e: Edge| e.to == ix && e.kind == kind
}

/// The edges that leave `ix`.
pub open spec fn leaving(ix: NodeIndex) -> spec_fn(Edge) -> bool {
    |e: Edge| e.from == ix
}

/// The node `n` as the content of a slot.
pub open spec fn alive() -> spec_fn(Node) -> Option<Node> {
    |n: Node| Some(n)
}

/// Where a first parent is found, an edge of the wanted kind leads from it
/// to the node.
pub proof fn lemma_first_parent_is_source(links: Seq<Edge>, of: NodeIndex, kind: EdgeKind, start: int)
    requires
        0 <= start,
        first_parent_from(links, of, kind, start) is Some,
    ensures
        exists|i: int|
            start <= i < links.len() && (#[trigger] links[i]).to == of && links[i].kind == kind
                && links[i].from == first_parent_from(links, of, kind, start).unwrap(),
    decreases links.len() - start,
{
    if links[start].to == of && links[start].kind == kind {
        assert(links[start].from == first_parent_from(links, of, kind, start).unwrap());
    } else {
        lemma_first_parent_is_source(links, of, kind, start + 1);
    }
}

/// The input edges that join `count` consecutive handles, the first of which
/// is `head`, into a chain.
pub open spec fn chain(head: NodeIndex, count: nat) -> Seq<Edge> {
    Seq::new(
        if count > 0 {
            (count - 1) as nat
        } else {
            0
        },
        |i: int| Edge { from: (head + i) as usize, to: (head + i + 1) as usize, kind: EdgeKind::Input },
    )
}

impl Graph {
    /// The slots of the arena, by handle.
    pub closed spec fn slots(&self) -> Seq<Option<Node>> {
        self.nodes@
    }

    /// The edges, in the order in which they were made.
    pub closed spec fn links(&self) -> Seq<Edge> {
        self.edges@
    }

    /// Whether `ix` names a node that is alive.
    pub open spec fn contains(&self, ix: NodeIndex) -> bool {
        ix < self.slots().len() && self.slots()[ix as int] is Some
    }

    /// The node behind `ix`.
    pub open spec fn node(&self, ix: NodeIndex) -> Node
        recommends
            self.contains(ix),
    {
        self.slots()[ix as int].unwrap()
    }

    /// Every edge joins two nodes that are alive.
    pub open spec fn wf(&self) -> bool {
        forall|i: int| 0 <= i < self.links().len() ==> joins(self.slots(), #[trigger] self.links()[i])
    }

    /// The first parent of `of` along an edge of the given kind.
    pub open spec fn first_parent(&self, of: NodeIndex, kind: EdgeKind) -> Option<NodeIndex> {
        first_parent_from(self.links(), of, kind, 0)
    }

    /// The frame metadata of the first input parent of `of`, where that
    /// parent's estimate is known.
    pub open spec fn first_parent_frame(&self, of: NodeIndex) -> Option<FrameInfo> {
        match self.first_parent(of, EdgeKind::Input) {
            Some(p) => if self.contains(p) {
                self.node(p).frame_est.frame()
            } else {
                None
            },
            None => None,
        }
    }

    /// The slots after the node behind `ix` has been replaced by `with`: its
    /// slot is empty, and the new nodes follow in fresh slots, in order.
    pub open spec fn replaced_slots(&self, ix: NodeIndex, with: Seq<Node>) -> Seq<Option<Node>> {
        self.slots().update(ix as int, None) + with.map_values(alive())
    }

    /// The edges after the node behind `ix` has been replaced by `count` new
    /// nodes. With at least one new node every edge keeps its place and is
    /// rewired to the ends of the new chain, whose own edges follow. With
    /// none, the edges into the node go, and those out of it are taken over
    /// by its first input parent; without such a parent they go too.
    pub open spec fn replaced_links(&self, ix: NodeIndex, count: nat) -> Seq<Edge> {
        if count > 0 {
            let head = self.slots().len() as usize;
            let tail = (self.slots().len() + count - 1) as usize;
            self.links().map_values(rewiring(ix, head, tail)) + chain(head, count)
        } else {
            match self.first_parent(ix, EdgeKind::Input) {
                Some(p) if p != ix => self.links().filter(not_entering(ix)).map_values(
                    rewiring(ix, ix, p),
                ),
                _ => self.links().filter(not_touching(ix)),
            }
        }
    }

    /// The number of edges of the given kind that enter `ix`.
    pub open spec fn inputs_of(&self, ix: NodeIndex, kind: EdgeKind) -> nat {
        self.links().filter(entering(ix, kind)).len()
    }

    /// The number of edges that leave `ix`.
    pub open spec fn outputs_of(&self, ix: NodeIndex) -> nat {
        self.links().filter(leaving(ix)).len()
    }

    /// A graph without nodes.
    pub fn new() -> (g: Graph)
        ensures
            g.wf(),
            g.slots() == Seq::<Option<Node>>::empty(),
            g.links() == Seq::<Edge>::empty(),
    {
        Graph { nodes: Vec::new(), edges: Vec::new() }
    }

    /// The number of handles given out so far, dead ones included.
    pub fn node_bound(&self) -> (n: usize)
        ensures
            n == self.slots().len(),
    {
        self.nodes.len()
    }

    /// The number of edges.
    pub fn edge_count(&self) -> (n: usize)
        ensures
            n == self.links().len(),
    {
        self.edges.len()
    }

    /// Whether `ix` names a node that is alive.
    pub fn has_node(&self, ix: NodeIndex) -> (r: bool)
        ensures
            r == self.contains(ix),
    {
        if ix < self.nodes.len() {
            self.nodes[ix].is_some()
        } else {
            false
        }
    }

    /// The node behind `ix`.
    pub fn weight(&self, ix: NodeIndex) -> (node: &Node)
        requires
            self.contains(ix),
        ensures
            *node == self.node(ix),
    {
        self.nodes[ix].as_ref().unwrap()
    }

    /// The node behind `ix`, if it is alive.
    pub fn node_weight(&self, ix: NodeIndex) -> (r: Option<&Node>)
        ensures
            self.contains(ix) ==> r == Some(&self.node(ix)),
            !self.contains(ix) ==> r is None,
    {
        if ix < self.nodes.len() {
            self.nodes[ix].as_ref()
        } else {
            None
        }
    }

    /// The edge at position `i`.
    pub fn edge(&self, i: usize) -> (e: Edge)
        requires
            i < self.links().len(),
        ensures
            e == self.links()[i as int],
    {
        self.edges[i]
    }

    /// Adds a node and returns its handle, which no node had before.
    pub fn add_node(&mut self, node: Node) -> (ix: NodeIndex)
        requires
            old(self).wf(),
        ensures
            final(self).wf(),
            ix == old(self).slots().len(),
            final(self).slots() == old(self).slots().push(Some(node)),
            final(self).links() == old(self).links(),
    {
        let ix = self.nodes.len();
        self.nodes.push(Some(node));
        proof {
            assert forall|i: int| 0 <= i < self.links().len() implies joins(
                self.slots(),
                #[trigger] self.links()[i],
            ) by {
                assert(joins(old(self).slots(), old(self).links()[i]));
            }
        }
        ix
    }

    /// Adds an edge between two nodes that are alive and returns its
    /// position; does nothing where either node is not alive.
    pub fn add_edge(&mut self, from: NodeIndex, to: NodeIndex, kind: EdgeKind) -> (r: Option<usize>)
        requires
            old(self).wf(),
        ensures
            final(self).wf(),
            final(self).slots() == old(self).slots(),
            old(self).contains(from) && old(self).contains(to) ==> r == Some(
                old(self).links().len() as usize,
            ) && final(self).links() == old(self).links().push(Edge { from, to, kind }),
            !(old(self).contains(from) && old(self).contains(to)) ==> r is None
                && final(self).links() == old(self).links(),
    {
        if self.has_node(from) && self.has_node(to) {
            let at = self.edges.len();
            self.edges.push(Edge { from, to, kind });
            proof {
                assert forall|i: int| 0 <= i < self.links().len() implies joins(
                    self.slots(),
                    #[trigger] self.links()[i],
                ) by {
                    if i < old(self).links().len() {
                        assert(joins(old(self).slots(), old(self).links()[i]));
                    }
                }
            }
            Some(at)
        } else {
            None
        }
    }

    /// Records a new estimate for the node behind `ix`.
    pub fn set_estimate(&mut self, ix: NodeIndex, estimate: FrameEstimate)
        requires
            old(self).wf(),
            old(self).contains(ix),
        ensures
            final(self).wf(),
            final(self).links() == old(self).links(),
            final(self).slots() == old(self).slots().update(
                ix as int,
                Some(
                    Node {
                        def: old(self).node(ix).def,
                        params: old(self).node(ix).params,
                        frame_est: estimate,
                    },
                ),
            ),
    {
        let taken = self.nodes[ix].take();
        let node = taken.unwrap();
        let renewed = Node { def: node.def, params: node.params, frame_est: estimate };
        self.nodes.set(ix, Some(renewed));
        proof {
            assert forall|i: int| 0 <= i < self.links().len() implies joins(
                self.slots(),
                #[trigger] self.links()[i],
            ) by {
                assert(joins(old(self).slots(), old(self).links()[i]));
            }
        }
    }

    /// Moves every edge end at `gone` over to `head` (for edges that enter)
    /// or `tail` (for edges that leave).
    fn rewire(&mut self, gone: NodeIndex, head: NodeIndex, tail: NodeIndex)
        requires
            old(self).wf(),
            old(self).contains(head),
            old(self).contains(tail),
        ensures
            final(self).wf(),
            final(self).slots() == old(self).slots(),
            final(self).links() == old(self).links().map_values(rewiring(gone, head, tail)),
            forall|i: int|
                0 <= i < final(self).links().len() ==> (#[trigger] final(self).links()[i]).from
                    != gone || tail == gone,
            forall|i: int|
                0 <= i < final(self).links().len() ==> (#[trigger] final(self).links()[i]).to
                    != gone || head == gone,
    {
        let mut j: usize = 0;
        while j < self.edges.len()
            invariant
                j <= self.edges.len(),
                self.nodes@ == old(self).nodes@,
                self.edges@.len() == old(self).edges@.len(),
                old(self).wf(),
                old(self).contains(head),
                old(self).contains(tail),
                forall|t: int|
                    0 <= t < j ==> self.edges@[t] == rewired(old(self).edges@[t], gone, head, tail),
                forall|t: int| j <= t < self.edges@.len() ==> self.edges@[t] == old(self).edges@[t],
            decreases self.edges.len() - j,
        {
            let e = self.edges[j];
            let from = if e.from == gone {
                tail
            } else {
                e.from
            };
            let to = if e.to == gone {
                head
            } else {
                e.to
            };
            self.edges.set(j, Edge { from, to, kind: e.kind });
            j += 1;
        }
        proof {
            assert(self.edges@ =~= old(self).edges@.map_values(rewiring(gone, head, tail)));
            assert forall|i: int| 0 <= i < self.links().len() implies joins(
                self.slots(),
                #[trigger] self.links()[i],
            ) by {
                assert(joins(old(self).slots(), old(self).links()[i]));
            }
        }
    }

    /// Empties the slot behind `ix`, which no edge touches any more.
    fn vacate(&mut self, ix: NodeIndex)
        requires
            old(self).wf(),
            old(self).contains(ix),
            forall|i: int|
                0 <= i < old(self).links().len() ==> (#[trigger] old(self).links()[i]).from != ix
                    && old(self).links()[i].to != ix,
        ensures
            final(self).wf(),
            final(self).slots() == old(self).slots().update(ix as int, None),
            final(self).links() == old(self).links(),
    {
        self.nodes.set(ix, None);
        proof {
            assert forall|i: int| 0 <= i < self.links().len() implies joins(
                self.slots(),
                #[trigger] self.links()[i],
            ) by {
                assert(joins(old(self).slots(), old(self).links()[i]));
            }
        }
    }

    /// Replaces the node behind `ix` by a node that is already in the graph:
    /// every edge of `ix` becomes an edge of `with`, in place, and `ix` dies.
    pub fn replace_node_with_existing(&mut self, ix: NodeIndex, with: NodeIndex)
        requires
            old(self).wf(),
            old(self).contains(ix),
            old(self).contains(with),
            ix != with,
        ensures
            final(self).wf(),
            final(self).slots() == old(self).slots().update(ix as int, None),
            final(self).links() == old(self).links().map_values(rewiring(ix, with, with)),
    {
        self.rewire(ix, with, with);
        self.vacate(ix);
    }

    /// Appends copies of `with` to the arena, each in a slot of its own.
    fn add_nodes(&mut self, with: &Vec<Node>)
        requires
            old(self).wf(),
        ensures
            final(self).wf(),
            final(self).slots() == old(self).slots() + with@.map_values(alive()),
            final(self).links() == old(self).links(),
    {
        let mut i: usize = 0;
        while i < with.len()
            invariant
                i <= with.len(),
                self.edges@ == old(self).edges@,
                self.nodes@ == old(self).nodes@ + with@.take(i as int).map_values(alive()),
            decreases with.len() - i,
        {
            let node = with[i].clone();
            self.nodes.push(Some(node));
            proof {
                with@.lemma_take_succ_push(i as int);
                with@.take(i as int).lemma_push_map_commute(alive(), with@[i as int]);
                assert(self.nodes@ =~= old(self).nodes@ + with@.take(i as int + 1).map_values(
                    alive(),
                ));
            }
            i += 1;
        }
        proof {
            with@.lemma_take_len();
            assert forall|i: int| 0 <= i < self.links().len() implies joins(
                self.slots(),
                #[trigger] self.links()[i],
            ) by {
                assert(joins(old(self).slots(), old(self).links()[i]));
            }
        }
    }

    /// Joins the `count` consecutive nodes that start at `head` by input
    /// edges, each to the next.
    fn add_chain(&mut self, head: NodeIndex, count: usize)
        requires
            old(self).wf(),
            head + count <= old(self).slots().len(),
            forall|v: int| head <= v < head + count ==> (#[trigger] old(self).slots()[v]) is Some,
        ensures
            final(self).wf(),
            final(self).slots() == old(self).slots(),
            final(self).links() == old(self).links() + chain(head, count as nat),
    {
        if count == 0 {
            proof {
                assert(self.edges@ =~= old(self).edges@ + chain(head, 0));
            }
            return ;
        }
        let bound = self.nodes.len();
        proof {
            assert(self.edges@ =~= old(self).edges@ + chain(head, 1));
        }
        let mut i: usize = 1;
        while i < count
            invariant
                1 <= i <= count,
                head + count <= bound,
                bound == self.nodes@.len(),
                self.nodes@ == old(self).nodes@,
                self.wf(),
                forall|v: int| head <= v < head + count ==> (#[trigger] self.nodes@[v]) is Some,
                self.edges@ == old(self).edges@ + chain(head, i as nat),
            decreases count - i,
        {
            let ghost before = *self;
            self.edges.push(Edge { from: head + (i - 1), to: head + i, kind: EdgeKind::Input });
            proof {
                assert(self.edges@ =~= old(self).edges@ + chain(head, (i + 1) as nat));
                assert forall|t: int| 0 <= t < self.links().len() implies joins(
                    self.slots(),
                    #[trigger] self.links()[t],
                ) by {
                    if t < before.links().len() {
                        assert(joins(before.slots(), before.links()[t]));
                    } else {
                        assert(self.nodes@[head + (i - 1)] is Some);
                        assert(self.nodes@[head + i] is Some);
                    }
                }
            }
            i += 1;
        }
        proof {
            assert(self.edges@ =~= old(self).edges@ + chain(head, count as nat));
        }
    }

    /// Drops the edges into `ix`. Those out of it are handed to `heir` where
    /// there is one, and dropped otherwise.
    fn unlink(&mut self, ix: NodeIndex, heir: Option<NodeIndex>)
        requires
            old(self).wf(),
            heir is Some ==> old(self).contains(heir.unwrap()) && heir.unwrap() != ix,
        ensures
            final(self).wf(),
            final(self).slots() == old(self).slots(),
            final(self).links() == match heir {
                Some(p) => old(self).links().filter(not_entering(ix)).map_values(rewiring(ix, ix, p)),
                None => old(self).links().filter(not_touching(ix)),
            },
            forall|i: int|
                0 <= i < final(self).links().len() ==> (#[trigger] final(self).links()[i]).from != ix
                    && final(self).links()[i].to != ix,
    {
        let mut kept: Vec<Edge> = Vec::new();
        let mut j: usize = 0;
        while j < self.edges.len()
            invariant
                j <= self.edges.len(),
                self.edges@ == old(self).edges@,
                self.nodes@ == old(self).nodes@,
                old(self).wf(),
                heir is Some ==> old(self).contains(heir.unwrap()) && heir.unwrap() != ix,
                kept@ == match heir {
                    Some(p) => self.edges@.take(j as int).filter(not_entering(ix)).map_values(
                        rewiring(ix, ix, p),
                    ),
                    None => self.edges@.take(j as int).filter(not_touching(ix)),
                },
                forall|t: int|
                    0 <= t < kept@.len() ==> (#[trigger] kept@[t]).from != ix && kept@[t].to != ix
                        && joins(old(self).slots(), kept@[t]),
            decreases self.edges.len() - j,
        {
            let e = self.edges[j];
            proof {
                let seen = self.edges@.take(j as int);
                self.edges@.lemma_take_succ_push(j as int);
                seen.lemma_filter_push(e, not_entering(ix));
                seen.lemma_filter_push(e, not_touching(ix));
                if heir is Some {
                    seen.filter(not_entering(ix)).lemma_push_map_commute(
                        rewiring(ix, ix, heir.unwrap()),
                        e,
                    );
                }
                assert(joins(old(self).slots(), old(self).links()[j as int]));
            }
            if e.to != ix {
                match heir {
                    Some(p) => {
                        let from = if e.from == ix {
                            p
                        } else {
                            e.from
                        };
                        kept.push(Edge { from, to: e.to, kind: e.kind });
                    },
                    None => {
                        if e.from != ix {
                            kept.push(e);
                        }
                    },
                }
            }
            j += 1;
        }
        proof {
            self.edges@.lemma_take_len();
        }
        self.edges = kept;
    }

    /// Replaces the node behind `ix` by the nodes `with`, in order.
    ///
    /// The new nodes get fresh handles and are joined into a chain by input
    /// edges. The edges that entered `ix` enter the first of them, the edges
    /// that left it leave the last; each keeps its place and its kind. The
    /// handle `ix` is dead afterwards. With no new nodes, the first input
    /// parent of `ix` takes the edges that left `ix`.
    pub fn replace_node(&mut self, ix: NodeIndex, with: Vec<Node>)
        requires
            old(self).wf(),
            old(self).contains(ix),
            old(self).slots().len() + with.len() <= usize::MAX,
        ensures
            final(self).wf(),
            final(self).slots() == old(self).replaced_slots(ix, with@),
            final(self).links() == old(self).replaced_links(ix, with@.len()),
    {
        let count = with.len();
        if count == 0 {
            let heir = match self.first_parent_of_kind(ix, EdgeKind::Input) {
                Some(p) if p != ix => Some(p),
                _ => None,
            };
            proof {
                if heir is Some {
                    lemma_first_parent_is_source(self.links(), ix, EdgeKind::Input, 0);
                    let i = choose|i: int|
                        0 <= i < self.links().len() && (#[trigger] self.links()[i]).to == ix
                            && self.links()[i].kind == EdgeKind::Input && self.links()[i].from
                            == heir.unwrap();
                    assert(joins(self.slots(), self.links()[i]));
                }
            }
            self.unlink(ix, heir);
            self.vacate(ix);
            proof {
                assert(with@.map_values(alive()) =~= Seq::<Option<Node>>::empty());
                assert(self.slots() =~= old(self).replaced_slots(ix, with@));
            }
        } else {
            let head = self.nodes.len();
            let tail = head + (count - 1);
            self.add_nodes(&with);
            self.rewire(ix, head, tail);
            self.add_chain(head, count);
            proof {
                assert forall|i: int| 0 <= i < self.links().len() implies (
                #[trigger] self.links()[i]).from != ix && self.links()[i].to != ix by {
                    let rewired_len = old(self).links().len();
                    if i >= rewired_len {
                        assert(self.links()[i] == chain(head, count as nat)[i - rewired_len]);
                    }
                }
            }
            self.vacate(ix);
            proof {
                assert(self.slots() =~= old(self).replaced_slots(ix, with@));
            }
        }
    }

    /// Counts the edges of the given kind that enter `ix`.
    pub fn count_inputs(&self, ix: NodeIndex, kind: EdgeKind) -> (n: usize)
        ensures
            n == self.inputs_of(ix, kind),
    {
        let mut n: usize = 0;
        let mut j: usize = 0;
        while j < self.edges.len()
            invariant
                j <= self.edges.len(),
                n <= j,
                n == self.edges@.take(j as int).filter(entering(ix, kind)).len(),
            decreases self.edges.len() - j,
        {
            let e = self.edges[j];
            proof {
                self.edges@.lemma_take_succ_push(j as int);
                self.edges@.take(j as int).lemma_filter_push(e, entering(ix, kind));
            }
            if e.to == ix && e.kind == kind {
                n += 1;
            }
            j += 1;
        }
        proof {
            self.edges@.lemma_take_len();
        }
        n
    }

    /// Counts the edges that leave `ix`.
    pub fn count_outputs(&self, ix: NodeIndex) -> (n: usize)
        ensures
            n == self.outputs_of(ix),
    {
        let mut n: usize = 0;
        let mut j: usize = 0;
        while j < self.edges.len()
            invariant
                j <= self.edges.len(),
                n <= j,
                n == self.edges@.take(j as int).filter(leaving(ix)).len(),
            decreases self.edges.len() - j,
        {
            let e = self.edges[j];
            proof {
                self.edges@.lemma_take_succ_push(j as int);
                self.edges@.take(j as int).lemma_filter_push(e, leaving(ix));
            }
            if e.from == ix {
                n += 1;
            }
            j += 1;
        }
        proof {
            self.edges@.lemma_take_len();
        }
        n
    }

    /// The first parent of `of` along an edge of the given kind.
    pub fn first_parent_of_kind(&self, of: NodeIndex, kind: EdgeKind) -> (r: Option<NodeIndex>)
        ensures
            r == self.first_parent(of, kind),
    {
        let mut i: usize = 0;
        while i < self.edges.len()
            invariant
                i <= self.edges.len(),
                self.first_parent(of, kind) == first_parent_from(self.links(), of, kind, i as int),
            decreases self.edges.len() - i,
        {
            let e = self.edges[i];
            if e.to == of && e.kind == kind {
                return Some(e.from);
            }
            i += 1;
        }
        None
    }

    /// The frame metadata of the first input parent of `of`, where that
    /// parent's estimate is known.
    pub fn first_parent_frame_info_some(&self, of: NodeIndex) -> (r: Option<FrameInfo>)
        ensures
            r == self.first_parent_frame(of),
    {
        match self.first_parent_of_kind(of, EdgeKind::Input) {
            Some(p) => match self.node_weight(p) {
                Some(node) => node.frame_est.known_frame(),
                None => None,
            },
            None => None,
        }
    }
}

/// Replacing a node leaves every other node alone: a handle held elsewhere
/// names the same node afterwards, and the handles of the new nodes are ones
/// that nothing named before.
pub proof fn lemma_replacement_keeps_other_nodes(g: Graph, ix: NodeIndex, with: Seq<Node>, other: NodeIndex)
    requires
        g.contains(ix),
        other != ix,
    ensures
        !(ix < g.replaced_slots(ix, with).len() && g.replaced_slots(ix, with)[ix as int] is Some),
        other < g.slots().len() ==> g.replaced_slots(ix, with)[other as int] == g.slots()[other as int],
        g.replaced_slots(ix, with).len() == g.slots().len() + with.len(),
        g.slots().len() <= other < g.slots().len() + with.len() ==> g.replaced_slots(
            ix,
            with,
        )[other as int] == Some(with[other - g.slots().len()]),
{
}

/// Replacing a node by at least one other keeps every edge: as many edges
/// enter the first new node as entered the old one, kind by kind, and the
/// last new node is the source of the edges that left the old one.
pub proof fn lemma_replacement_keeps_edges(g: Graph, ix: NodeIndex, count: nat, i: int)
    requires
        g.wf(),
        g.contains(ix),
        count > 0,
        g.slots().len() + count <= usize::MAX,
        0 <= i < g.links().len(),
    ensures
        g.replaced_links(ix, count).len() == g.links().len() + count - 1,
        g.replaced_links(ix, count)[i].kind == g.links()[i].kind,
        g.links()[i].to == ix <==> g.replaced_links(ix, count)[i].to == g.slots().len(),
        g.links()[i].from == ix <==> g.replaced_links(ix, count)[i].from == g.slots().len() + count
            - 1,
        g.links()[i].to != ix ==> g.replaced_links(ix, count)[i].to == g.links()[i].to,
        g.links()[i].from != ix ==> g.replaced_links(ix, count)[i].from == g.links()[i].from,
{
    assert(joins(g.slots(), g.links()[i]));
}

} // verus!
