//! The node graph and its scheduler.
//!
//! A [`NodeGraph`] owns a vector of nodes indexed by a stable integer id,
//! a parallel vector of names for diagnostics, and a list of validated
//! links. One scheduler step ticks every node in id order, then transfers
//! whole elements along every link in insertion order, each link moving
//! `min(ready_to_pull, ready_to_push)` elements. The run loop repeats
//! steps to a fixed point, then prunes nodes whose upstream producers
//! have all gone silent and asks them to finish, draining the pipeline
//! layer by layer.

use crate::frame::{spec_add, spec_remove, ElemView, FrameView};
use crate::node::{
    frame_free, ports_stable, Node, Node2MT, Node2T, Node2TA, PortError, PortView, PullPort,
    PushPort,
};
use vstd::prelude::*;

verus! {

/// The buffers of one node, as the scheduler sees them: its output
/// buffers by pull-port name and its input buffers by push-port name.
#[verifier::ext_equal]
pub struct BufsView {
    /// Output buffers, by pull-port name.
    pub pull: Map<Seq<char>, FrameView>,
    /// Input buffers, by push-port name.
    pub push: Map<Seq<char>, FrameView>,
}

/// One link: a producer's pull port connected to a consumer's push port.
#[verifier::ext_equal]
pub struct LinkView {
    /// The producer endpoint.
    pub pull: PortView,
    /// The consumer endpoint.
    pub push: PortView,
}

/// The buffers of a sequence of nodes, in id order.
pub open spec fn bufs_of<N: Node2MT>(ns: Seq<N>) -> Seq<BufsView> {
    ns.map_values(|n: N| BufsView { pull: n.pull_bufs(), push: n.push_bufs() })
}

/// Whether a link's endpoints name valid node ids and registered ports,
/// and all the kinds involved agree: the handles' kinds equal the
/// registered kinds, and the two registered kinds equal each other.
pub open spec fn link_wf(bufs: Seq<BufsView>, l: LinkView) -> bool {
    &&& l.pull.id < bufs.len()
    &&& l.push.id < bufs.len()
    &&& bufs[l.pull.id as int].pull.contains_key(l.pull.name)
    &&& bufs[l.push.id as int].push.contains_key(l.push.name)
    &&& l.pull.kind == bufs[l.pull.id as int].pull[l.pull.name].kind
    &&& l.push.kind == bufs[l.push.id as int].push[l.push.name].kind
    &&& l.pull.kind == l.push.kind
}

/// How many elements one tick of link `l` transfers: the smaller of what
/// the producer has ready and what the consumer can still take.
pub open spec fn link_count(bufs: Seq<BufsView>, l: LinkView) -> nat {
    let ready = bufs[l.pull.id as int].pull[l.pull.name].elems.len();
    let free = frame_free(bufs[l.push.id as int].push[l.push.name]);
    if ready <= free {
        ready
    } else {
        free
    }
}

/// The elements one tick of link `l` moves: the front of the producer's
/// output buffer, as many as fit.
pub open spec fn link_moved(bufs: Seq<BufsView>, l: LinkView) -> Seq<ElemView> {
    bufs[l.pull.id as int].pull[l.pull.name].elems.subrange(0, link_count(bufs, l) as int)
}

/// One link tick applied to the nodes' buffers: the moved elements leave
/// the front of the producer's output buffer and arrive at the back of
/// the consumer's input buffer. A link that can move nothing changes
/// nothing.
pub open spec fn apply_link(bufs: Seq<BufsView>, l: LinkView) -> Seq<BufsView> {
    let n = link_count(bufs, l) as int;
    if n == 0 {
        bufs
    } else {
        let src = bufs[l.pull.id as int].pull[l.pull.name];
        let moved = src.elems.subrange(0, n);
        let rem = FrameView {
            kind: src.kind,
            cap: src.cap,
            elems: src.elems.subrange(n, src.elems.len() as int),
        };
        let b1 = bufs.update(
            l.pull.id as int,
            BufsView {
                pull: bufs[l.pull.id as int].pull.insert(l.pull.name, rem),
                push: bufs[l.pull.id as int].push,
            },
        );
        let dst = b1[l.push.id as int].push[l.push.name];
        let filled = FrameView { kind: dst.kind, cap: dst.cap, elems: dst.elems + moved };
        b1.update(
            l.push.id as int,
            BufsView {
                pull: b1[l.push.id as int].pull,
                push: b1[l.push.id as int].push.insert(l.push.name, filled),
            },
        )
    }
}

/// The buffers and the per-link movements after ticking the first `i`
/// links, in insertion order.
pub open spec fn links_pass(bufs: Seq<BufsView>, links: Seq<LinkView>, i: int) -> (
    Seq<BufsView>,
    Seq<Seq<ElemView>>,
)
    decreases i,
{
    if i <= 0 {
        (bufs, Seq::empty())
    } else {
        let (b, m) = links_pass(bufs, links, i - 1);
        (apply_link(b, links[i - 1]), m.push(link_moved(b, links[i - 1])))
    }
}

/// Whether any of the listed movements moved something.
pub open spec fn any_moved(moved: Seq<Seq<ElemView>>) -> bool {
    exists|j: int| 0 <= j < moved.len() && moved[j].len() > 0
}

/// Whether no link can transfer anything on these buffers.
pub open spec fn links_quiescent(bufs: Seq<BufsView>, links: Seq<LinkView>) -> bool {
    forall|i: int| 0 <= i < links.len() ==> link_count(bufs, #[trigger] links[i]) == 0
}

/// On quiescent buffers a link pass moves nothing and changes nothing.
pub proof fn lemma_pass_quiescent(bufs: Seq<BufsView>, links: Seq<LinkView>, i: int)
    requires
        links_quiescent(bufs, links),
        0 <= i <= links.len(),
    ensures
        links_pass(bufs, links, i).0 == bufs,
        links_pass(bufs, links, i).1.len() == i,
        forall|j: int| 0 <= j < i ==> links_pass(bufs, links, i).1[j].len() == 0,
    decreases i,
{
    if i > 0 {
        lemma_pass_quiescent(bufs, links, i - 1);
        assert(link_count(bufs, links[i - 1]) == 0);
    }
}

/// A link pass that moves nothing changes nothing, and nothing could have
/// been moved to begin with: the buffers were quiescent.
pub proof fn lemma_pass_no_moves(bufs: Seq<BufsView>, links: Seq<LinkView>, i: int)
    requires
        0 <= i <= links.len(),
        links_pass(bufs, links, i).1.len() == i,
        forall|j: int| 0 <= j < i ==> links_pass(bufs, links, i).1[j].len() == 0,
    ensures
        links_pass(bufs, links, i).0 == bufs,
        forall|j: int| 0 <= j < i ==> link_count(bufs, #[trigger] links[j]) == 0,
    decreases i,
{
    if i > 0 {
        let (b, m) = links_pass(bufs, links, i - 1);
        assert(forall|j: int| 0 <= j < i - 1 ==> links_pass(bufs, links, i).1[j] == m[j]);
        lemma_pass_no_moves(bufs, links, i - 1);
        assert(links_pass(bufs, links, i).1[i - 1] == link_moved(bufs, links[i - 1]));
        assert(link_count(bufs, links[i - 1]) == 0);
    }
}

/// Transfer conservation: one link tick moves exactly `link_moved` — those
/// elements leave the front of the producer's output buffer and exactly
/// they, in order, arrive at the back of the consumer's input buffer.
/// Every other buffer of every node is untouched.
pub proof fn lemma_transfer_conservation(bufs: Seq<BufsView>, l: LinkView)
    requires
        link_wf(bufs, l),
    ensures
        ({
            let moved = link_moved(bufs, l);
            let after = apply_link(bufs, l);
            &&& bufs[l.pull.id as int].pull[l.pull.name].elems == moved + after[l.pull.id as int].pull[l.pull.name].elems
            &&& after[l.push.id as int].push[l.push.name].elems == bufs[l.push.id as int].push[l.push.name].elems + moved
            &&& forall|id: int, k: Seq<char>|
                0 <= id < bufs.len() && (id != l.pull.id || k != l.pull.name)
                    && bufs[id].pull.contains_key(k) ==> (#[trigger] after[id].pull[k])
                    == bufs[id].pull[k]
            &&& forall|id: int, k: Seq<char>|
                0 <= id < bufs.len() && (id != l.push.id || k != l.push.name)
                    && bufs[id].push.contains_key(k) ==> (#[trigger] after[id].push[k])
                    == bufs[id].push[k]
        }),
{
    let n = link_count(bufs, l) as int;
    let moved = link_moved(bufs, l);
    let after = apply_link(bufs, l);
    let src = bufs[l.pull.id as int].pull[l.pull.name];
    if n == 0 {
        assert(moved =~= Seq::<ElemView>::empty());
        assert(bufs[l.pull.id as int].pull[l.pull.name].elems =~= moved + after[l.pull.id as int].pull[l.pull.name].elems);
        assert(after[l.push.id as int].push[l.push.name].elems =~= bufs[l.push.id as int].push[l.push.name].elems + moved);
    } else {
        assert(src.elems =~= moved + src.elems.subrange(n, src.elems.len() as int));
    }
}

/// A node graph: nodes with stable integer ids, their names, and the
/// validated links data flows along. A ghost transfer log records, per
/// link, every element the scheduler has ever carried across it.
pub struct NodeGraph<N: Node2TA> {
    nodes: Vec<Node<N>>,
    links: Vec<(PullPort, PushPort)>,
    node_names: Vec<String>,
    transfers: Ghost<Seq<Seq<ElemView>>>,
    finishes: Ghost<Seq<FinishCall<N>>>,
}

/// Whether node `i` is in the active set. `None` means unconstrained:
/// every node is ticked.
pub open spec fn in_set(mask: Option<Seq<bool>>, i: int) -> bool {
    match mask {
        None => true,
        Some(m) => 0 <= i < m.len() && m[i],
    }
}

/// The nodes after one tick of every node in the active set, in id order.
pub open spec fn all_ticked<N: Node2T>(ns: Seq<N>, mask: Option<Seq<bool>>) -> Seq<N> {
    ns.map(
        |i: int, n: N|
            if in_set(mask, i) {
                n.tick_next()
            } else {
                n
            },
    )
}

/// Whether any node in the active set would make progress when ticked.
pub open spec fn any_prog<N: Node2T>(ns: Seq<N>, mask: Option<Seq<bool>>) -> bool {
    exists|i: int| 0 <= i < ns.len() && in_set(mask, i) && (#[trigger] ns[i]).tick_prog()
}

/// The mask a `tick_nodes` argument denotes.
pub open spec fn mask_of(nodes: Option<&Vec<bool>>) -> Option<Seq<bool>> {
    match nodes {
        None => None,
        Some(v) => Some(v@),
    }
}

impl<N: Node2TA> NodeGraph<N> {
    /// The nodes, in id order.
    pub closed spec fn nodes_view(&self) -> Seq<N> {
        self.nodes@.map_values(|nd: Node<N>| nd.0)
    }

    /// The buffers of all nodes, in id order.
    pub open spec fn bufs(&self) -> Seq<BufsView> {
        bufs_of(self.nodes_view())
    }

    /// The links, in insertion order.
    pub closed spec fn links_view(&self) -> Seq<LinkView> {
        self.links@.map_values(|l: (PullPort, PushPort)| LinkView { pull: l.0@, push: l.1@ })
    }

    /// The nodes' names, in id order.
    pub closed spec fn names(&self) -> Seq<Seq<char>> {
        self.node_names@.map_values(|s: String| s@)
    }

    /// Per link, every element the scheduler has carried across it,
    /// oldest first.
    pub closed spec fn transfer_log(&self) -> Seq<Seq<ElemView>> {
        self.transfers@
    }

    /// Every finish call the run loop has made, in call order.
    pub closed spec fn finish_log(&self) -> Seq<FinishCall<N>> {
        self.finishes@
    }

    /// A graph is well-formed when names and transfer log run parallel to
    /// nodes and links, and every link is valid: endpoints in range, port
    /// names registered, and all kinds in agreement. Every operation of
    /// this API preserves well-formedness.
    pub closed spec fn wf(&self) -> bool {
        &&& self.node_names@.len() == self.nodes@.len()
        &&& self.transfers@.len() == self.links@.len()
        &&& forall|i: int|
            0 <= i < self.links_view().len() ==> link_wf(self.bufs(), #[trigger] self.links_view()[i])
    }

    /// Attach kind-check: in a well-formed graph every recorded link is
    /// valid; in particular the pull port's registered kind equals the
    /// push port's registered kind.
    pub proof fn lemma_links_wf(&self, i: int)
        requires
            self.wf(),
            0 <= i < self.links_view().len(),
        ensures
            link_wf(self.bufs(), self.links_view()[i]),
    {
    }

    /// An empty graph.
    pub fn new() -> (r: Self)
        ensures
            r.wf(),
            r.nodes_view() == Seq::<N>::empty(),
            r.links_view() == Seq::<LinkView>::empty(),
            r.names() == Seq::<Seq<char>>::empty(),
            r.transfer_log() == Seq::<Seq<ElemView>>::empty(),
            r.finish_log() == Seq::<FinishCall<N>>::empty(),
    {
        let r = NodeGraph {
            nodes: Vec::new(),
            links: Vec::new(),
            node_names: Vec::new(),
            transfers: Ghost(Seq::empty()),
            finishes: Ghost(Seq::empty()),
        };
        proof {
            assert(r.nodes_view() =~= Seq::<N>::empty());
            assert(r.links_view() =~= Seq::<LinkView>::empty());
            assert(r.names() =~= Seq::<Seq<char>>::empty());
        }
        r
    }

    /// Adds a node under the given name and returns its id. Ids are
    /// assigned in insertion order and stay stable.
    pub fn insert(&mut self, node: Node<N>, name: String) -> (id: usize)
        requires
            old(self).wf(),
        ensures
            final(self).wf(),
            id == old(self).nodes_view().len(),
            final(self).nodes_view() == old(self).nodes_view().push(node.0),
            final(self).names() == old(self).names().push(name@),
            final(self).links_view() == old(self).links_view(),
            final(self).transfer_log() == old(self).transfer_log(),
            final(self).finish_log() == old(self).finish_log(),
    {
        let id = self.nodes.len();
        self.nodes.push(node);
        self.node_names.push(name);
        proof {
            assert(self.nodes_view() =~= old(self).nodes_view().push(node.0));
            assert(self.names() =~= old(self).names().push(name@));
            assert(self.bufs() =~= old(self).bufs().push(
                BufsView { pull: node.0.pull_bufs(), push: node.0.push_bufs() },
            ));
            assert forall|i: int| 0 <= i < self.links_view().len() implies link_wf(
                self.bufs(),
                #[trigger] self.links_view()[i],
            ) by {
                assert(link_wf(old(self).bufs(), old(self).links_view()[i]));
            }
        }
        id
    }

    /// A handle for the named pull port of node `id`, or `NoSuchPort`.
    pub fn get_pull_port(&self, id: usize, name: &str) -> (r: Result<PullPort, PortError>)
        requires
            id < self.nodes_view().len(),
        ensures
            match r {
                Ok(p) => {
                    &&& self.bufs()[id as int].pull.contains_key(name@)
                    &&& p@ == (PortView {
                        id: id as nat,
                        name: name@,
                        kind: self.bufs()[id as int].pull[name@].kind,
                    })
                },
                Err(e) => !self.bufs()[id as int].pull.contains_key(name@) && e
                    == PortError::NoSuchPort,
            },
    {
        self.nodes[id].0.get_pull_port(id, name)
    }

    /// A handle for the named push port of node `id`, or `NoSuchPort`.
    pub fn get_push_port(&self, id: usize, name: &str) -> (r: Result<PushPort, PortError>)
        requires
            id < self.nodes_view().len(),
        ensures
            match r {
                Ok(p) => {
                    &&& self.bufs()[id as int].push.contains_key(name@)
                    &&& p@ == (PortView {
                        id: id as nat,
                        name: name@,
                        kind: self.bufs()[id as int].push[name@].kind,
                    })
                },
                Err(e) => !self.bufs()[id as int].push.contains_key(name@) && e
                    == PortError::NoSuchPort,
            },
    {
        self.nodes[id].0.get_push_port(id, name)
    }

    /// What recording the link `(pv, sv)` requires: both endpoints resolve
    /// to registered ports and every kind involved agrees. The result is
    /// the first failure, in validation order.
    pub open spec fn link_check(bufs: Seq<BufsView>, pv: PortView, sv: PortView) -> Result<
        (),
        PortError,
    > {
        if !bufs[pv.id as int].pull.contains_key(pv.name) {
            Err(PortError::NoSuchPort)
        } else if sv.kind != bufs[pv.id as int].pull[pv.name].kind {
            Err(PortError::KindMismatch)
        } else if !bufs[sv.id as int].push.contains_key(sv.name) {
            Err(PortError::NoSuchPort)
        } else if pv.kind != bufs[sv.id as int].push[sv.name].kind {
            Err(PortError::KindMismatch)
        } else if pv.kind != sv.kind {
            Err(PortError::KindMismatch)
        } else {
            Ok(())
        }
    }

    /// Validates both endpoints and, on success, records the link. On
    /// failure the graph is unchanged and the first validation error is
    /// returned.
    pub fn add_link(&mut self, p1: PullPort, p2: PushPort) -> (r: Result<(), PortError>)
        requires
            old(self).wf(),
            p1@.id < old(self).nodes_view().len(),
            p2@.id < old(self).nodes_view().len(),
        ensures
            final(self).wf(),
            r == Self::link_check(old(self).bufs(), p1@, p2@),
            final(self).nodes_view() == old(self).nodes_view(),
            final(self).names() == old(self).names(),
            r is Ok ==> final(self).links_view() == old(self).links_view().push(
                LinkView { pull: p1@, push: p2@ },
            ) && final(self).transfer_log() == old(self).transfer_log().push(
                Seq::<ElemView>::empty(),
            ),
            r is Err ==> (final(self).links_view() == old(self).links_view()
                && final(self).transfer_log() == old(self).transfer_log()),
            final(self).finish_log() == old(self).finish_log(),
    {
        let r1 = self.nodes[p1.id()].0.attach_push_port(p1.name(), &p2);
        if let Err(e) = r1 {
            return Err(e);
        }
        let r2 = self.nodes[p2.id()].0.attach_pull_port(p2.name(), &p1);
        if let Err(e) = r2 {
            return Err(e);
        }
        if p1.kind() != p2.kind() {
            return Err(PortError::KindMismatch);
        }
        proof {
            self.transfers@ = self.transfers@.push(Seq::empty());
        }
        self.links.push((p1, p2));
        proof {
            assert(self.links_view() =~= old(self).links_view().push(
                LinkView { pull: p1@, push: p2@ },
            ));
            assert forall|i: int| 0 <= i < self.links_view().len() implies link_wf(
                self.bufs(),
                #[trigger] self.links_view()[i],
            ) by {
                if i < old(self).links_view().len() {
                    assert(link_wf(old(self).bufs(), old(self).links_view()[i]));
                    assert(self.links_view()[i] == old(self).links_view()[i]);
                }
            }
        }
        Ok(())
    }

    /// Ticks every node in the active set, in ascending id order; `None`
    /// ticks all nodes. Returns true exactly when some ticked node made
    /// progress; an idle phase leaves every node unchanged.
    pub fn tick_nodes(&mut self, nodes: Option<&Vec<bool>>) -> (r: bool)
        requires
            old(self).wf(),
        ensures
            final(self).wf(),
            final(self).nodes_view() == all_ticked(old(self).nodes_view(), mask_of(nodes)),
            r == any_prog(old(self).nodes_view(), mask_of(nodes)),
            !r ==> final(self).nodes_view() == old(self).nodes_view(),
            final(self).links_view() == old(self).links_view(),
            final(self).names() == old(self).names(),
            final(self).transfer_log() == old(self).transfer_log(),
            final(self).finish_log() == old(self).finish_log(),
    {
        let ghost ns0 = self.nodes_view();
        let ghost mask = mask_of(nodes);
        let n = self.nodes.len();
        let mut res = false;
        let mut i: usize = 0;
        while i < n
            invariant
                i <= n == self.nodes_view().len(),
                n == ns0.len(),
                ns0 == old(self).nodes_view(),
                mask == mask_of(nodes),
                self.links_view() == old(self).links_view(),
                self.names() == old(self).names(),
                self.transfer_log() == old(self).transfer_log(),
                self.finish_log() == old(self).finish_log(),
                self.node_names@.len() == self.nodes@.len(),
                self.transfers@.len() == self.links@.len(),
                forall|j: int|
                    0 <= j < n ==> self.nodes_view()[j] == (if j < i && in_set(mask, j) {
                        (#[trigger] ns0[j]).tick_next()
                    } else {
                        ns0[j]
                    }),
                forall|j: int|
                    0 <= j < self.links_view().len() ==> link_wf(
                        self.bufs(),
                        #[trigger] self.links_view()[j],
                    ),
                res ==> exists|j: int|
                    0 <= j < i && in_set(mask, j) && (#[trigger] ns0[j]).tick_prog(),
                !res ==> forall|j: int|
                    0 <= j < i && in_set(mask, j) ==> !(#[trigger] ns0[j]).tick_prog(),
                !res ==> self.nodes_view() == ns0,
            decreases n - i,
        {
            let ghost pre = self.nodes_view();
            let ghost preb = self.bufs();
            proof {
                assert(pre[i as int] == ns0[i as int]);
            }
            let in_this_set = match nodes {
                None => true,
                Some(v) => i < v.len() && v[i],
            };
            proof {
                assert(in_this_set == in_set(mask, i as int));
            }
            if in_this_set {
                let prog = {
                    let nd = &mut self.nodes[i];
                    nd.0.tick()
                };
                res = res || prog;
                proof {
                    assert(prog == ns0[i as int].tick_prog());
                    assert(self.nodes_view() =~= pre.update(i as int, ns0[i as int].tick_next()));
                    if !prog {
                        assert(self.nodes_view()[i as int] == ns0[i as int]);
                        assert(self.nodes_view() =~= pre);
                    }
                    if prog {
                        assert(in_set(mask, i as int) && ns0[i as int].tick_prog());
                    }
                    assert forall|j: int| 0 <= j < self.links_view().len() implies link_wf(
                        self.bufs(),
                        #[trigger] self.links_view()[j],
                    ) by {
                        let l = self.links_view()[j];
                        assert(link_wf(preb, l));
                        let a = l.pull.id as int;
                        let b = l.push.id as int;
                        assert(ports_stable(&pre[i as int], &self.nodes_view()[i as int]));
                        assert(self.bufs()[a].pull.dom() == preb[a].pull.dom());
                        assert(self.bufs()[b].push.dom() == preb[b].push.dom());
                        assert(self.bufs()[a].pull[l.pull.name].kind == preb[a].pull[l.pull.name].kind);
                        assert(self.bufs()[b].push[l.push.name].kind == preb[b].push[l.push.name].kind);
                    }
                }
            }
            i = i + 1;
        }
        proof {
            assert(self.nodes_view() =~= all_ticked(ns0, mask));
            if res {
                assert(any_prog(ns0, mask));
            } else {
                assert forall|j: int|
                    0 <= j < ns0.len() && in_set(mask, j) implies !(
                #[trigger] ns0[j]).tick_prog() by {}
                assert(!any_prog(ns0, mask));
            }
        }
        res
    }

    /// Ticks every link in insertion order: each transfers as many whole
    /// elements as its producer has ready and its consumer can take.
    /// Returns true exactly when any element was carried; an idle phase
    /// leaves the graph unchanged, and after it no link can transfer.
    pub fn tick_links(&mut self) -> (r: bool)
        requires
            old(self).wf(),
        ensures
            final(self).wf(),
            final(self).bufs() == links_pass(
                old(self).bufs(),
                old(self).links_view(),
                old(self).links_view().len() as int,
            ).0,
            final(self).links_view() == old(self).links_view(),
            final(self).names() == old(self).names(),
            final(self).nodes_view().len() == old(self).nodes_view().len(),
            ({
                let moved = links_pass(
                    old(self).bufs(),
                    old(self).links_view(),
                    old(self).links_view().len() as int,
                ).1;
                &&& final(self).transfer_log().len() == old(self).transfer_log().len()
                &&& forall|j: int|
                    0 <= j < moved.len() ==> final(self).transfer_log()[j]
                        == old(self).transfer_log()[j] + moved[j]
                &&& r == any_moved(moved)
            }),
            !r ==> (final(self).nodes_view() == old(self).nodes_view()
                && final(self).transfer_log() == old(self).transfer_log()
                && links_quiescent(final(self).bufs(), final(self).links_view())),
            links_quiescent(old(self).bufs(), old(self).links_view()) ==> (!r
                && final(self).nodes_view() == old(self).nodes_view()),
            final(self).finish_log() == old(self).finish_log(),
    {
        let ghost bufs0 = self.bufs();
        let ghost lv = self.links_view();
        let ghost log0 = self.transfers@;
        let n = self.links.len();
        let mut res = false;
        let mut i: usize = 0;
        while i < n
            invariant
                i <= n == self.links_view().len(),
                bufs0 == old(self).bufs(),
                lv == old(self).links_view(),
                log0 == old(self).transfer_log(),
                self.links_view() == lv,
                self.names() == old(self).names(),
                self.nodes_view().len() == old(self).nodes_view().len(),
                self.finish_log() == old(self).finish_log(),
                self.node_names@.len() == self.nodes@.len(),
                self.transfers@.len() == self.links@.len(),
                self.bufs() == links_pass(bufs0, lv, i as int).0,
                links_pass(bufs0, lv, i as int).1.len() == i,
                forall|j: int|
                    0 <= j < n ==> self.transfers@[j] == (if j < i {
                        log0[j] + links_pass(bufs0, lv, i as int).1[j]
                    } else {
                        log0[j]
                    }),
                forall|j: int|
                    0 <= j < self.links_view().len() ==> link_wf(
                        self.bufs(),
                        #[trigger] self.links_view()[j],
                    ),
                res ==> any_moved(links_pass(bufs0, lv, i as int).1),
                !res ==> forall|j: int|
                    0 <= j < i ==> links_pass(bufs0, lv, i as int).1[j].len() == 0,
                !res ==> (self.nodes_view() == old(self).nodes_view() && self.transfers@ == log0),
            decreases n - i,
        {
            let ghost pre = self.bufs();
            let ghost prem = links_pass(bufs0, lv, i as int).1;
            proof {
                assert(links_pass(bufs0, lv, i as int + 1).0 == apply_link(pre, lv[i as int]));
                assert(links_pass(bufs0, lv, i as int + 1).1 == prem.push(
                    link_moved(pre, lv[i as int]),
                ));
            }
            let count = {
                let l = &self.links[i];
                proof {
                    assert(self.links_view()[i as int] == (LinkView { pull: l.0@, push: l.1@ }));
                    assert(link_wf(self.bufs(), self.links_view()[i as int]));
                }
                let ready = self.nodes[l.0.id()].0.ready_to_pull(&l.0);
                let free = self.nodes[l.1.id()].0.ready_to_push(&l.1);
                if ready <= free {
                    ready
                } else {
                    free
                }
            };
            proof {
                assert(count == link_count(pre, lv[i as int]));
            }
            if count > 0 {
                let pull = self.links[i].0.duplicate();
                let push = self.links[i].1.duplicate();
                proof {
                    assert(pull@ == lv[i as int].pull);
                    assert(push@ == lv[i as int].push);
                }
                let ghost a = lv[i as int].pull.id as int;
                let ghost b = lv[i as int].push.id as int;
                let frame = {
                    let nd = &mut self.nodes[pull.id()];
                    nd.0.pull_frame(&pull, count)
                };
                let ghost mid = self.bufs();
                proof {
                    let src = pre[a].pull[lv[i as int].pull.name];
                    assert(mid =~= pre.update(
                        a,
                        BufsView {
                            pull: pre[a].pull.insert(
                                lv[i as int].pull.name,
                                spec_remove(src, count as nat).0,
                            ),
                            push: pre[a].push,
                        },
                    ));
                    assert(frame@.elems == link_moved(pre, lv[i as int]));
                    assert(mid[b].push[lv[i as int].push.name]
                        == pre[b].push[lv[i as int].push.name]);
                }
                {
                    let nd = &mut self.nodes[push.id()];
                    nd.0.push_frame(&push, frame);
                }
                proof {
                    let dst = mid[b].push[lv[i as int].push.name];
                    assert(self.bufs() =~= mid.update(
                        b,
                        BufsView {
                            pull: mid[b].pull,
                            push: mid[b].push.insert(
                                lv[i as int].push.name,
                                spec_add(dst, frame@).0,
                            ),
                        },
                    ));
                    assert(dst.elems.len() + frame@.elems.len() <= dst.cap);
                    assert(spec_add(dst, frame@).0 == (FrameView {
                        kind: dst.kind,
                        cap: dst.cap,
                        elems: dst.elems + frame@.elems,
                    }));
                    assert(self.bufs() =~= apply_link(pre, lv[i as int]));
                    self.transfers@ = self.transfers@.update(
                        i as int,
                        self.transfers@[i as int] + frame@.elems,
                    );
                    assert(links_pass(bufs0, lv, i as int + 1).1[i as int] == link_moved(
                        pre,
                        lv[i as int],
                    ));
                    assert(link_moved(pre, lv[i as int]).len() == count);
                    assert(any_moved(links_pass(bufs0, lv, i as int + 1).1));
                    assert forall|j: int| 0 <= j < self.links_view().len() implies link_wf(
                        self.bufs(),
                        #[trigger] self.links_view()[j],
                    ) by {
                        lemma_apply_link_wf(pre, lv[i as int], self.links_view()[j]);
                    }
                }
                res = true;
            } else {
                proof {
                    assert(apply_link(pre, lv[i as int]) == pre);
                    assert(link_moved(pre, lv[i as int]) =~= Seq::<ElemView>::empty());
                    assert(log0[i as int] + Seq::<ElemView>::empty() =~= log0[i as int]);
                    if res {
                        let j0 = choose|j: int| 0 <= j < prem.len() && (#[trigger] prem[j]).len()
                            > 0;
                        assert(links_pass(bufs0, lv, i as int + 1).1[j0] == prem[j0]);
                    }
                }
            }
            i = i + 1;
        }
        proof {
            if res {
                assert(any_moved(links_pass(bufs0, lv, n as int).1));
            } else {
                lemma_pass_no_moves(bufs0, lv, n as int);
                assert(!any_moved(links_pass(bufs0, lv, n as int).1));
                assert(links_quiescent(self.bufs(), self.links_view()));
            }
            if links_quiescent(bufs0, lv) {
                lemma_pass_quiescent(bufs0, lv, n as int);
                assert(!any_moved(links_pass(bufs0, lv, n as int).1));
                assert(!res);
            }
        }
        res
    }
}

impl<N: Node2TA> Default for NodeGraph<N> {
    /// The same empty graph `NodeGraph::new` builds.
    fn default() -> (r: Self)
        ensures
            r.wf(),
            r.nodes_view() == Seq::<N>::empty(),
            r.links_view() == Seq::<LinkView>::empty(),
            r.names() == Seq::<Seq<char>>::empty(),
            r.transfer_log() == Seq::<Seq<ElemView>>::empty(),
            r.finish_log() == Seq::<FinishCall<N>>::empty(),
    {
        Self::new()
    }
}

/// Whether node `n` survives a prune step: some link feeds `n` from a
/// producer that is still in the active set.
pub open spec fn spec_prune(links: Seq<LinkView>, active: Seq<bool>, n: int) -> bool {
    exists|i: int|
        0 <= i < links.len() && (#[trigger] links[i]).push.id == n && links[i].pull.id
            < active.len() && active[links[i].pull.id as int]
}

/// Prune rule: a node survives the prune step exactly when some inbound
/// link has a still-active producer. Hence every surviving node has an
/// active upstream producer, and a node with no inbound link at all — a
/// pure source — is pruned on the first step.
pub proof fn lemma_prune_rule(links: Seq<LinkView>, active: Seq<bool>, n: int)
    ensures
        spec_prune(links, active, n) ==> exists|i: int|
            0 <= i < links.len() && (#[trigger] links[i]).push.id == n && links[i].pull.id
                < active.len() && active[links[i].pull.id as int],
        (forall|i: int| 0 <= i < links.len() ==> (#[trigger] links[i]).push.id != n)
            ==> !spec_prune(links, active, n),
{
}

/// The all-active mask over `n` nodes.
pub open spec fn all_active(n: nat) -> Seq<bool> {
    Seq::new(n, |i: int| true)
}

/// The active set one prune step later: the functional form of
/// [`NodeGraph::next_active`], over `n` nodes.
pub open spec fn next_active_spec(links: Seq<LinkView>, active: Seq<bool>, n: nat) -> Seq<bool> {
    Seq::new(n, |i: int| spec_prune(links, active, i))
}

/// The active set after `k` prune steps.
pub open spec fn active_after(links: Seq<LinkView>, active: Seq<bool>, k: nat) -> Seq<bool>
    decreases k,
{
    if k == 0 {
        active
    } else {
        active_after(links, next_active_spec(links, active, active.len()), (k - 1) as nat)
    }
}

/// The ids that leave the active set at one prune step, in ascending
/// order, scanning from position `i`.
pub open spec fn leaving_from(links: Seq<LinkView>, active: Seq<bool>, i: int) -> Seq<int>
    decreases active.len() - i,
{
    if i < 0 || i >= active.len() {
        Seq::empty()
    } else {
        let rest = leaving_from(links, active, i + 1);
        if active[i] && !spec_prune(links, active, i) {
            seq![i] + rest
        } else {
            rest
        }
    }
}

/// The finish schedule: the node ids the run loop asks to finish, pass by
/// pass — each pass the nodes just leaving the active set, in ascending
/// id order — over the first `passes` prune steps.
pub open spec fn finish_schedule(links: Seq<LinkView>, active: Seq<bool>, passes: nat) -> Seq<int>
    decreases passes,
{
    if passes == 0 {
        Seq::empty()
    } else {
        leaving_from(links, active, 0) + finish_schedule(
            links,
            next_active_spec(links, active, active.len()),
            (passes - 1) as nat,
        )
    }
}

/// The shape of the finish calls one `run` appends to the log: the first
/// `k` passes of the finish schedule, whole, followed by the first `m`
/// leavers of pass `k` when the budget cut that pass short. When the run
/// reported done, pass `k` has no leavers and the prune chain has reached
/// its fixpoint, so nothing further is ever scheduled.
pub open spec fn run_log_shape(
    links: Seq<LinkView>,
    n: nat,
    delta: Seq<int>,
    done: bool,
    k: nat,
    m: int,
) -> bool {
    let chain = active_after(links, all_active(n), k);
    let pass = leaving_from(links, chain, 0);
    &&& 0 <= m <= pass.len()
    &&& delta == finish_schedule(links, all_active(n), k) + pass.take(m)
    &&& (done ==> pass == Seq::<int>::empty() && next_active_spec(links, chain, n) == chain)
}

/// A record of one finish call the run loop made: which node was asked,
/// in what state, and whether it declared itself terminally done.
pub struct FinishCall<N> {
    /// The id of the node asked to finish.
    pub id: int,
    /// The node's state when asked; its answer is `before.finish_done()`
    /// and its state right after the call is `before.finish_next()`.
    pub before: N,
    /// The answer: whether the node declared it can never work again.
    pub done: bool,
    /// Whether no link could transfer when the node was asked. The run
    /// loop asks on an idle graph — rerunning the inner loop when an
    /// answer is false — except immediately after an answer of true.
    pub quiet: bool,
}

/// The node ids of a finish log, in call order.
pub open spec fn finish_ids<N>(log: Seq<FinishCall<N>>) -> Seq<int> {
    log.map_values(|e: FinishCall<N>| e.id)
}

/// A prune step keeps its active-set length.
proof fn lemma_active_after_len(links: Seq<LinkView>, active: Seq<bool>, k: nat)
    ensures
        active_after(links, active, k).len() == active.len(),
    decreases k,
{
    if k > 0 {
        lemma_active_after_len(links, next_active_spec(links, active, active.len()), (k - 1) as nat);
    }
}

/// The chain of prune steps grows one step at a time: the set after
/// `k + 1` steps is the prune of the set after `k`.
proof fn lemma_active_after_snoc(links: Seq<LinkView>, active: Seq<bool>, k: nat)
    ensures
        active_after(links, active, (k + 1) as nat) == next_active_spec(
            links,
            active_after(links, active, k),
            active_after(links, active, k).len() as nat,
        ),
    decreases k,
{
    lemma_active_after_len(links, active, k);
    let next = next_active_spec(links, active, active.len());
    assert(active_after(links, active, (k + 1) as nat) == active_after(links, next, k));
    if k == 0 {
        assert(active_after(links, next, 0) == next);
        assert(active_after(links, active, 0) == active);
    } else {
        lemma_active_after_snoc(links, next, (k - 1) as nat);
        assert(active_after(links, active, k) == active_after(links, next, (k - 1) as nat));
    }
}

/// Extending the schedule by one pass appends exactly that pass's leavers.
proof fn lemma_schedule_snoc(links: Seq<LinkView>, active: Seq<bool>, k: nat)
    ensures
        finish_schedule(links, active, (k + 1) as nat) == finish_schedule(links, active, k)
            + leaving_from(links, active_after(links, active, k), 0),
    decreases k,
{
    let next = next_active_spec(links, active, active.len());
    assert(finish_schedule(links, active, (k + 1) as nat) == leaving_from(links, active, 0)
        + finish_schedule(links, next, k));
    if k == 0 {
        assert(finish_schedule(links, next, 0) == Seq::<int>::empty());
        assert(finish_schedule(links, active, 0) == Seq::<int>::empty());
        assert(active_after(links, active, 0) == active);
        assert(finish_schedule(links, active, 1) =~= Seq::<int>::empty() + leaving_from(
            links,
            active,
            0,
        ));
    } else {
        lemma_schedule_snoc(links, next, (k - 1) as nat);
        assert(finish_schedule(links, active, k) == leaving_from(links, active, 0)
            + finish_schedule(links, next, (k - 1) as nat));
        assert(active_after(links, active, k) == active_after(links, next, (k - 1) as nat));
        assert(finish_schedule(links, active, (k + 1) as nat) =~= finish_schedule(links, active, k)
            + leaving_from(links, active_after(links, active, k), 0));
    }
}

/// A node that a prune step would drop appears in that step's leaver list.
proof fn lemma_leaver_in_list(links: Seq<LinkView>, active: Seq<bool>, j: int, i: int)
    requires
        0 <= j <= i < active.len(),
        active[i],
        !spec_prune(links, active, i),
    ensures
        leaving_from(links, active, j).len() > 0,
    decreases i - j,
{
    if j < i {
        lemma_leaver_in_list(links, active, j + 1, i);
    }
}

/// The prune chain from the all-active set only ever shrinks: a node
/// outside one step's set is outside every later step's set.
pub proof fn lemma_chain_decreasing(links: Seq<LinkView>, n: nat, k: nat)
    ensures
        forall|i: int|
            0 <= i < n && active_after(links, all_active(n), (k + 1) as nat)[i]
                ==> #[trigger] active_after(links, all_active(n), k)[i],
    decreases k,
{
    lemma_active_after_len(links, all_active(n), k);
    lemma_active_after_len(links, all_active(n), (k + 1) as nat);
    lemma_active_after_snoc(links, all_active(n), k);
    if k == 0 {
    } else {
        lemma_chain_decreasing(links, n, (k - 1) as nat);
        lemma_active_after_snoc(links, all_active(n), (k - 1) as nat);
        let prev = active_after(links, all_active(n), (k - 1) as nat);
        let cur = active_after(links, all_active(n), k);
        let next = active_after(links, all_active(n), (k + 1) as nat);
        assert forall|i: int| 0 <= i < n && next[i] implies #[trigger] cur[i] by {
            assert(spec_prune(links, cur, i));
            let w = choose|w: int|
                0 <= w < links.len() && (#[trigger] links[w]).push.id == i && links[w].pull.id
                    < cur.len() && cur[links[w].pull.id as int];
            assert(prev[links[w].pull.id as int]);
            assert(spec_prune(links, prev, i));
        }
    }
}

/// A fixpoint of the prune step schedules no finishes: once no node
/// leaves the active set, none ever will.
pub proof fn lemma_schedule_fixpoint(links: Seq<LinkView>, active: Seq<bool>, passes: nat)
    requires
        next_active_spec(links, active, active.len() as nat) == active,
    ensures
        finish_schedule(links, active, passes) == Seq::<int>::empty(),
    decreases passes,
{
    if passes > 0 {
        assert forall|i: int| 0 <= i < active.len() implies !(active[i] && !spec_prune(
            links,
            active,
            i,
        )) by {
            assert(next_active_spec(links, active, active.len() as nat)[i] == active[i]);
        }
        lemma_leaving_all_kept(links, active, 0);
        lemma_schedule_fixpoint(links, active, (passes - 1) as nat);
        assert(finish_schedule(links, active, passes) =~= Seq::<int>::empty());
    }
}

/// A node that a prune step drops appears in that step's leaver list.
proof fn lemma_leaver_listed(links: Seq<LinkView>, active: Seq<bool>, j: int, i: int)
    requires
        0 <= j <= i < active.len(),
        active[i],
        !spec_prune(links, active, i),
    ensures
        leaving_from(links, active, j).contains(i),
    decreases i - j,
{
    if j == i {
        assert(leaving_from(links, active, j)[0] == i);
    } else {
        lemma_leaver_listed(links, active, j + 1, i);
        let rest = leaving_from(links, active, j + 1);
        let idx = choose|idx: int| 0 <= idx < rest.len() && rest[idx] == i;
        if active[j] && !spec_prune(links, active, j) {
            assert(leaving_from(links, active, j)[idx + 1] == i);
        } else {
            assert(leaving_from(links, active, j)[idx] == i);
        }
    }
}

/// Every node outside the active set after `k` prune steps was scheduled
/// to finish during those steps: a node leaves the all-active chain
/// exactly through some pass's leaver list. Together with `run`'s
/// contract this says that, when the driver reports done, every node no
/// longer active has been asked to finish at least once.
pub proof fn lemma_pruned_is_scheduled(links: Seq<LinkView>, n: nat, k: nat, i: int)
    requires
        0 <= i < n,
        !active_after(links, all_active(n), k)[i],
    ensures
        finish_schedule(links, all_active(n), k).contains(i),
    decreases k,
{
    lemma_active_after_len(links, all_active(n), k);
    if k == 0 {
        assert(all_active(n)[i]);
    } else {
        let kk = (k - 1) as nat;
        let prev = active_after(links, all_active(n), kk);
        lemma_active_after_len(links, all_active(n), kk);
        lemma_active_after_snoc(links, all_active(n), kk);
        lemma_schedule_snoc(links, all_active(n), kk);
        let sched = finish_schedule(links, all_active(n), kk);
        let pass = leaving_from(links, prev, 0);
        if prev[i] {
            assert(active_after(links, all_active(n), k)[i] == spec_prune(links, prev, i));
            lemma_leaver_listed(links, prev, 0, i);
            let idx = choose|idx: int| 0 <= idx < pass.len() && pass[idx] == i;
            assert(finish_schedule(links, all_active(n), k)[sched.len() + idx] == i);
        } else {
            lemma_pruned_is_scheduled(links, n, kk, i);
            let idx = choose|idx: int| 0 <= idx < sched.len() && sched[idx] == i;
            assert(finish_schedule(links, all_active(n), k)[idx] == i);
        }
    }
}

/// When no node would leave, the leaver list is empty from any start.
proof fn lemma_leaving_all_kept(links: Seq<LinkView>, active: Seq<bool>, i: int)
    requires
        forall|m: int| 0 <= m < active.len() ==> !(active[m] && !spec_prune(links, active, m)),
    ensures
        leaving_from(links, active, i) == Seq::<int>::empty(),
    decreases active.len() - i,
{
    if 0 <= i < active.len() {
        lemma_leaving_all_kept(links, active, i + 1);
    }
}

impl<N: Node2TA> NodeGraph<N> {
    /// Whether nothing in the graph can advance: no node would report
    /// progress, and no link can transfer.
    pub open spec fn quiescent(&self) -> bool {
        &&& !any_prog(self.nodes_view(), None)
        &&& links_quiescent(self.bufs(), self.links_view())
    }

    /// One scheduler step: tick every node in id order, then transfer
    /// along every link in insertion order. Returns true exactly when
    /// either phase advanced.
    ///
    /// Progress monotonicity: a step that returns false leaves the graph
    /// unchanged and quiescent, and a step on a quiescent graph returns
    /// false — so once `tick` reports no progress, every later step
    /// reports none, until something outside the scheduler changes the
    /// graph.
    pub fn tick(&mut self) -> (r: bool)
        requires
            old(self).wf(),
        ensures
            final(self).wf(),
            final(self).links_view() == old(self).links_view(),
            final(self).names() == old(self).names(),
            final(self).nodes_view().len() == old(self).nodes_view().len(),
            ({
                let ns1 = all_ticked(old(self).nodes_view(), None);
                let pass = links_pass(
                    bufs_of(ns1),
                    old(self).links_view(),
                    old(self).links_view().len() as int,
                );
                &&& final(self).bufs() == pass.0
                &&& r == (any_prog(old(self).nodes_view(), None) || any_moved(pass.1))
            }),
            !r ==> (final(self).nodes_view() == old(self).nodes_view()
                && final(self).transfer_log() == old(self).transfer_log()
                && final(self).quiescent()),
            old(self).quiescent() ==> !r,
            final(self).finish_log() == old(self).finish_log(),
    {
        let a = self.tick_nodes(None);
        let b = self.tick_links();
        proof {
            if !(a || b) {
                assert(!any_prog(final(self).nodes_view(), None));
            }
            if old(self).quiescent() {
                assert(!a);
            }
        }
        a || b
    }

    /// One prune step: a node stays active exactly when at least one of
    /// its upstream producers is still in the active set. Pure sources —
    /// nodes with no inbound link — are dropped on the first step.
    pub fn next_active(&self, active: &Vec<bool>) -> (r: Vec<bool>)
        requires
            self.wf(),
        ensures
            r@.len() == self.nodes_view().len(),
            forall|m: int|
                0 <= m < r@.len() ==> r@[m] == spec_prune(self.links_view(), active@, m),
    {
        let n = self.nodes.len();
        let nlinks = self.links.len();
        let mut r: Vec<bool> = Vec::new();
        let mut m: usize = 0;
        while m < n
            invariant
                m <= n == self.nodes_view().len(),
                nlinks == self.links_view().len(),
                r@.len() == m,
                forall|x: int| 0 <= x < m ==> r@[x] == spec_prune(self.links_view(), active@, x),
            decreases n - m,
        {
            let mut stays = false;
            let mut i: usize = 0;
            while i < nlinks
                invariant
                    i <= nlinks == self.links_view().len(),
                    m < n == self.nodes_view().len(),
                    stays ==> spec_prune(self.links_view(), active@, m as int),
                    !stays ==> forall|j: int|
                        0 <= j < i ==> !((#[trigger] self.links_view()[j]).push.id == m as int
                            && self.links_view()[j].pull.id < active@.len()
                            && active@[self.links_view()[j].pull.id as int]),
                decreases nlinks - i,
            {
                let hit = {
                    let l = &self.links[i];
                    proof {
                        assert(self.links_view()[i as int] == (LinkView {
                            pull: l.0@,
                            push: l.1@,
                        }));
                    }
                    if l.1.id() == m {
                        let pid = l.0.id();
                        pid < active.len() && active[pid]
                    } else {
                        false
                    }
                };
                if hit {
                    proof {
                        assert(spec_prune(self.links_view(), active@, m as int)) by {
                            assert((#[trigger] self.links_view()[i as int]).push.id == m as int
                                && self.links_view()[i as int].pull.id < active@.len()
                                && active@[self.links_view()[i as int].pull.id as int]);
                        }
                    }
                    stays = true;
                }
                i = i + 1;
            }
            proof {
                if !stays {
                    assert(!spec_prune(self.links_view(), active@, m as int));
                }
            }
            r.push(stays);
            m = m + 1;
        }
        r
    }

    /// Runs scheduler steps over the active set until neither nodes nor
    /// links advance, spending one unit of `fuel` per step. Returns
    /// `Some(progress)` when the fixed point was reached — the links are
    /// then quiescent — and `None` when the budget ran out first.
    fn run_inner(&mut self, active: &Vec<bool>, fuel: &mut usize) -> (r: Option<bool>)
        requires
            old(self).wf(),
        ensures
            final(self).wf(),
            final(self).links_view() == old(self).links_view(),
            final(self).names() == old(self).names(),
            final(self).nodes_view().len() == old(self).nodes_view().len(),
            final(self).finish_log() == old(self).finish_log(),
            *final(fuel) <= *old(fuel),
            r is Some ==> *final(fuel) < *old(fuel),
            r is None ==> *final(fuel) == 0,
            r is Some ==> links_quiescent(final(self).bufs(), final(self).links_view()),
    {
        let mut progress = false;
        loop
            invariant
                self.wf(),
                self.links_view() == old(self).links_view(),
                self.names() == old(self).names(),
                self.nodes_view().len() == old(self).nodes_view().len(),
                self.finish_log() == old(self).finish_log(),
                *fuel <= *old(fuel),
            decreases *fuel,
        {
            if *fuel == 0 {
                return None;
            }
            *fuel = *fuel - 1;
            let a = self.tick_nodes(Some(active));
            let b = self.tick_links();
            if !(a || b) {
                return Some(progress);
            }
            progress = true;
        }
    }

    /// Drives the graph towards completion: repeat the inner fixed-point
    /// loop, prune nodes whose upstream producers have all been pruned,
    /// and ask each pruned node to finish — rerunning the inner loop over
    /// the old active set when a node asks for more ticks to flush —
    /// until a full outer pass makes no progress. On an acyclic graph
    /// this drains the pipeline from the sources downward, one layer per
    /// outer pass.
    ///
    /// Every scheduler step spends one unit of `fuel`; the driver returns
    /// true when it reached the fixed point and false when the budget ran
    /// out first, leaving the graph ready to be driven further.
    ///
    /// The finish protocol is pinned by the ghost finish log: the calls
    /// this driver appends are exactly the [`finish_schedule`] — pass by
    /// pass, each pass the nodes just leaving the active set, in
    /// ascending id order — possibly cut short, mid-pass, by the budget.
    /// When the driver reports done, the recorded passes are whole, the
    /// prune chain has reached a fixpoint that schedules no further
    /// finishes (see [`lemma_schedule_fixpoint`]), and no link can
    /// transfer anything.
    pub fn run(&mut self, fuel: usize) -> (done: bool)
        requires
            old(self).wf(),
        ensures
            final(self).wf(),
            final(self).links_view() == old(self).links_view(),
            final(self).names() == old(self).names(),
            final(self).nodes_view().len() == old(self).nodes_view().len(),
            done ==> links_quiescent(final(self).bufs(), final(self).links_view()),
            final(self).finish_log().len() >= old(self).finish_log().len(),
            final(self).finish_log().subrange(0, old(self).finish_log().len() as int)
                == old(self).finish_log(),
            forall|j: int|
                old(self).finish_log().len() <= j < final(self).finish_log().len() ==> ((
                #[trigger] final(self).finish_log()[j]).done
                    == final(self).finish_log()[j].before.finish_done()
                    && 0 <= final(self).finish_log()[j].id < old(self).nodes_view().len()),
            forall|j: int|
                old(self).finish_log().len() <= j < final(self).finish_log().len() ==> ((
                #[trigger] final(self).finish_log()[j]).quiet || (j > old(self).finish_log().len()
                    && final(self).finish_log()[j - 1].done)),
            exists|k: nat, m: int|
                #[trigger] run_log_shape(
                    old(self).links_view(),
                    old(self).nodes_view().len() as nat,
                    finish_ids(
                        final(self).finish_log().subrange(
                            old(self).finish_log().len() as int,
                            final(self).finish_log().len() as int,
                        ),
                    ),
                    done,
                    k,
                    m,
                ),
    {
        let n = self.nodes.len();
        let ghost lv = self.links_view();
        let ghost nn = n as nat;
        let ghost log0 = self.finishes@;
        let mut fuel = fuel;
        let mut active: Vec<bool> = Vec::new();
        let mut i: usize = 0;
        while i < n
            invariant
                i <= n,
                active@.len() == i,
                forall|j: int| 0 <= j < i ==> active@[j],
            decreases n - i,
        {
            active.push(true);
            i = i + 1;
        }
        proof {
            assert(active@ =~= all_active(nn));
        }
        let ghost mut k: nat = 0;
        proof {
            assert(self.finishes@.subrange(log0.len() as int, self.finishes@.len() as int)
                =~= Seq::<FinishCall<N>>::empty());
            assert(finish_ids(Seq::<FinishCall<N>>::empty()) =~= Seq::<int>::empty());
            assert(self.finishes@.subrange(0, log0.len() as int) =~= log0);
        }
        loop
            invariant
                self.wf(),
                self.links_view() == old(self).links_view(),
                lv == old(self).links_view(),
                self.names() == old(self).names(),
                self.nodes_view().len() == old(self).nodes_view().len(),
                n == self.nodes_view().len(),
                nn == n as nat,
                log0 == old(self).finish_log(),
                active@.len() == n,
                active@ == active_after(lv, all_active(nn), k),
                self.finishes@.len() >= log0.len(),
                self.finishes@.subrange(0, log0.len() as int) == log0,
                finish_ids(
                    self.finishes@.subrange(log0.len() as int, self.finishes@.len() as int),
                ) == finish_schedule(lv, all_active(nn), k),
                forall|j: int|
                    log0.len() <= j < self.finishes@.len() ==> ((#[trigger] self.finishes@[j]).done
                        == self.finishes@[j].before.finish_done() && 0 <= self.finishes@[j].id
                        < n),
                forall|j: int|
                    log0.len() <= j < self.finishes@.len() ==> ((
                    #[trigger] self.finishes@[j]).quiet || (j > log0.len()
                        && self.finishes@[j - 1].done)),
            decreases fuel,
        {
            let ghost fuel0 = fuel;
            let mut progress = match self.run_inner(&active, &mut fuel) {
                None => {
                    proof {
                        let chain = active_after(lv, all_active(nn), k);
                        let pass = leaving_from(lv, chain, 0);
                        assert(pass.take(0) =~= Seq::<int>::empty());
                        assert(finish_schedule(lv, all_active(nn), k) + pass.take(0)
                            =~= finish_schedule(lv, all_active(nn), k));
                        assert(run_log_shape(
                            lv,
                            nn,
                            finish_ids(
                                self.finishes@.subrange(
                                    log0.len() as int,
                                    self.finishes@.len() as int,
                                ),
                            ),
                            false,
                            k,
                            0,
                        ));
                    }
                    return false;
                },
                Some(p) => p,
            };
            let ghost quiet_bufs = self.bufs();
            let active_prev = active;
            active = self.next_active(&active_prev);
            proof {
                assert(active@ =~= next_active_spec(lv, active_prev@, nn));
            }
            let ghost mut block: Seq<int> = Seq::empty();
            proof {
                assert(block + leaving_from(lv, active_prev@, 0) =~= leaving_from(
                    lv,
                    active_prev@,
                    0,
                ));
                assert(finish_ids(
                    self.finishes@.subrange(log0.len() as int, self.finishes@.len() as int),
                ) =~= finish_schedule(lv, all_active(nn), k) + block);
            }
            let mut id: usize = 0;
            while id < n
                invariant
                    id <= n,
                    self.wf(),
                    self.links_view() == old(self).links_view(),
                    lv == old(self).links_view(),
                    self.names() == old(self).names(),
                    self.nodes_view().len() == old(self).nodes_view().len(),
                    n == self.nodes_view().len(),
                    nn == n as nat,
                    log0 == old(self).finish_log(),
                    active_prev@.len() == n,
                    active@.len() == n,
                    active_prev@ == active_after(lv, all_active(nn), k),
                    active@ == next_active_spec(lv, active_prev@, nn),
                    fuel < fuel0,
                    self.finishes@.len() >= log0.len(),
                    self.finishes@.subrange(0, log0.len() as int) == log0,
                    finish_ids(
                        self.finishes@.subrange(log0.len() as int, self.finishes@.len() as int),
                    ) == finish_schedule(lv, all_active(nn), k) + block,
                    block + leaving_from(lv, active_prev@, id as int) == leaving_from(
                        lv,
                        active_prev@,
                        0,
                    ),
                    progress || block.len() == 0,
                    forall|j: int|
                        log0.len() <= j < self.finishes@.len() ==> ((
                        #[trigger] self.finishes@[j]).done
                            == self.finishes@[j].before.finish_done() && 0 <= self.finishes@[j].id
                            < n),
                    forall|j: int|
                        log0.len() <= j < self.finishes@.len() ==> ((
                        #[trigger] self.finishes@[j]).quiet || (j > log0.len()
                            && self.finishes@[j - 1].done)),
                    links_quiescent(self.bufs(), lv) || (self.finishes@.len() > log0.len()
                        && self.finishes@[self.finishes@.len() - 1].done),
                    block.len() == 0 ==> (self.bufs() == quiet_bufs && links_quiescent(
                        quiet_bufs,
                        lv,
                    )),
                decreases n - id,
            {
                if active_prev[id] && !active[id] {
                    proof {
                        assert(active@[id as int] == spec_prune(lv, active_prev@, id as int));
                        assert(leaving_from(lv, active_prev@, id as int) == seq![id as int]
                            + leaving_from(lv, active_prev@, id as int + 1));
                    }
                    let ghost pre_ns = self.nodes_view();
                    let ghost preb = self.bufs();
                    let ghost pre_log = self.finishes@;
                    let ghost pre_block = block;
                    let ghost pre_delta = pre_log.subrange(log0.len() as int, pre_log.len() as int);
                    let done = {
                        let nd = &mut self.nodes[id];
                        nd.0.finish()
                    };
                    proof {
                        let call = FinishCall {
                            id: id as int,
                            before: pre_ns[id as int],
                            done,
                            quiet: links_quiescent(preb, lv),
                        };
                        if !links_quiescent(preb, lv) {
                            assert(pre_log.len() > log0.len() && pre_log[pre_log.len() - 1].done);
                        }
                        self.finishes@ = self.finishes@.push(call);
                        block = block.push(id as int);
                        assert(self.finishes@.subrange(0, log0.len() as int) =~= log0);
                        assert(self.finishes@.subrange(
                            log0.len() as int,
                            self.finishes@.len() as int,
                        ) =~= pre_delta.push(call));
                        assert(finish_ids(pre_delta.push(call)) =~= finish_ids(pre_delta).push(
                            id as int,
                        ));
                        assert(finish_schedule(lv, all_active(nn), k) + block =~= (finish_schedule(
                            lv,
                            all_active(nn),
                            k,
                        ) + pre_block).push(id as int));
                        assert(finish_ids(
                            self.finishes@.subrange(log0.len() as int, self.finishes@.len() as int),
                        ) == finish_schedule(lv, all_active(nn), k) + block);
                        assert(block + leaving_from(lv, active_prev@, id as int + 1)
                            =~= pre_block + leaving_from(lv, active_prev@, id as int));
                        assert forall|j: int| 0 <= j < self.links_view().len() implies link_wf(
                            self.bufs(),
                            #[trigger] self.links_view()[j],
                        ) by {
                            let l = self.links_view()[j];
                            assert(link_wf(preb, l));
                            assert(ports_stable(
                                &pre_ns[id as int],
                                &self.nodes_view()[id as int],
                            ));
                            assert(self.bufs()[l.pull.id as int].pull.dom() == preb[l.pull.id as int].pull.dom());
                            assert(self.bufs()[l.push.id as int].push.dom() == preb[l.push.id as int].push.dom());
                            assert(self.bufs()[l.pull.id as int].pull[l.pull.name].kind
                                == preb[l.pull.id as int].pull[l.pull.name].kind);
                            assert(self.bufs()[l.push.id as int].push[l.push.name].kind
                                == preb[l.push.id as int].push[l.push.name].kind);
                        }
                    }
                    if !done {
                        if self.run_inner(&active_prev, &mut fuel).is_none() {
                            proof {
                                let chain = active_after(lv, all_active(nn), k);
                                let whole = leaving_from(lv, chain, 0);
                                assert(block =~= whole.take(block.len() as int));
                                assert(run_log_shape(
                                    lv,
                                    nn,
                                    finish_ids(
                                        self.finishes@.subrange(
                                            log0.len() as int,
                                            self.finishes@.len() as int,
                                        ),
                                    ),
                                    false,
                                    k,
                                    block.len() as int,
                                ));
                            }
                            return false;
                        }
                    }
                    progress = true;
                } else {
                    proof {
                        assert(active@[id as int] == spec_prune(lv, active_prev@, id as int));
                        assert(leaving_from(lv, active_prev@, id as int) == leaving_from(
                            lv,
                            active_prev@,
                            id as int + 1,
                        ));
                    }
                }
                id = id + 1;
            }
            proof {
                assert(leaving_from(lv, active_prev@, n as int) =~= Seq::<int>::empty());
                assert(block =~= leaving_from(lv, active_prev@, 0));
                lemma_schedule_snoc(lv, all_active(nn), k);
                lemma_active_after_snoc(lv, all_active(nn), k);
                lemma_active_after_len(lv, all_active(nn), k);
                k = (k + 1) as nat;
                assert(finish_ids(
                    self.finishes@.subrange(log0.len() as int, self.finishes@.len() as int),
                ) =~= finish_schedule(lv, all_active(nn), k));
            }
            if !progress {
                proof {
                    let prev = active_prev@;
                    let kk = (k - 1) as nat;
                    assert(prev == active_after(lv, all_active(nn), kk));
                    assert(block.len() == 0);
                    assert(leaving_from(lv, prev, 0) =~= Seq::<int>::empty());
                    // no node leaves, so pruning keeps every member ...
                    assert forall|m: int| 0 <= m < n && prev[m] implies #[trigger] spec_prune(
                        lv,
                        prev,
                        m,
                    ) by {
                        if !spec_prune(lv, prev, m) {
                            lemma_leaver_in_list(lv, prev, 0, m);
                        }
                    }
                    // ... and along the chain from all-active it never adds
                    // one, so the chain has reached its fixpoint.
                    lemma_chain_decreasing(lv, nn, kk);
                    lemma_active_after_snoc(lv, all_active(nn), kk);
                    lemma_active_after_len(lv, all_active(nn), kk);
                    assert forall|m: int| 0 <= m < n implies next_active_spec(lv, prev, nn)[m]
                        == prev[m] by {
                        assert(next_active_spec(lv, prev, nn)[m] == spec_prune(lv, prev, m));
                        if next_active_spec(lv, prev, nn)[m] {
                            assert(active_after(lv, all_active(nn), k)[m]);
                        }
                    }
                    assert(next_active_spec(lv, prev, nn) =~= prev);
                    // the recorded passes are whole, and nothing more is owed
                    assert(leaving_from(lv, prev, 0).take(0) =~= Seq::<int>::empty());
                    assert(finish_schedule(lv, all_active(nn), k) =~= finish_schedule(
                        lv,
                        all_active(nn),
                        kk,
                    ) + leaving_from(lv, prev, 0).take(0));
                    assert(run_log_shape(
                        lv,
                        nn,
                        finish_ids(
                            self.finishes@.subrange(log0.len() as int, self.finishes@.len() as int),
                        ),
                        true,
                        kk,
                        0,
                    ));
                    assert(self.bufs() == quiet_bufs);
                }
                return true;
            }
        }
    }
}

/// Applying one link tick keeps every link of a well-formed graph valid:
/// buffers only gain or lose elements, never their names, kinds or
/// capacities.
pub proof fn lemma_apply_link_wf(bufs: Seq<BufsView>, l: LinkView, l2: LinkView)
    requires
        link_wf(bufs, l),
        link_wf(bufs, l2),
    ensures
        link_wf(apply_link(bufs, l), l2),
{
    let n = link_count(bufs, l) as int;
    if n != 0 {
        let a = l.pull.id as int;
        let b = l.push.id as int;
        let after = apply_link(bufs, l);
        let src = bufs[a].pull[l.pull.name];
        assert(bufs[a].pull.insert(
            l.pull.name,
            FrameView {
                kind: src.kind,
                cap: src.cap,
                elems: src.elems.subrange(n, src.elems.len() as int),
            },
        ).dom() =~= bufs[a].pull.dom());
        let b1 = bufs.update(
            a,
            BufsView {
                pull: bufs[a].pull.insert(
                    l.pull.name,
                    FrameView {
                        kind: src.kind,
                        cap: src.cap,
                        elems: src.elems.subrange(n, src.elems.len() as int),
                    },
                ),
                push: bufs[a].push,
            },
        );
        let dst = b1[b].push[l.push.name];
        assert(b1[b].push.insert(
            l.push.name,
            FrameView {
                kind: dst.kind,
                cap: dst.cap,
                elems: dst.elems + src.elems.subrange(0, n),
            },
        ).dom() =~= b1[b].push.dom());
        assert(after[l2.pull.id as int].pull.dom() == bufs[l2.pull.id as int].pull.dom());
        assert(after[l2.push.id as int].push.dom() == bufs[l2.push.id as int].push.dom());
        assert(after[l2.pull.id as int].pull[l2.pull.name].kind == bufs[l2.pull.id as int].pull[l2.pull.name].kind);
        assert(after[l2.push.id as int].push[l2.push.name].kind == bufs[l2.push.id as int].push[l2.push.name].kind);
    }
}

} // verus!
