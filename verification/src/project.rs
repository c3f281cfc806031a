//! Project loading: from a parsed manifest to a wired, running graph.
//!
//! A manifest declares nodes by local name — each naming a plugin-provided
//! node type and a string-keyed argument map — and the links to wire
//! between their ports. The loader instantiates every node through a
//! plugin registry, injects the project directory into each argument map
//! under the `vidmod.path` key, initialises the node so it registers its
//! ports, and then resolves and validates every link. Reading and parsing
//! the manifest file itself is the caller's concern; this module works on
//! its logical shape.

use crate::graph::{
    all_ticked, any_moved, any_prog, bufs_of, finish_ids, links_pass, links_quiescent,
    run_log_shape, NodeGraph,
};
use crate::node::{Node, Node2TA, PortError};
use vstd::prelude::*;

verus! {

/// A node declaration: the plugin-qualified type name and the constructor
/// arguments.
pub struct ManifestNode {
    /// The plugin-qualified node type name.
    pub name: String,
    /// String-keyed constructor arguments.
    pub args: Vec<(String, String)>,
}

/// A link declaration: from a node's pull port to a node's push port,
/// each endpoint a pair of local node name and port name.
pub struct ManifestLink {
    /// The producing endpoint: local node name and pull-port name.
    pub from: (String, String),
    /// The consuming endpoint: local node name and push-port name.
    pub to: (String, String),
}

/// The logical shape of a project manifest: node declarations by local
/// name, and the links to wire, in order. As entries of a manifest
/// mapping, the local names are unique.
pub struct ProjectManifest {
    /// Node declarations, by local name.
    pub nodes: Vec<(String, ManifestNode)>,
    /// The links to wire, in order.
    pub links: Vec<ManifestLink>,
}

/// The local names a manifest declares, in declaration order.
pub open spec fn manifest_names(nodes: Seq<(String, ManifestNode)>) -> Seq<Seq<char>> {
    nodes.map_values(|e: (String, ManifestNode)| e.0@)
}

/// Whether the registry provides every node type the declarations name.
pub open spec fn all_known<N, P: Plugin<N>>(
    plugins: &P,
    nodes: Seq<(String, ManifestNode)>,
) -> bool {
    forall|i: int| 0 <= i < nodes.len() ==> plugins.provides((#[trigger] nodes[i]).1.name@)
}

/// A registry of node constructors, looked up by plugin-qualified type
/// name. A build registers every available node implementation in one
/// such table; the loader consults it for each manifest declaration.
pub trait Plugin<N>: Sized {
    /// Whether the registry can construct a node of the named type. The
    /// default leaves it unspecified; a registry whose contents are to be
    /// reasoned about overrides it.
    open spec fn provides(&self, name: Seq<char>) -> bool {
        arbitrary()
    }

    /// Constructs a node of the named type from a string-keyed argument
    /// map, or returns `None` exactly when the name is unknown.
    fn make_node(&self, name: &str, args: Vec<(String, String)>) -> (r: Option<N>)
        ensures
            r is Some <==> self.provides(name@),
    ;
}

/// An error raised while building a project from its manifest.
#[derive(Clone, Copy, PartialEq, Eq, Structural, Debug)]
pub enum LoadError {
    /// A node declaration names a plugin the registry does not provide.
    UnknownPlugin,
    /// A link endpoint names a node the manifest does not declare.
    UnknownNode,
    /// A link endpoint names a port its node did not register.
    NoSuchPort,
    /// The two endpoints of a link carry different frame kinds.
    KindMismatch,
}

/// Finds the id recorded for a local node name.
fn find_id(ids: &Vec<(String, usize)>, name: &String) -> (r: Option<usize>)
    ensures
        match r {
            Some(id) => exists|j: int|
                0 <= j < ids@.len() && (#[trigger] ids@[j]).0@ == name@ && ids@[j].1 == id,
            None => forall|j: int| 0 <= j < ids@.len() ==> (#[trigger] ids@[j]).0@ != name@,
        },
{
    let n = ids.len();
    let mut i: usize = 0;
    while i < n
        invariant
            i <= n == ids@.len(),
            forall|j: int| 0 <= j < i ==> (#[trigger] ids@[j]).0@ != name@,
        decreases n - i,
    {
        if ids[i].0 == *name {
            return Some(ids[i].1);
        }
        i = i + 1;
    }
    None
}

/// The view of an argument map: each key and each value as a character
/// sequence, in entry order.
pub open spec fn args_view(s: Seq<(String, String)>) -> Seq<(Seq<char>, Seq<char>)> {
    s.map_values(|p: (String, String)| (p.0@, p.1@))
}

/// Whether some declaration bears the local name `name`.
pub open spec fn manifest_declares(nodes: Seq<(String, ManifestNode)>, name: Seq<char>) -> bool {
    exists|j: int| 0 <= j < nodes.len() && (#[trigger] nodes[j]).0@ == name
}

/// The id the loader assigns to a declared local name: its index among
/// the declarations, ids being handed out in declaration order.
pub open spec fn manifest_node_id(nodes: Seq<(String, ManifestNode)>, name: Seq<char>) -> int {
    choose|j: int| 0 <= j < nodes.len() && (#[trigger] nodes[j]).0@ == name
}

/// With distinct local names the declaration bearing a name is unique, so
/// `manifest_node_id` is exactly the known index.
proof fn lemma_manifest_node_id(nodes: Seq<(String, ManifestNode)>, name: Seq<char>, j: int)
    requires
        forall|a: int, b: int| 0 <= a < b < nodes.len() ==> nodes[a].0@ != nodes[b].0@,
        0 <= j < nodes.len(),
        nodes[j].0@ == name,
    ensures
        manifest_declares(nodes, name),
        manifest_node_id(nodes, name) == j,
{
    assert(manifest_declares(nodes, name));
    let i = manifest_node_id(nodes, name);
    assert(0 <= i < nodes.len() && nodes[i].0@ == name);
    if i < j {
        assert(nodes[i].0@ != nodes[j].0@);
    } else if j < i {
        assert(nodes[j].0@ != nodes[i].0@);
    }
}

/// One factory invocation the loader made: the plugin-qualified type name
/// it looked up, the argument map it handed over — the declared arguments
/// with the project directory appended under the `vidmod.path` key — and
/// the node the factory returned.
pub struct FactoryCall<N> {
    /// The plugin-qualified node type name looked up in the registry.
    pub plugin: Seq<char>,
    /// The argument map handed to the factory, as key/value pairs.
    pub args: Seq<(Seq<char>, Seq<char>)>,
    /// The node the factory constructed, before its initialisation.
    pub made: N,
}

/// Copies an argument map, entry for entry.
fn clone_args(args: &Vec<(String, String)>) -> (r: Vec<(String, String)>)
    ensures
        r@ == args@,
{
    let n = args.len();
    let mut r: Vec<(String, String)> = Vec::new();
    let mut i: usize = 0;
    while i < n
        invariant
            i <= n == args@.len(),
            r@.len() == i,
            forall|j: int| 0 <= j < i ==> #[trigger] r@[j] == args@[j],
        decreases n - i,
    {
        r.push((args[i].0.clone(), args[i].1.clone()));
        i = i + 1;
    }
    proof {
        assert(r@ =~= args@);
    }
    r
}

/// A loaded project: a wired node graph, ready to be driven.
pub struct Project<N: Node2TA> {
    nodes: NodeGraph<N>,
    built: Ghost<Seq<FactoryCall<N>>>,
}

impl<N: Node2TA> Project<N> {
    /// The project's node graph.
    pub closed spec fn graph(&self) -> NodeGraph<N> {
        self.nodes
    }

    /// The factory invocations that built this project, in declaration
    /// order: what each factory was asked for and what it returned.
    pub closed spec fn factory_calls(&self) -> Seq<FactoryCall<N>> {
        self.built@
    }

    /// A project is well-formed when its graph is; every project this
    /// module builds is, and ticking keeps it so.
    pub open spec fn wf(&self) -> bool {
        self.graph().wf()
    }

    /// Builds a project from a parsed manifest. Every declared node is
    /// constructed through the registry — its argument map extended with
    /// the project directory under the `vidmod.path` key — and
    /// initialised before it joins the graph; then every declared link is
    /// resolved by local name and port name and validated. Construction
    /// fails with `UnknownPlugin` exactly when some declaration names a
    /// type the registry does not provide, and otherwise reports the
    /// first link that fails to resolve or to validate; on success the
    /// factory-call record and the link wiring are pinned exactly.
    pub fn from_manifest<P: Plugin<N>>(manifest: &ProjectManifest, path: String, plugins: &P) -> (r:
        Result<Project<N>, LoadError>)
        requires
            forall|i: int, j: int|
                0 <= i < j < manifest.nodes@.len() ==> manifest.nodes@[i].0@
                    != manifest.nodes@[j].0@,
        ensures
            r == Err::<Project<N>, LoadError>(LoadError::UnknownPlugin) <==> !all_known(
                plugins,
                manifest.nodes@,
            ),
            match r {
                Ok(p) => {
                    &&& p.wf()
                    &&& p.graph().names() == manifest_names(manifest.nodes@)
                    &&& p.graph().nodes_view().len() == manifest.nodes@.len()
                    &&& p.graph().links_view().len() == manifest.links@.len()
                    &&& p.graph().finish_log().len() == 0
                    &&& p.factory_calls().len() == manifest.nodes@.len()
                    &&& forall|i: int|
                        0 <= i < manifest.nodes@.len() ==> ((#[trigger] p.factory_calls()[i]).plugin
                            == manifest.nodes@[i].1.name@ && p.factory_calls()[i].args == args_view(
                            manifest.nodes@[i].1.args@,
                        ).push(("vidmod.path"@, path@)) && p.graph().nodes_view()[i]
                            == p.factory_calls()[i].made.init_next())
                    &&& forall|k: int|
                        0 <= k < manifest.links@.len() ==> ((#[trigger] p.graph().links_view()[k]).pull.name
                            == manifest.links@[k].from.1@ && p.graph().links_view()[k].push.name
                            == manifest.links@[k].to.1@ && manifest_declares(
                            manifest.nodes@,
                            manifest.links@[k].from.0@,
                        ) && manifest_declares(manifest.nodes@, manifest.links@[k].to.0@)
                            && p.graph().links_view()[k].pull.id == manifest_node_id(
                            manifest.nodes@,
                            manifest.links@[k].from.0@,
                        ) && p.graph().links_view()[k].push.id == manifest_node_id(
                            manifest.nodes@,
                            manifest.links@[k].to.0@,
                        ))
                },
                Err(e) => e == LoadError::UnknownPlugin || e == LoadError::UnknownNode || e
                    == LoadError::NoSuchPort || e == LoadError::KindMismatch,
            },
    {
        let mut graph: NodeGraph<N> = NodeGraph::new();
        let mut ids: Vec<(String, usize)> = Vec::new();
        let ghost mut calls: Seq<FactoryCall<N>> = Seq::empty();
        let nnodes = manifest.nodes.len();
        let mut idx: usize = 0;
        while idx < nnodes
            invariant
                idx <= nnodes == manifest.nodes@.len(),
                graph.wf(),
                graph.names() == manifest_names(manifest.nodes@.subrange(0, idx as int)),
                graph.links_view().len() == 0,
                graph.finish_log().len() == 0,
                ids@.len() == idx,
                calls.len() == idx,
                graph.nodes_view().len() == idx,
                graph.names().len() == idx,
                forall|j: int|
                    0 <= j < idx ==> (#[trigger] ids@[j]).0@ == manifest.nodes@[j].0@ && ids@[j].1
                        == j,
                forall|j: int|
                    0 <= j < idx ==> ((#[trigger] calls[j]).plugin == manifest.nodes@[j].1.name@
                        && calls[j].args == args_view(manifest.nodes@[j].1.args@).push(
                        ("vidmod.path"@, path@),
                    ) && graph.nodes_view()[j] == calls[j].made.init_next()),
                forall|i: int|
                    0 <= i < idx ==> plugins.provides((#[trigger] manifest.nodes@[i]).1.name@),
            decreases nnodes - idx,
        {
            let local_name = manifest.nodes[idx].0.clone();
            let mut args = clone_args(&manifest.nodes[idx].1.args);
            args.push(("vidmod.path".to_owned(), path.clone()));
            let ghost argsv = args_view(args@);
            proof {
                assert(argsv =~= args_view(manifest.nodes@[idx as int].1.args@).push(
                    ("vidmod.path"@, path@),
                ));
            }
            match plugins.make_node(manifest.nodes[idx].1.name.as_str(), args) {
                None => {
                    proof {
                        assert(!plugins.provides(manifest.nodes@[idx as int].1.name@));
                        assert(!all_known(plugins, manifest.nodes@));
                    }
                    return Err(LoadError::UnknownPlugin);
                },
                Some(n) => {
                    proof {
                        calls = calls.push(
                            FactoryCall {
                                plugin: manifest.nodes@[idx as int].1.name@,
                                args: argsv,
                                made: n,
                            },
                        );
                    }
                    let mut node = Node(n);
                    node.init();
                    let id = graph.insert(node, local_name.clone());
                    ids.push((local_name, id));
                    proof {
                        assert(graph.names() =~= manifest_names(
                            manifest.nodes@.subrange(0, idx as int + 1),
                        ));
                    }
                },
            }
            idx = idx + 1;
        }
        proof {
            assert(manifest.nodes@.subrange(0, nnodes as int) =~= manifest.nodes@);
            assert(all_known(plugins, manifest.nodes@));
        }
        let ghost ns_built = graph.nodes_view();
        let nlinks = manifest.links.len();
        let mut li: usize = 0;
        while li < nlinks
            invariant
                li <= nlinks == manifest.links@.len(),
                graph.wf(),
                graph.finish_log().len() == 0,
                graph.names() == manifest_names(manifest.nodes@),
                graph.nodes_view() == ns_built,
                graph.nodes_view().len() == manifest.nodes@.len(),
                ids@.len() == manifest.nodes@.len(),
                calls.len() == manifest.nodes@.len(),
                forall|j: int|
                    0 <= j < ids@.len() ==> (#[trigger] ids@[j]).0@ == manifest.nodes@[j].0@
                        && ids@[j].1 == j,
                forall|j: int|
                    0 <= j < calls.len() ==> ((#[trigger] calls[j]).plugin
                        == manifest.nodes@[j].1.name@ && calls[j].args == args_view(
                        manifest.nodes@[j].1.args@,
                    ).push(("vidmod.path"@, path@)) && graph.nodes_view()[j]
                        == calls[j].made.init_next()),
                graph.links_view().len() == li,
                forall|k: int|
                    0 <= k < li ==> ((#[trigger] graph.links_view()[k]).pull.name
                        == manifest.links@[k].from.1@ && graph.links_view()[k].push.name
                        == manifest.links@[k].to.1@ && manifest_declares(
                        manifest.nodes@,
                        manifest.links@[k].from.0@,
                    ) && manifest_declares(manifest.nodes@, manifest.links@[k].to.0@)
                        && graph.links_view()[k].pull.id == manifest_node_id(
                        manifest.nodes@,
                        manifest.links@[k].from.0@,
                    ) && graph.links_view()[k].push.id == manifest_node_id(
                        manifest.nodes@,
                        manifest.links@[k].to.0@,
                    )),
                all_known(plugins, manifest.nodes@),
                forall|i: int, j: int|
                    0 <= i < j < manifest.nodes@.len() ==> manifest.nodes@[i].0@
                        != manifest.nodes@[j].0@,
            decreases nlinks - li,
        {
            let from_id = match find_id(&ids, &manifest.links[li].from.0) {
                Some(id) => id,
                None => {
                    return Err(LoadError::UnknownNode);
                },
            };
            let to_id = match find_id(&ids, &manifest.links[li].to.0) {
                Some(id) => id,
                None => {
                    return Err(LoadError::UnknownNode);
                },
            };
            proof {
                let fname = manifest.links@[li as int].from.0@;
                let fj = choose|j: int|
                    0 <= j < ids@.len() && (#[trigger] ids@[j]).0@ == fname && ids@[j].1 == from_id;
                assert(manifest.nodes@[fj].0@ == fname && from_id == fj);
                lemma_manifest_node_id(manifest.nodes@, fname, fj);
                let tname = manifest.links@[li as int].to.0@;
                let tj = choose|j: int|
                    0 <= j < ids@.len() && (#[trigger] ids@[j]).0@ == tname && ids@[j].1 == to_id;
                assert(manifest.nodes@[tj].0@ == tname && to_id == tj);
                lemma_manifest_node_id(manifest.nodes@, tname, tj);
            }
            let p1 = match graph.get_pull_port(from_id, manifest.links[li].from.1.as_str()) {
                Ok(p) => p,
                Err(_) => {
                    return Err(LoadError::NoSuchPort);
                },
            };
            let p2 = match graph.get_push_port(to_id, manifest.links[li].to.1.as_str()) {
                Ok(p) => p,
                Err(_) => {
                    return Err(LoadError::NoSuchPort);
                },
            };
            match graph.add_link(p1, p2) {
                Ok(()) => {},
                Err(PortError::NoSuchPort) => {
                    return Err(LoadError::NoSuchPort);
                },
                Err(PortError::KindMismatch) => {
                    return Err(LoadError::KindMismatch);
                },
            }
            li = li + 1;
        }
        Ok(Project { nodes: graph, built: Ghost(calls) })
    }

    /// One scheduler step over the whole graph: tick every node in id
    /// order, then transfer along every link in insertion order. Returns
    /// true exactly when a node progressed or an element moved; once a
    /// step reports no progress, the graph is unchanged and quiescent,
    /// and every later step reports none, until something outside
    /// changes it.
    pub fn tick(&mut self) -> (r: bool)
        requires
            old(self).wf(),
        ensures
            final(self).wf(),
            final(self).graph().links_view() == old(self).graph().links_view(),
            final(self).graph().names() == old(self).graph().names(),
            final(self).graph().nodes_view().len() == old(self).graph().nodes_view().len(),
            ({
                let ns1 = all_ticked(old(self).graph().nodes_view(), None);
                let pass = links_pass(
                    bufs_of(ns1),
                    old(self).graph().links_view(),
                    old(self).graph().links_view().len() as int,
                );
                &&& final(self).graph().bufs() == pass.0
                &&& r == (any_prog(old(self).graph().nodes_view(), None) || any_moved(pass.1))
            }),
            !r ==> (final(self).graph().nodes_view() == old(self).graph().nodes_view()
                && final(self).graph().transfer_log() == old(self).graph().transfer_log()
                && final(self).graph().quiescent()),
            old(self).graph().quiescent() ==> !r,
            final(self).graph().finish_log() == old(self).graph().finish_log(),
            final(self).factory_calls() == old(self).factory_calls(),
    {
        self.nodes.tick()
    }

    /// Drives the graph to its termination fixed point, spending one unit
    /// of `fuel` per scheduler step: true when the fixed point was
    /// reached, false when the budget ran out first. The graph's finish
    /// log records the prune/finish protocol the driver followed: whole
    /// passes of the finish schedule, and on completion no link can
    /// transfer and the prune chain has reached its fixpoint.
    pub fn run(&mut self, fuel: usize) -> (done: bool)
        requires
            old(self).wf(),
        ensures
            final(self).wf(),
            final(self).graph().links_view() == old(self).graph().links_view(),
            final(self).graph().names() == old(self).graph().names(),
            final(self).graph().nodes_view().len() == old(self).graph().nodes_view().len(),
            final(self).factory_calls() == old(self).factory_calls(),
            done ==> links_quiescent(
                final(self).graph().bufs(),
                final(self).graph().links_view(),
            ),
            final(self).graph().finish_log().len() >= old(self).graph().finish_log().len(),
            final(self).graph().finish_log().subrange(
                0,
                old(self).graph().finish_log().len() as int,
            ) == old(self).graph().finish_log(),
            forall|j: int|
                old(self).graph().finish_log().len() <= j < final(self).graph().finish_log().len()
                    ==> ((#[trigger] final(self).graph().finish_log()[j]).done
                    == final(self).graph().finish_log()[j].before.finish_done()
                    && 0 <= final(self).graph().finish_log()[j].id
                    < old(self).graph().nodes_view().len()),
            forall|j: int|
                old(self).graph().finish_log().len() <= j < final(self).graph().finish_log().len()
                    ==> ((#[trigger] final(self).graph().finish_log()[j]).quiet
                    || (j > old(self).graph().finish_log().len()
                        && final(self).graph().finish_log()[j - 1].done)),
            exists|k: nat, m: int|
                #[trigger] run_log_shape(
                    old(self).graph().links_view(),
                    old(self).graph().nodes_view().len() as nat,
                    finish_ids(
                        final(self).graph().finish_log().subrange(
                            old(self).graph().finish_log().len() as int,
                            final(self).graph().finish_log().len() as int,
                        ),
                    ),
                    done,
                    k,
                    m,
                ),
    {
        self.nodes.run(fuel)
    }
}

} // verus!
