use vidmod::frame::{Frame, FrameKind, FrameSingle};
use vidmod::graph::NodeGraph;
use vidmod::node::{FinishNode, Node, Node2, Node2MT, Node2T, PortError, PullPort, PushPort, TickNode};
use vidmod::project::{LoadError, ManifestLink, ManifestNode, Plugin, Project, ProjectManifest};
use vidmod::queue::LimVecDeque;

/// A test node: a counting u16 source, or a sink that checks it receives
/// 0, 1, 2, ... in order and, if asked, that it got exactly `want` of them
/// by finish time.
enum TestNode {
    Source { n: u16, limit: u16, node: Node2 },
    Sink { expect: u16, want: Option<u16>, cap: usize, kind: FrameKind, node: Node2 },
}

impl TestNode {
    fn source(limit: u16) -> Self {
        TestNode::Source { n: 0, limit, node: Node2::new() }
    }

    fn sink() -> Self {
        TestNode::Sink { expect: 0, want: None, cap: 8, kind: FrameKind::U16, node: Node2::new() }
    }

    fn sink_checked(want: u16, cap: usize) -> Self {
        TestNode::Sink { expect: 0, want: Some(want), cap, kind: FrameKind::U16, node: Node2::new() }
    }

    fn sink_of_kind(kind: FrameKind) -> Self {
        TestNode::Sink { expect: 0, want: None, cap: 8, kind, node: Node2::new() }
    }

    fn node2(&self) -> &Node2 {
        match self {
            TestNode::Source { node, .. } => node,
            TestNode::Sink { node, .. } => node,
        }
    }

    fn node2_mut(&mut self) -> &mut Node2 {
        match self {
            TestNode::Source { node, .. } => node,
            TestNode::Sink { node, .. } => node,
        }
    }

    fn received(&self) -> u16 {
        match self {
            TestNode::Sink { expect, .. } => *expect,
            TestNode::Source { .. } => panic!("not a sink"),
        }
    }
}

impl Node2MT for TestNode {
    fn register_pullport(&mut self, name: &str, kind: FrameKind, buf_size: usize) {
        self.node2_mut().register_pullport(name, kind, buf_size)
    }
    fn register_pushport(&mut self, name: &str, kind: FrameKind, buf_size: usize) {
        self.node2_mut().register_pushport(name, kind, buf_size)
    }
    fn get_pull_port(&self, id: usize, name: &str) -> Result<PullPort, PortError> {
        self.node2().get_pull_port(id, name)
    }
    fn get_push_port(&self, id: usize, name: &str) -> Result<PushPort, PortError> {
        self.node2().get_push_port(id, name)
    }
    fn attach_push_port(&self, name: &str, port: &PushPort) -> Result<(), PortError> {
        self.node2().attach_push_port(name, port)
    }
    fn attach_pull_port(&self, name: &str, port: &PullPort) -> Result<(), PortError> {
        self.node2().attach_pull_port(name, port)
    }
    fn ready_to_pull(&self, port: &PullPort) -> usize {
        self.node2().ready_to_pull(port)
    }
    fn ready_to_push(&self, port: &PushPort) -> usize {
        self.node2().ready_to_push(port)
    }
    fn pull_frame(&mut self, port: &PullPort, count: usize) -> Frame {
        self.node2_mut().pull_frame(port, count)
    }
    fn push_frame(&mut self, port: &PushPort, frame: Frame) {
        self.node2_mut().push_frame(port, frame)
    }
    fn inbuf_avail(&self, name: &str) -> usize {
        self.node2().inbuf_avail(name)
    }
    fn outbuf_avail(&self, name: &str) -> usize {
        self.node2().outbuf_avail(name)
    }
    fn outbuf_put(&mut self, name: &str, frame: Frame) {
        self.node2_mut().outbuf_put(name, frame)
    }
    fn outbuf_put_single(&mut self, name: &str, single: FrameSingle) {
        self.node2_mut().outbuf_put_single(name, single)
    }
    fn inbuf_peek(&self, name: &str, count: usize) -> Frame {
        self.node2().inbuf_peek(name, count)
    }
    fn inbuf_get(&mut self, name: &str, count: usize) -> Frame {
        self.node2_mut().inbuf_get(name, count)
    }
    fn inbuf_get_all(&mut self, name: &str) -> Frame {
        self.node2_mut().inbuf_get_all(name)
    }
    fn inbuf_get_single(&mut self, name: &str) -> FrameSingle {
        self.node2_mut().inbuf_get_single(name)
    }
}

impl Node2T for TestNode {
    fn init(&mut self) {
        match self {
            TestNode::Source { node, .. } => node.register_pullport("out", FrameKind::U16, 8),
            TestNode::Sink { node, cap, kind, .. } => {
                let k = *kind;
                let c = *cap;
                node.register_pushport("in", k, c)
            },
        }
    }

    fn tick(&mut self) -> bool {
        match self {
            TestNode::Source { n, limit, node } => {
                if *n < *limit && node.outbuf_avail("out") > 0 {
                    node.outbuf_put_single("out", FrameSingle::U16(*n));
                    *n += 1;
                    true
                } else {
                    false
                }
            },
            TestNode::Sink { expect, node, .. } => {
                if node.inbuf_avail("in") > 0 {
                    let s = node.inbuf_get_single("in");
                    assert_eq!(s.unwrap_u16(), *expect);
                    *expect += 1;
                    true
                } else {
                    false
                }
            },
        }
    }

    fn finish(&mut self) -> bool {
        if let TestNode::Sink { expect, want: Some(w), .. } = self {
            assert_eq!(*expect, *w);
        }
        true
    }
}

#[test]
fn link_nodes() {
    let mut graph: NodeGraph<TestNode> = NodeGraph::new();
    let mut src = Node(TestNode::source(8));
    src.init();
    let mut snk = Node(TestNode::sink());
    snk.init();
    let n1 = graph.insert(src, "src".to_string());
    let n2 = graph.insert(snk, "snk".to_string());

    let p1 = graph.get_pull_port(n1, "out").unwrap();
    let p2 = graph.get_push_port(n2, "in").unwrap();

    graph.add_link(p1, p2).unwrap();
}

#[test]
fn pull_name() {
    let mut graph: NodeGraph<TestNode> = NodeGraph::new();
    let mut src = Node(TestNode::source(8));
    src.init();
    let n1 = graph.insert(src, "src".to_string());

    assert_eq!(graph.get_pull_port(n1, "foo").unwrap_err(), PortError::NoSuchPort);
}

#[test]
fn push_name() {
    let mut graph: NodeGraph<TestNode> = NodeGraph::new();
    let mut snk = Node(TestNode::sink());
    snk.init();
    let n1 = graph.insert(snk, "snk".to_string());

    assert_eq!(graph.get_push_port(n1, "foo").unwrap_err(), PortError::NoSuchPort);
}

#[test]
fn pull_output() {
    // A sink-only node registers no pull ports at all.
    let mut graph: NodeGraph<TestNode> = NodeGraph::new();
    let mut snk = Node(TestNode::sink());
    snk.init();
    let n1 = graph.insert(snk, "snk".to_string());

    assert_eq!(graph.get_pull_port(n1, "out").unwrap_err(), PortError::NoSuchPort);
}

#[test]
fn push_input() {
    // A source-only node registers no push ports at all.
    let mut graph: NodeGraph<TestNode> = NodeGraph::new();
    let mut src = Node(TestNode::source(8));
    src.init();
    let n1 = graph.insert(src, "src".to_string());

    assert_eq!(graph.get_push_port(n1, "in").unwrap_err(), PortError::NoSuchPort);
}

#[test]
fn network() {
    let mut graph: NodeGraph<TestNode> = NodeGraph::new();
    let mut src = Node(TestNode::source(8));
    src.init();
    let mut snk = Node(TestNode::sink());
    snk.init();
    let n1 = graph.insert(src, "src".to_string());
    let n2 = graph.insert(snk, "snk".to_string());

    let p1 = graph.get_pull_port(n1, "out").unwrap();
    let p2 = graph.get_push_port(n2, "in").unwrap();

    graph.add_link(p1, p2).unwrap();
}

#[test]
fn test_pull() {
    let mut input = TestNode::source(8);
    input.init();

    let port = input.get_pull_port(0, "out").unwrap();

    for i in 0..8u16 {
        assert!(input.tick());
        let frame = input.pull_frame(&port, 1);
        let mut q = frame.unwrap_u16();
        assert_eq!(q.pop_front(), Some(i));
        assert_eq!(q.pop_front(), None);
    }
}

#[test]
fn test_push() {
    let mut output = TestNode::sink();
    output.init();

    let port = output.get_push_port(0, "in").unwrap();

    for i in 0..8u16 {
        output.push_frame(&port, Frame::U16(LimVecDeque::from_vec(vec![i])));
        assert!(output.tick());
    }
    assert_eq!(output.received(), 8);
}

#[test]
fn unit_pipeline_delivers_in_order() {
    // A u16 source counting up to 8, a sink asserting it sees 0..8 in
    // order; ticking to quiescence delivers all eight elements.
    let mut graph: NodeGraph<TestNode> = NodeGraph::new();
    let mut src = Node(TestNode::source(8));
    src.init();
    let mut snk = Node(TestNode::sink_checked(8, 8));
    snk.init();
    let n1 = graph.insert(src, "src".to_string());
    let n2 = graph.insert(snk, "snk".to_string());
    let p1 = graph.get_pull_port(n1, "out").unwrap();
    let p2 = graph.get_push_port(n2, "in").unwrap();
    graph.add_link(p1, p2).unwrap();

    assert!(graph.run(10_000));
}

#[test]
fn quiescence_is_stable() {
    // Once a tick reports no progress, every later tick reports none.
    let mut graph: NodeGraph<TestNode> = NodeGraph::new();
    let mut src = Node(TestNode::source(2));
    src.init();
    let mut snk = Node(TestNode::sink());
    snk.init();
    let n1 = graph.insert(src, "src".to_string());
    let n2 = graph.insert(snk, "snk".to_string());
    let p1 = graph.get_pull_port(n1, "out").unwrap();
    let p2 = graph.get_push_port(n2, "in").unwrap();
    graph.add_link(p1, p2).unwrap();

    let mut guard = 0;
    while graph.tick() {
        guard += 1;
        assert!(guard < 1000);
    }
    assert!(!graph.tick());
    assert!(!graph.tick());
}

#[test]
fn kind_mismatch_link_rejected() {
    // Source pull port is U16, sink push port is U8: the link is refused.
    let mut graph: NodeGraph<TestNode> = NodeGraph::new();
    let mut src = Node(TestNode::source(8));
    src.init();
    let mut snk = Node(TestNode::sink_of_kind(FrameKind::U8));
    snk.init();
    let n1 = graph.insert(src, "src".to_string());
    let n2 = graph.insert(snk, "snk".to_string());
    let p1 = graph.get_pull_port(n1, "out").unwrap();
    let p2 = graph.get_push_port(n2, "in").unwrap();
    assert_eq!(graph.add_link(p1, p2).unwrap_err(), PortError::KindMismatch);
}

#[test]
fn prune_drops_sources_first() {
    let mut graph: NodeGraph<TestNode> = NodeGraph::new();
    let mut src = Node(TestNode::source(1));
    src.init();
    let mut snk = Node(TestNode::sink());
    snk.init();
    let n1 = graph.insert(src, "src".to_string());
    let n2 = graph.insert(snk, "snk".to_string());
    let p1 = graph.get_pull_port(n1, "out").unwrap();
    let p2 = graph.get_push_port(n2, "in").unwrap();
    graph.add_link(p1, p2).unwrap();

    // First prune: the source has no inbound link and is dropped; the
    // sink keeps its still-active upstream producer.
    let active = vec![true, true];
    let next = graph.next_active(&active);
    assert_eq!(next, vec![false, true]);
    // Second prune: the sink's producer is gone, so the sink goes too.
    let last = graph.next_active(&next);
    assert_eq!(last, vec![false, false]);
}

#[test]
fn finish_drains_small_buffers() {
    // A source that emits exactly 3 elements into a sink with an input
    // buffer of one element: the run loop delivers all three, in order.
    let mut graph: NodeGraph<TestNode> = NodeGraph::new();
    let mut src = Node(TestNode::source(3));
    src.init();
    let mut snk = Node(TestNode::sink_checked(3, 1));
    snk.init();
    let n1 = graph.insert(src, "src".to_string());
    let n2 = graph.insert(snk, "snk".to_string());
    let p1 = graph.get_pull_port(n1, "out").unwrap();
    let p2 = graph.get_push_port(n2, "in").unwrap();
    graph.add_link(p1, p2).unwrap();

    assert!(graph.run(10_000));
}

#[test]
fn node_wrapper_ticks_and_finishes() {
    let mut node = Node(TestNode::source(1));
    node.init();
    assert!(TickNode::tick(&mut node));
    assert!(!TickNode::tick(&mut node));
    assert!(FinishNode::finish(&mut node));
}

struct TestPlugins;

impl Plugin<TestNode> for TestPlugins {
    fn make_node(&self, name: &str, args: Vec<(String, String)>) -> Option<TestNode> {
        // Every factory receives the project directory.
        assert!(args.iter().any(|(k, _)| k == "vidmod.path"));
        match name {
            "test::Source" => {
                let limit = args
                    .iter()
                    .find(|(k, _)| k == "limit")
                    .map(|(_, v)| v.parse().unwrap())
                    .unwrap_or(8);
                Some(TestNode::source(limit))
            },
            "test::Sink" => Some(TestNode::sink()),
            _ => None,
        }
    }
}

fn two_node_manifest(src_plugin: &str, link_from: (&str, &str), link_to: (&str, &str)) -> ProjectManifest {
    ProjectManifest {
        nodes: vec![
            (
                "a".to_string(),
                ManifestNode {
                    name: src_plugin.to_string(),
                    args: vec![("limit".to_string(), "4".to_string())],
                },
            ),
            ("b".to_string(), ManifestNode { name: "test::Sink".to_string(), args: vec![] }),
        ],
        links: vec![ManifestLink {
            from: (link_from.0.to_string(), link_from.1.to_string()),
            to: (link_to.0.to_string(), link_to.1.to_string()),
        }],
    }
}

#[test]
fn manifest_builds_and_runs() {
    let manifest = two_node_manifest("test::Source", ("a", "out"), ("b", "in"));
    let mut project: Project<TestNode> =
        Project::from_manifest(&manifest, "proj".to_string(), &TestPlugins).unwrap();
    let mut guard = 0;
    while project.tick() {
        guard += 1;
        assert!(guard < 1000);
    }
    assert!(!project.tick());
}

#[test]
fn manifest_unknown_plugin() {
    let manifest = two_node_manifest("test::Missing", ("a", "out"), ("b", "in"));
    let r: Result<Project<TestNode>, LoadError> =
        Project::from_manifest(&manifest, "proj".to_string(), &TestPlugins);
    match r {
        Err(e) => assert_eq!(e, LoadError::UnknownPlugin),
        Ok(_) => panic!("expected an error"),
    }
}

#[test]
fn manifest_unknown_node() {
    let manifest = two_node_manifest("test::Source", ("c", "out"), ("b", "in"));
    let r: Result<Project<TestNode>, LoadError> =
        Project::from_manifest(&manifest, "proj".to_string(), &TestPlugins);
    match r {
        Err(e) => assert_eq!(e, LoadError::UnknownNode),
        Ok(_) => panic!("expected an error"),
    }
}

#[test]
fn manifest_no_such_port() {
    let manifest = two_node_manifest("test::Source", ("a", "nope"), ("b", "in"));
    let r: Result<Project<TestNode>, LoadError> =
        Project::from_manifest(&manifest, "proj".to_string(), &TestPlugins);
    match r {
        Err(e) => assert_eq!(e, LoadError::NoSuchPort),
        Ok(_) => panic!("expected an error"),
    }
}

#[test]
fn manifest_kind_mismatch() {
    // Wire the sink's input back to front: its push port is asked for on
    // the source, which has no such port; a genuine kind clash needs a
    // differently-typed sink, built directly.
    let mut graph: NodeGraph<TestNode> = NodeGraph::new();
    let mut src = Node(TestNode::source(1));
    src.init();
    let mut snk = Node(TestNode::sink_of_kind(FrameKind::U8x1));
    snk.init();
    let n1 = graph.insert(src, "src".to_string());
    let n2 = graph.insert(snk, "snk".to_string());
    let p1 = graph.get_pull_port(n1, "out").unwrap();
    let p2 = graph.get_push_port(n2, "in").unwrap();
    assert_eq!(graph.add_link(p1, p2).unwrap_err(), PortError::KindMismatch);
}

#[test]
fn phases_alternate() {
    let mut graph: NodeGraph<TestNode> = NodeGraph::new();
    let mut src = Node(TestNode::source(1));
    src.init();
    let mut snk = Node(TestNode::sink());
    snk.init();
    let n1 = graph.insert(src, "src".to_string());
    let n2 = graph.insert(snk, "snk".to_string());
    let p1 = graph.get_pull_port(n1, "out").unwrap();
    let p2 = graph.get_push_port(n2, "in").unwrap();
    graph.add_link(p1, p2).unwrap();

    // The node phase emits the one element, the link phase carries it,
    // the next node phase consumes it; then everything is idle.
    assert!(graph.tick_nodes(None));
    assert!(graph.tick_links());
    assert!(graph.tick_nodes(None));
    assert!(!graph.tick_links());
    assert!(!graph.tick_nodes(None));
    // A node phase over an empty active set does nothing.
    assert!(!graph.tick_nodes(Some(&vec![false, false])));
}

#[test]
fn project_run_reaches_fixed_point() {
    let manifest = two_node_manifest("test::Source", ("a", "out"), ("b", "in"));
    let mut project: Project<TestNode> =
        Project::from_manifest(&manifest, "proj".to_string(), &TestPlugins).unwrap();
    assert!(project.run(10_000));
    assert!(!project.tick());
}

#[test]
fn prune_over_empty_active_set() {
    let mut graph: NodeGraph<TestNode> = NodeGraph::new();
    let mut src = Node(TestNode::source(1));
    src.init();
    let mut snk = Node(TestNode::sink());
    snk.init();
    let n1 = graph.insert(src, "src".to_string());
    let n2 = graph.insert(snk, "snk".to_string());
    let p1 = graph.get_pull_port(n1, "out").unwrap();
    let p2 = graph.get_push_port(n2, "in").unwrap();
    graph.add_link(p1, p2).unwrap();

    // With no producer active, nothing survives the prune step.
    assert_eq!(graph.next_active(&vec![false, false]), vec![false, false]);
}

#[test]
fn node_buffer_helpers() {
    let mut snk = TestNode::sink();
    snk.init();
    let port = snk.get_push_port(0, "in").unwrap();
    assert_eq!(port.id(), 0);
    assert_eq!(port.name(), "in");
    assert_eq!(port.kind(), FrameKind::U16);
    assert_eq!(snk.ready_to_push(&port), 8);
    snk.push_frame(&port, Frame::U16(LimVecDeque::from_vec(vec![7, 8, 9])));
    assert_eq!(snk.inbuf_avail("in"), 3);
    assert_eq!(snk.ready_to_push(&port), 5);

    let peeked = snk.inbuf_peek("in", 2);
    let mut q = peeked.unwrap_u16();
    assert_eq!(q.pop_front(), Some(7));
    assert_eq!(q.pop_front(), Some(8));
    assert_eq!(snk.inbuf_avail("in"), 3);

    let first = snk.inbuf_get("in", 1);
    assert_eq!(first.size(), 1);
    let rest = snk.inbuf_get_all("in");
    assert_eq!(rest.size(), 2);
    assert_eq!(snk.inbuf_avail("in"), 0);

    let mut src = TestNode::source(8);
    src.init();
    let pull = src.get_pull_port(3, "out").unwrap();
    assert_eq!(pull.id(), 3);
    assert_eq!(src.outbuf_avail("out"), 8);
    src.outbuf_put("out", Frame::U16(LimVecDeque::from_vec(vec![1, 2])));
    src.outbuf_put_single("out", FrameSingle::U16(3));
    assert_eq!(src.outbuf_avail("out"), 5);
}
