//! Nodes and their typed ports.
//!
//! Each node owns two tables of named, kind-fixed frame buffers: pull
//! ports (its output side) and push ports (its input side). [`Node2`] is
//! that substrate; user node types embed one and forward the framework
//! methods of [`Node2MT`] to it, adding their own behaviour through the
//! user contract [`Node2T`]. Port handles are plain values naming a node
//! id, a port name and a kind; they identify a port without granting
//! access to it.

use crate::frame::{
    elem_kind, spec_add, spec_add_single, spec_peek, spec_remove, ElemView, Frame, FrameKind,
    FrameSingle, FrameView,
};
use vstd::prelude::*;

verus! {

/// An error from port lookup or attachment.
#[derive(Clone, Copy, PartialEq, Eq, Structural, Debug)]
pub enum PortError {
    /// No port with the requested name is registered on that side.
    NoSuchPort,
    /// The two endpoints carry different frame kinds.
    KindMismatch,
}

/// The mathematical value of a port handle.
#[verifier::ext_equal]
pub struct PortView {
    /// The id of the node the port belongs to.
    pub id: nat,
    /// The port's name, unique within its side of the node.
    pub name: Seq<char>,
    /// The frame kind fixed when the port was registered.
    pub kind: FrameKind,
}

/// A node's port to pull frames out of its output buffer.
#[derive(Debug, Clone)]
pub struct PullPort {
    id: usize,
    name: String,
    kind: FrameKind,
}

impl View for PullPort {
    type V = PortView;

    closed spec fn view(&self) -> PortView {
        PortView { id: self.id as nat, name: self.name@, kind: self.kind }
    }
}

impl PullPort {
    /// The id of the node this port belongs to.
    pub fn id(&self) -> (r: usize)
        ensures
            r as nat == self@.id,
    {
        self.id
    }

    /// The port's name.
    pub fn name(&self) -> (r: &str)
        ensures
            r@ == self@.name,
    {
        self.name.as_str()
    }

    /// The frame kind fixed at registration.
    pub fn kind(&self) -> (r: FrameKind)
        ensures
            r == self@.kind,
    {
        self.kind
    }

    /// A handle naming the same port.
    pub fn duplicate(&self) -> (r: Self)
        ensures
            r@ == self@,
    {
        PullPort { id: self.id, name: self.name.clone(), kind: self.kind }
    }
}

/// A node's port to push frames into its input buffer.
#[derive(Debug, Clone)]
pub struct PushPort {
    id: usize,
    name: String,
    kind: FrameKind,
}

impl View for PushPort {
    type V = PortView;

    closed spec fn view(&self) -> PortView {
        PortView { id: self.id as nat, name: self.name@, kind: self.kind }
    }
}

impl PushPort {
    /// The id of the node this port belongs to.
    pub fn id(&self) -> (r: usize)
        ensures
            r as nat == self@.id,
    {
        self.id
    }

    /// The port's name.
    pub fn name(&self) -> (r: &str)
        ensures
            r@ == self@.name,
    {
        self.name.as_str()
    }

    /// The frame kind fixed at registration.
    pub fn kind(&self) -> (r: FrameKind)
        ensures
            r == self@.kind,
    {
        self.kind
    }

    /// A handle naming the same port.
    pub fn duplicate(&self) -> (r: Self)
        ensures
            r@ == self@,
    {
        PushPort { id: self.id, name: self.name.clone(), kind: self.kind }
    }
}

/// The free space of a buffer: capacity minus current length.
pub open spec fn frame_free(f: FrameView) -> nat {
    if f.elems.len() <= f.cap {
        (f.cap - f.elems.len()) as nat
    } else {
        0
    }
}

/// Whether some entry of the port table bears the name `k`.
pub open spec fn has_port(s: Seq<(String, Frame)>, k: Seq<char>) -> bool {
    exists|i: int| 0 <= i < s.len() && s[i].0@ == k
}

/// The index of the entry bearing the name `k`.
pub open spec fn port_index(s: Seq<(String, Frame)>, k: Seq<char>) -> int {
    choose|i: int| 0 <= i < s.len() && s[i].0@ == k
}

/// Whether the entries of a port table bear pairwise distinct names.
pub open spec fn distinct_ports(s: Seq<(String, Frame)>) -> bool {
    forall|i: int, j: int| 0 <= i < j < s.len() ==> s[i].0@ != s[j].0@
}

/// The port table as a map from port name to buffer value.
pub open spec fn ports_map(s: Seq<(String, Frame)>) -> Map<Seq<char>, FrameView> {
    Map::new(|k: Seq<char>| has_port(s, k), |k: Seq<char>| s[port_index(s, k)].1@)
}

/// With distinct names, the entry bearing a name is unique, so
/// `port_index` finds exactly the known occurrence.
proof fn lemma_port_index_unique(s: Seq<(String, Frame)>, k: Seq<char>, i: int)
    requires
        distinct_ports(s),
        0 <= i < s.len(),
        s[i].0@ == k,
    ensures
        has_port(s, k),
        port_index(s, k) == i,
{
    assert(has_port(s, k));
    let j = port_index(s, k);
    assert(0 <= j < s.len() && s[j].0@ == k);
    if j < i {
        assert(s[j].0@ != s[i].0@);
    } else if i < j {
        assert(s[i].0@ != s[j].0@);
    }
}

/// An empty port table denotes the empty map.
proof fn lemma_ports_map_empty(s: Seq<(String, Frame)>)
    requires
        s.len() == 0,
    ensures
        ports_map(s) == Map::<Seq<char>, FrameView>::empty(),
{
    assert(ports_map(s) =~= Map::<Seq<char>, FrameView>::empty());
}

/// Appending an entry under a fresh name denotes inserting it into the map.
proof fn lemma_ports_map_push(s: Seq<(String, Frame)>, name: String, f: Frame)
    requires
        distinct_ports(s),
        !has_port(s, name@),
    ensures
        distinct_ports(s.push((name, f))),
        ports_map(s.push((name, f))) == ports_map(s).insert(name@, f@),
{
    let s2 = s.push((name, f));
    assert forall|i: int, j: int| 0 <= i < j < s2.len() implies s2[i].0@ != s2[j].0@ by {
        if j < s.len() as int {
            assert(s2[i] == s[i] && s2[j] == s[j]);
        } else {
            assert(s2[j].0@ == name@);
            assert(s2[i] == s[i]);
        }
    }
    let m1 = ports_map(s).insert(name@, f@);
    let m2 = ports_map(s2);
    assert forall|k: Seq<char>|
        #![trigger m1.dom().contains(k)]
        #![trigger m2.dom().contains(k)]
        m1.dom().contains(k) == m2.dom().contains(k) by {
        if m1.dom().contains(k) {
            if k == name@ {
                assert(s2[s.len() as int] == (name, f));
                assert(has_port(s2, k));
            } else {
                let i = port_index(s, k);
                assert(0 <= i < s.len() && s[i].0@ == k);
                assert(s2[i].0@ == k);
                assert(has_port(s2, k));
            }
        }
        if m2.dom().contains(k) {
            let i = port_index(s2, k);
            assert(0 <= i < s2.len() && s2[i].0@ == k);
            if i < s.len() as int {
                assert(s[i].0@ == k);
                assert(has_port(s, k));
            } else {
                assert(s2[s.len() as int] == (name, f));
                assert(k == name@);
            }
        }
    }
    assert forall|k: Seq<char>| m1.dom().contains(k) implies #[trigger] m2[k] == m1[k] by {
        if k == name@ {
            assert(s2[s.len() as int] == (name, f));
            lemma_port_index_unique(s2, k, s.len() as int);
        } else {
            let i = port_index(s, k);
            assert(0 <= i < s.len() && s[i].0@ == k);
            assert(s2[i] == s[i]);
            lemma_port_index_unique(s2, k, i);
        }
    }
    assert(m2 =~= m1);
}

/// Replacing the buffer of one entry, keeping its name, denotes inserting
/// the new buffer value under that name.
proof fn lemma_ports_map_update(s: Seq<(String, Frame)>, s2: Seq<(String, Frame)>, i: int)
    requires
        distinct_ports(s),
        s2.len() == s.len(),
        0 <= i < s.len(),
        s2[i].0@ == s[i].0@,
        forall|j: int| 0 <= j < s.len() && j != i ==> s2[j] == s[j],
    ensures
        distinct_ports(s2),
        ports_map(s2) == ports_map(s).insert(s[i].0@, s2[i].1@),
{
    assert(forall|j: int| 0 <= j < s.len() ==> s2[j].0@ == s[j].0@);
    assert(distinct_ports(s2));
    let m1 = ports_map(s).insert(s[i].0@, s2[i].1@);
    let m2 = ports_map(s2);
    assert forall|k: Seq<char>| m1.contains_key(k) implies m2.contains_key(k) && m2[k] == m1[k] by {
        if k == s[i].0@ {
            lemma_port_index_unique(s2, k, i);
        } else {
            let j = port_index(s, k);
            assert(0 <= j < s.len() && s[j].0@ == k);
            lemma_port_index_unique(s, k, j);
            assert(j != i);
            lemma_port_index_unique(s2, k, j);
        }
    }
    assert forall|k: Seq<char>| m2.contains_key(k) implies m1.contains_key(k) by {
        let j = port_index(s2, k);
        assert(0 <= j < s2.len() && s2[j].0@ == k);
        assert(s[j].0@ == k);
    }
    assert(m2 =~= m1);
}

/// Finds the entry bearing `name` in a port table with distinct names.
fn find_port(ports: &Vec<(String, Frame)>, name: &str) -> (r: Option<usize>)
    requires
        distinct_ports(ports@),
    ensures
        match r {
            Some(i) => {
                &&& i < ports@.len()
                &&& ports@[i as int].0@ == name@
                &&& has_port(ports@, name@)
                &&& port_index(ports@, name@) == i
            },
            None => !has_port(ports@, name@),
        },
{
    let key: String = name.to_owned();
    let n = ports.len();
    let mut i: usize = 0;
    while i < n
        invariant
            i <= n == ports@.len(),
            key@ == name@,
            distinct_ports(ports@),
            forall|j: int| 0 <= j < i ==> ports@[j].0@ != name@,
        decreases n - i,
    {
        if ports[i].0 == key {
            proof {
                lemma_port_index_unique(ports@, name@, i as int);
            }
            return Some(i);
        }
        i = i + 1;
    }
    None
}

/// The framework contract: the port-buffer operations every node offers,
/// uniformly provided by the embedded [`Node2`] substrate.
pub trait Node2MT: Sized {
    /// The node's output buffers: pull-port name to buffer value. The
    /// default leaves them unspecified; the embedded substrate's maps are
    /// the intended override.
    open spec fn pull_bufs(&self) -> Map<Seq<char>, FrameView> {
        arbitrary()
    }

    /// The node's input buffers: push-port name to buffer value.
    open spec fn push_bufs(&self) -> Map<Seq<char>, FrameView> {
        arbitrary()
    }

    /// Registers a pull port with an empty output buffer of the given kind
    /// and capacity. Registering a name twice is a programmer error.
    fn register_pullport(&mut self, name: &str, kind: FrameKind, buf_size: usize)
        requires
            !old(self).pull_bufs().contains_key(name@),
        ensures
            final(self).pull_bufs() == old(self).pull_bufs().insert(
                name@,
                FrameView { kind, cap: buf_size as nat, elems: Seq::<ElemView>::empty() },
            ),
            final(self).push_bufs() == old(self).push_bufs(),
    ;

    /// Registers a push port with an empty input buffer of the given kind
    /// and capacity. Registering a name twice is a programmer error.
    fn register_pushport(&mut self, name: &str, kind: FrameKind, buf_size: usize)
        requires
            !old(self).push_bufs().contains_key(name@),
        ensures
            final(self).push_bufs() == old(self).push_bufs().insert(
                name@,
                FrameView { kind, cap: buf_size as nat, elems: Seq::<ElemView>::empty() },
            ),
            final(self).pull_bufs() == old(self).pull_bufs(),
    ;

    /// A handle for the named pull port, or `NoSuchPort` if the node
    /// registered no pull port under that name.
    fn get_pull_port(&self, id: usize, name: &str) -> (r: Result<PullPort, PortError>)
        ensures
            match r {
                Ok(p) => {
                    &&& self.pull_bufs().contains_key(name@)
                    &&& p@ == (PortView {
                        id: id as nat,
                        name: name@,
                        kind: self.pull_bufs()[name@].kind,
                    })
                },
                Err(e) => !self.pull_bufs().contains_key(name@) && e == PortError::NoSuchPort,
            },
    ;

    /// A handle for the named push port, or `NoSuchPort` if the node
    /// registered no push port under that name.
    fn get_push_port(&self, id: usize, name: &str) -> (r: Result<PushPort, PortError>)
        ensures
            match r {
                Ok(p) => {
                    &&& self.push_bufs().contains_key(name@)
                    &&& p@ == (PortView {
                        id: id as nat,
                        name: name@,
                        kind: self.push_bufs()[name@].kind,
                    })
                },
                Err(e) => !self.push_bufs().contains_key(name@) && e == PortError::NoSuchPort,
            },
    ;

    /// Validates attaching a peer's push port to this node's named pull
    /// port: the names must resolve and the kinds must agree.
    fn attach_push_port(&self, name: &str, port: &PushPort) -> (r: Result<(), PortError>)
        ensures
            r is Ok <==> (self.pull_bufs().contains_key(name@) && port@.kind
                == self.pull_bufs()[name@].kind),
            r == Err::<(), PortError>(PortError::NoSuchPort) <==> !self.pull_bufs().contains_key(
                name@,
            ),
            r == Err::<(), PortError>(PortError::KindMismatch) <==> (
            self.pull_bufs().contains_key(name@) && port@.kind != self.pull_bufs()[name@].kind),
    ;

    /// Validates attaching a peer's pull port to this node's named push
    /// port: the names must resolve and the kinds must agree.
    fn attach_pull_port(&self, name: &str, port: &PullPort) -> (r: Result<(), PortError>)
        ensures
            r is Ok <==> (self.push_bufs().contains_key(name@) && port@.kind
                == self.push_bufs()[name@].kind),
            r == Err::<(), PortError>(PortError::NoSuchPort) <==> !self.push_bufs().contains_key(
                name@,
            ),
            r == Err::<(), PortError>(PortError::KindMismatch) <==> (
            self.push_bufs().contains_key(name@) && port@.kind != self.push_bufs()[name@].kind),
    ;

    /// How many frames the scheduler can pull from the named output buffer.
    fn ready_to_pull(&self, port: &PullPort) -> (r: usize)
        requires
            self.pull_bufs().contains_key(port@.name),
        ensures
            r == self.pull_bufs()[port@.name].elems.len(),
    ;

    /// How many frames the scheduler can push into the named input buffer
    /// before it is full.
    fn ready_to_push(&self, port: &PushPort) -> (r: usize)
        requires
            self.push_bufs().contains_key(port@.name),
        ensures
            r == frame_free(self.push_bufs()[port@.name]),
    ;

    /// Drains `count` elements from the front of the named output buffer.
    fn pull_frame(&mut self, port: &PullPort, count: usize) -> (r: Frame)
        requires
            old(self).pull_bufs().contains_key(port@.name),
            count <= old(self).pull_bufs()[port@.name].elems.len(),
        ensures
            spec_remove(old(self).pull_bufs()[port@.name], count as nat).1 == Some(r@),
            final(self).pull_bufs() == old(self).pull_bufs().insert(
                port@.name,
                spec_remove(old(self).pull_bufs()[port@.name], count as nat).0,
            ),
            final(self).push_bufs() == old(self).push_bufs(),
    ;

    /// Appends a frame onto the back of the named input buffer.
    fn push_frame(&mut self, port: &PushPort, frame: Frame)
        requires
            old(self).push_bufs().contains_key(port@.name),
            frame@.kind == old(self).push_bufs()[port@.name].kind,
            frame@.elems.len() <= frame_free(old(self).push_bufs()[port@.name]),
        ensures
            final(self).push_bufs() == old(self).push_bufs().insert(
                port@.name,
                spec_add(old(self).push_bufs()[port@.name], frame@).0,
            ),
            final(self).pull_bufs() == old(self).pull_bufs(),
            old(self).push_bufs()[port@.name].elems.len() <= old(self).push_bufs()[port@.name].cap,
    ;

    /// How many frames are waiting in the named input buffer.
    fn inbuf_avail(&self, name: &str) -> (r: usize)
        requires
            self.push_bufs().contains_key(name@),
        ensures
            r == self.push_bufs()[name@].elems.len(),
    ;

    /// How much free space the named output buffer has.
    fn outbuf_avail(&self, name: &str) -> (r: usize)
        requires
            self.pull_bufs().contains_key(name@),
        ensures
            r == frame_free(self.pull_bufs()[name@]),
    ;

    /// Puts a frame into the named output buffer; it must fit.
    fn outbuf_put(&mut self, name: &str, frame: Frame)
        requires
            old(self).pull_bufs().contains_key(name@),
            frame@.kind == old(self).pull_bufs()[name@].kind,
            frame@.elems.len() <= frame_free(old(self).pull_bufs()[name@]),
        ensures
            final(self).pull_bufs() == old(self).pull_bufs().insert(
                name@,
                spec_add(old(self).pull_bufs()[name@], frame@).0,
            ),
            final(self).push_bufs() == old(self).push_bufs(),
            old(self).pull_bufs()[name@].elems.len() <= old(self).pull_bufs()[name@].cap,
    ;

    /// Puts a single element into the named output buffer; there must be room.
    fn outbuf_put_single(&mut self, name: &str, single: FrameSingle)
        requires
            old(self).pull_bufs().contains_key(name@),
            elem_kind(single@) == old(self).pull_bufs()[name@].kind,
            old(self).pull_bufs()[name@].elems.len() < old(self).pull_bufs()[name@].cap,
        ensures
            final(self).pull_bufs() == old(self).pull_bufs().insert(
                name@,
                spec_add_single(old(self).pull_bufs()[name@], single@).0,
            ),
            final(self).push_bufs() == old(self).push_bufs(),
    ;

    /// Copies the first `count` elements of the named input buffer without
    /// consuming them.
    fn inbuf_peek(&self, name: &str, count: usize) -> (r: Frame)
        requires
            self.push_bufs().contains_key(name@),
            count <= self.push_bufs()[name@].elems.len(),
        ensures
            spec_peek(self.push_bufs()[name@], count as nat) == Some(r@),
    ;

    /// Drains the first `count` elements of the named input buffer.
    fn inbuf_get(&mut self, name: &str, count: usize) -> (r: Frame)
        requires
            old(self).push_bufs().contains_key(name@),
            count <= old(self).push_bufs()[name@].elems.len(),
        ensures
            spec_remove(old(self).push_bufs()[name@], count as nat).1 == Some(r@),
            final(self).push_bufs() == old(self).push_bufs().insert(
                name@,
                spec_remove(old(self).push_bufs()[name@], count as nat).0,
            ),
            final(self).pull_bufs() == old(self).pull_bufs(),
    ;

    /// Empties the named input buffer and returns its whole contents.
    fn inbuf_get_all(&mut self, name: &str) -> (r: Frame)
        requires
            old(self).push_bufs().contains_key(name@),
        ensures
            r@ == old(self).push_bufs()[name@],
            final(self).push_bufs() == old(self).push_bufs().insert(
                name@,
                FrameView {
                    kind: old(self).push_bufs()[name@].kind,
                    cap: old(self).push_bufs()[name@].cap,
                    elems: Seq::<ElemView>::empty(),
                },
            ),
            final(self).pull_bufs() == old(self).pull_bufs(),
    ;

    /// Pops one element from the front of the named input buffer, which
    /// must not be empty.
    fn inbuf_get_single(&mut self, name: &str) -> (r: FrameSingle)
        requires
            old(self).push_bufs().contains_key(name@),
            old(self).push_bufs()[name@].elems.len() > 0,
        ensures
            r@ == old(self).push_bufs()[name@].elems[0],
            final(self).push_bufs() == old(self).push_bufs().insert(
                name@,
                spec_remove(old(self).push_bufs()[name@], 1).0,
            ),
            final(self).pull_bufs() == old(self).pull_bufs(),
    ;
}

/// Per-node port buffers: the substrate both pull and push ports operate
/// on. It knows nothing of the graph or of other nodes; it is the local
/// state of one node.
#[derive(Debug)]
pub struct Node2 {
    pullports: Vec<(String, Frame)>,
    pushports: Vec<(String, Frame)>,
}

impl Node2 {
    #[verifier::type_invariant]
    spec fn ports_wf(&self) -> bool {
        distinct_ports(self.pullports@) && distinct_ports(self.pushports@)
    }

    /// A node substrate with no ports registered.
    pub fn new() -> (r: Self)
        ensures
            r.pull_bufs() == Map::<Seq<char>, FrameView>::empty(),
            r.push_bufs() == Map::<Seq<char>, FrameView>::empty(),
    {
        let r = Node2 { pullports: Vec::new(), pushports: Vec::new() };
        proof {
            lemma_ports_map_empty(r.pullports@);
            lemma_ports_map_empty(r.pushports@);
        }
        r
    }
}

impl Node2MT for Node2 {
    closed spec fn pull_bufs(&self) -> Map<Seq<char>, FrameView> {
        ports_map(self.pullports@)
    }

    closed spec fn push_bufs(&self) -> Map<Seq<char>, FrameView> {
        ports_map(self.pushports@)
    }

    fn register_pullport(&mut self, name: &str, kind: FrameKind, buf_size: usize) {
        proof {
            use_type_invariant(&*self);
        }
        let key: String = name.to_owned();
        let frame = Frame::with_capacity(kind, buf_size);
        let mut ports: Vec<(String, Frame)> = Vec::new();
        std::mem::swap(&mut ports, &mut self.pullports);
        proof {
            lemma_ports_map_push(ports@, key, frame);
        }
        ports.push((key, frame));
        std::mem::swap(&mut ports, &mut self.pullports);
    }

    fn register_pushport(&mut self, name: &str, kind: FrameKind, buf_size: usize) {
        proof {
            use_type_invariant(&*self);
        }
        let key: String = name.to_owned();
        let frame = Frame::with_capacity(kind, buf_size);
        let mut ports: Vec<(String, Frame)> = Vec::new();
        std::mem::swap(&mut ports, &mut self.pushports);
        proof {
            lemma_ports_map_push(ports@, key, frame);
        }
        ports.push((key, frame));
        std::mem::swap(&mut ports, &mut self.pushports);
    }

    fn get_pull_port(&self, id: usize, name: &str) -> (r: Result<PullPort, PortError>) {
        proof {
            use_type_invariant(self);
        }
        match find_port(&self.pullports, name) {
            Some(i) => {
                let kind = self.pullports[i].1.kind();
                Ok(PullPort { id, name: name.to_owned(), kind })
            },
            None => Err(PortError::NoSuchPort),
        }
    }

    fn get_push_port(&self, id: usize, name: &str) -> (r: Result<PushPort, PortError>) {
        proof {
            use_type_invariant(self);
        }
        match find_port(&self.pushports, name) {
            Some(i) => {
                let kind = self.pushports[i].1.kind();
                Ok(PushPort { id, name: name.to_owned(), kind })
            },
            None => Err(PortError::NoSuchPort),
        }
    }

    fn attach_push_port(&self, name: &str, port: &PushPort) -> (r: Result<(), PortError>) {
        proof {
            use_type_invariant(self);
        }
        match find_port(&self.pullports, name) {
            Some(i) => {
                let kind = self.pullports[i].1.kind();
                if port.kind() == kind {
                    Ok(())
                } else {
                    Err(PortError::KindMismatch)
                }
            },
            None => Err(PortError::NoSuchPort),
        }
    }

    fn attach_pull_port(&self, name: &str, port: &PullPort) -> (r: Result<(), PortError>) {
        proof {
            use_type_invariant(self);
        }
        match find_port(&self.pushports, name) {
            Some(i) => {
                let kind = self.pushports[i].1.kind();
                if port.kind() == kind {
                    Ok(())
                } else {
                    Err(PortError::KindMismatch)
                }
            },
            None => Err(PortError::NoSuchPort),
        }
    }

    fn ready_to_pull(&self, port: &PullPort) -> (r: usize) {
        proof {
            use_type_invariant(self);
        }
        let i = find_port(&self.pullports, port.name()).unwrap();
        self.pullports[i].1.size()
    }

    fn ready_to_push(&self, port: &PushPort) -> (r: usize) {
        proof {
            use_type_invariant(self);
        }
        let i = find_port(&self.pushports, port.name()).unwrap();
        let buf = &self.pushports[i].1;
        buf.capacity() - buf.size()
    }

    fn pull_frame(&mut self, port: &PullPort, count: usize) -> (r: Frame) {
        proof {
            use_type_invariant(&*self);
        }
        let i = find_port(&self.pullports, port.name()).unwrap();
        let mut ports: Vec<(String, Frame)> = Vec::new();
        std::mem::swap(&mut ports, &mut self.pullports);
        let r = {
            let entry = &mut ports[i];
            entry.1.remove(count).unwrap()
        };
        std::mem::swap(&mut ports, &mut self.pullports);
        proof {
            lemma_ports_map_update(old(self).pullports@, self.pullports@, i as int);
        }
        r
    }

    fn push_frame(&mut self, port: &PushPort, frame: Frame) {
        proof {
            use_type_invariant(&*self);
        }
        let i = find_port(&self.pushports, port.name()).unwrap();
        let mut ports: Vec<(String, Frame)> = Vec::new();
        std::mem::swap(&mut ports, &mut self.pushports);
        {
            let entry = &mut ports[i];
            let added = entry.1.add(frame);
            assert(added is Some);
        }
        std::mem::swap(&mut ports, &mut self.pushports);
        proof {
            lemma_ports_map_update(old(self).pushports@, self.pushports@, i as int);
        }
    }

    fn inbuf_avail(&self, name: &str) -> (r: usize) {
        proof {
            use_type_invariant(self);
        }
        let i = find_port(&self.pushports, name).unwrap();
        self.pushports[i].1.size()
    }

    fn outbuf_avail(&self, name: &str) -> (r: usize) {
        proof {
            use_type_invariant(self);
        }
        let i = find_port(&self.pullports, name).unwrap();
        let buf = &self.pullports[i].1;
        buf.capacity() - buf.size()
    }

    fn outbuf_put(&mut self, name: &str, frame: Frame) {
        proof {
            use_type_invariant(&*self);
        }
        let i = find_port(&self.pullports, name).unwrap();
        let mut ports: Vec<(String, Frame)> = Vec::new();
        std::mem::swap(&mut ports, &mut self.pullports);
        {
            let entry = &mut ports[i];
            let added = entry.1.add(frame);
            assert(added is Some);
        }
        std::mem::swap(&mut ports, &mut self.pullports);
        proof {
            lemma_ports_map_update(old(self).pullports@, self.pullports@, i as int);
        }
    }

    fn outbuf_put_single(&mut self, name: &str, single: FrameSingle) {
        proof {
            use_type_invariant(&*self);
        }
        let i = find_port(&self.pullports, name).unwrap();
        let mut ports: Vec<(String, Frame)> = Vec::new();
        std::mem::swap(&mut ports, &mut self.pullports);
        {
            let entry = &mut ports[i];
            let added = entry.1.add_single(single);
            assert(added is Some);
        }
        std::mem::swap(&mut ports, &mut self.pullports);
        proof {
            lemma_ports_map_update(old(self).pullports@, self.pullports@, i as int);
        }
    }

    fn inbuf_peek(&self, name: &str, count: usize) -> (r: Frame) {
        proof {
            use_type_invariant(self);
        }
        let i = find_port(&self.pushports, name).unwrap();
        self.pushports[i].1.peek(count).unwrap()
    }

    fn inbuf_get(&mut self, name: &str, count: usize) -> (r: Frame) {
        proof {
            use_type_invariant(&*self);
        }
        let i = find_port(&self.pushports, name).unwrap();
        let mut ports: Vec<(String, Frame)> = Vec::new();
        std::mem::swap(&mut ports, &mut self.pushports);
        let r = {
            let entry = &mut ports[i];
            entry.1.remove(count).unwrap()
        };
        std::mem::swap(&mut ports, &mut self.pushports);
        proof {
            lemma_ports_map_update(old(self).pushports@, self.pushports@, i as int);
        }
        r
    }

    fn inbuf_get_all(&mut self, name: &str) -> (r: Frame) {
        proof {
            use_type_invariant(&*self);
        }
        let i = find_port(&self.pushports, name).unwrap();
        let mut ports: Vec<(String, Frame)> = Vec::new();
        std::mem::swap(&mut ports, &mut self.pushports);
        let r = {
            let entry = &mut ports[i];
            entry.1.remove_all()
        };
        std::mem::swap(&mut ports, &mut self.pushports);
        proof {
            lemma_ports_map_update(old(self).pushports@, self.pushports@, i as int);
        }
        r
    }

    fn inbuf_get_single(&mut self, name: &str) -> (r: FrameSingle) {
        proof {
            use_type_invariant(&*self);
        }
        let i = find_port(&self.pushports, name).unwrap();
        let mut ports: Vec<(String, Frame)> = Vec::new();
        std::mem::swap(&mut ports, &mut self.pushports);
        let r = {
            let entry = &mut ports[i];
            entry.1.remove_single().unwrap()
        };
        std::mem::swap(&mut ports, &mut self.pushports);
        proof {
            lemma_ports_map_update(old(self).pushports@, self.pushports@, i as int);
            assert(spec_remove(old(self).push_bufs()[name@], 1).0 =~= self.push_bufs()[name@]);
        }
        r
    }
}

/// Whether two node states expose the same ports: the same names on each
/// side, each keeping its registered kind and capacity. Ticking and
/// finishing preserve this; only initialisation registers ports.
pub open spec fn ports_stable<N: Node2MT>(a: &N, b: &N) -> bool {
    &&& b.pull_bufs().dom() == a.pull_bufs().dom()
    &&& b.push_bufs().dom() == a.push_bufs().dom()
    &&& forall|k: Seq<char>|
        a.pull_bufs().dom().contains(k) ==> (#[trigger] b.pull_bufs()[k]).kind
            == a.pull_bufs()[k].kind && b.pull_bufs()[k].cap == a.pull_bufs()[k].cap
    &&& forall|k: Seq<char>|
        a.push_bufs().dom().contains(k) ==> (#[trigger] b.push_bufs()[k]).kind
            == a.push_bufs()[k].kind && b.push_bufs()[k].cap == a.push_bufs()[k].cap
}

/// The user contract of a node: its behaviour as a spec-level transition
/// system, and the exec methods that realise it.
pub trait Node2T: Node2MT {
    /// The node state one tick later. The default leaves the transition
    /// unspecified; a node whose behaviour is to be reasoned about
    /// overrides it.
    open spec fn tick_next(&self) -> Self {
        arbitrary()
    }

    /// Whether a tick from this state makes progress.
    open spec fn tick_prog(&self) -> bool {
        arbitrary()
    }

    /// The node state after a finish signal.
    open spec fn finish_next(&self) -> Self {
        arbitrary()
    }

    /// Whether the node, asked to finish from this state, declares that it
    /// can never do useful work again.
    open spec fn finish_done(&self) -> bool {
        arbitrary()
    }

    /// The node state after initialisation. The default leaves the
    /// transition unspecified; a node whose behaviour is to be reasoned
    /// about overrides it.
    open spec fn init_next(&self) -> Self {
        arbitrary()
    }

    /// Sets up the node; all ports are registered here, before the node
    /// joins a graph.
    fn init(&mut self)
        ensures
            *final(self) == old(self).init_next(),
    ;

    /// Processes available input and emits output. Returns true exactly
    /// when the node made progress; an idle tick leaves the node
    /// unchanged, so quiescence is stable until something new happens.
    fn tick(&mut self) -> (r: bool)
        ensures
            *final(self) == old(self).tick_next(),
            r == old(self).tick_prog(),
            !r ==> *final(self) == *old(self),
            ports_stable(old(self), final(self)),
    ;

    /// Signals that all upstream producers are gone. Returns true exactly
    /// when the node declares itself terminally done; returning false
    /// requests more ticks to flush.
    fn finish(&mut self) -> (r: bool)
        ensures
            *final(self) == old(self).finish_next(),
            r == old(self).finish_done(),
            ports_stable(old(self), final(self)),
    ;
}

/// All trait functions for a node.
pub trait Node2TA: Node2T {
}

impl<T: Node2T> Node2TA for T {
}

/// All nodes must be able to be ticked.
pub trait TickNode {
    /// Signal to the node to process all available frames.
    fn tick(&mut self) -> bool;
}

/// All nodes must be able to be finished.
pub trait FinishNode {
    /// Signal to the node to finish processing frames.
    fn finish(&mut self) -> bool;
}

/// A processing node.
#[derive(Debug)]
pub struct Node<N: Node2TA>(pub N);

impl<N: Node2TA> Node<N> {
    /// Initialize the node.
    pub fn init(&mut self)
        ensures
            final(self).0 == old(self).0.init_next(),
    {
        self.0.init()
    }
}

impl<N: Node2TA> TickNode for Node<N> {
    fn tick(&mut self) -> bool {
        self.0.tick()
    }
}

impl<N: Node2TA> FinishNode for Node<N> {
    fn finish(&mut self) -> bool {
        self.0.finish()
    }
}

} // verus!
