//! Frames: typed, bounded FIFO queues of elements.
//!
//! A [`Frame`] is a tagged variant over the closed set of element kinds,
//! each wrapping a bounded queue of that element type. A [`FrameSingle`]
//! is one element of a kind, and [`FrameKind`] is the tag alone. All frame
//! operations dispatch on the tag and forward to the wrapped queue; the
//! kind of a frame never changes after construction, and combining two
//! frames requires matching kinds.

use crate::element::{Array1, Array2, Array2View, F32Bits, RGBA8};
use crate::queue::LimVecDeque;
use vstd::prelude::*;

verus! {

/// Datatype tag for a frame.
#[derive(Clone, Copy, PartialEq, Eq, Structural, Debug)]
pub enum FrameKind {
    /// A buffer of single u8s
    U8,
    /// A 1D array of u8s
    U8x1,
    /// A 2D array of u8s
    U8x2,
    /// A buffer of single u16s
    U16,
    /// A 1D array of u16s
    U16x1,
    /// A 2D array of u16s
    U16x2,
    /// A buffer of single f32 bit patterns
    F32,
    /// A 1D array of f32 bit patterns
    F32x1,
    /// A 2D array of f32 bit patterns
    F32x2,
    /// A 2D array of RGBA8 pixels
    RGBA8x2,
}

/// The textual tag of a frame kind.
pub open spec fn kind_tag(k: FrameKind) -> Seq<char> {
    match k {
        FrameKind::U8 => "U8"@,
        FrameKind::U8x1 => "U8x1"@,
        FrameKind::U8x2 => "U8x2"@,
        FrameKind::U16 => "U16"@,
        FrameKind::U16x1 => "U16x1"@,
        FrameKind::U16x2 => "U16x2"@,
        FrameKind::F32 => "F32"@,
        FrameKind::F32x1 => "F32x1"@,
        FrameKind::F32x2 => "F32x2"@,
        FrameKind::RGBA8x2 => "RGBA8x2"@,
    }
}

/// The kind whose textual tag is `s`, if any.
pub open spec fn spec_parse_kind(s: Seq<char>) -> Option<FrameKind> {
    if s == "U8"@ {
        Some(FrameKind::U8)
    } else if s == "U8x1"@ {
        Some(FrameKind::U8x1)
    } else if s == "U8x2"@ {
        Some(FrameKind::U8x2)
    } else if s == "U16"@ {
        Some(FrameKind::U16)
    } else if s == "U16x1"@ {
        Some(FrameKind::U16x1)
    } else if s == "U16x2"@ {
        Some(FrameKind::U16x2)
    } else if s == "F32"@ {
        Some(FrameKind::F32)
    } else if s == "F32x1"@ {
        Some(FrameKind::F32x1)
    } else if s == "F32x2"@ {
        Some(FrameKind::F32x2)
    } else if s == "RGBA8x2"@ {
        Some(FrameKind::RGBA8x2)
    } else {
        None
    }
}

impl FrameKind {
    /// Parses a frame kind from its textual tag. Unknown tags yield `None`;
    /// callers treat that as a fatal configuration error.
    pub fn parse(s: &str) -> (r: Option<FrameKind>)
        ensures
            r == spec_parse_kind(s@),
    {
        let key: String = s.to_owned();
        if key == "U8".to_owned() {
            Some(FrameKind::U8)
        } else if key == "U8x1".to_owned() {
            Some(FrameKind::U8x1)
        } else if key == "U8x2".to_owned() {
            Some(FrameKind::U8x2)
        } else if key == "U16".to_owned() {
            Some(FrameKind::U16)
        } else if key == "U16x1".to_owned() {
            Some(FrameKind::U16x1)
        } else if key == "U16x2".to_owned() {
            Some(FrameKind::U16x2)
        } else if key == "F32".to_owned() {
            Some(FrameKind::F32)
        } else if key == "F32x1".to_owned() {
            Some(FrameKind::F32x1)
        } else if key == "F32x2".to_owned() {
            Some(FrameKind::F32x2)
        } else if key == "RGBA8x2".to_owned() {
            Some(FrameKind::RGBA8x2)
        } else {
            None
        }
    }

    /// The textual tag of this kind, the inverse of [`FrameKind::parse`].
    pub fn tag(&self) -> (r: String)
        ensures
            r@ == kind_tag(*self),
    {
        match self {
            FrameKind::U8 => "U8".to_owned(),
            FrameKind::U8x1 => "U8x1".to_owned(),
            FrameKind::U8x2 => "U8x2".to_owned(),
            FrameKind::U16 => "U16".to_owned(),
            FrameKind::U16x1 => "U16x1".to_owned(),
            FrameKind::U16x2 => "U16x2".to_owned(),
            FrameKind::F32 => "F32".to_owned(),
            FrameKind::F32x1 => "F32x1".to_owned(),
            FrameKind::F32x2 => "F32x2".to_owned(),
            FrameKind::RGBA8x2 => "RGBA8x2".to_owned(),
        }
    }
}

/// The mathematical value of one frame element: a scalar, the contents of
/// a one-dimensional array, or the shape and cells of a two-dimensional one.
pub enum ElemView {
    /// A single u8
    U8(u8),
    /// A 1D array of u8s
    U8x1(Seq<u8>),
    /// A 2D array of u8s
    U8x2(Array2View<u8>),
    /// A single u16
    U16(u16),
    /// A 1D array of u16s
    U16x1(Seq<u16>),
    /// A 2D array of u16s
    U16x2(Array2View<u16>),
    /// A single f32 bit pattern
    F32(F32Bits),
    /// A 1D array of f32 bit patterns
    F32x1(Seq<F32Bits>),
    /// A 2D array of f32 bit patterns
    F32x2(Array2View<F32Bits>),
    /// A 2D array of RGBA8 pixels
    RGBA8x2(Array2View<RGBA8>),
}

/// The kind an element belongs to.
pub open spec fn elem_kind(e: ElemView) -> FrameKind {
    match e {
        ElemView::U8(_) => FrameKind::U8,
        ElemView::U8x1(_) => FrameKind::U8x1,
        ElemView::U8x2(_) => FrameKind::U8x2,
        ElemView::U16(_) => FrameKind::U16,
        ElemView::U16x1(_) => FrameKind::U16x1,
        ElemView::U16x2(_) => FrameKind::U16x2,
        ElemView::F32(_) => FrameKind::F32,
        ElemView::F32x1(_) => FrameKind::F32x1,
        ElemView::F32x2(_) => FrameKind::F32x2,
        ElemView::RGBA8x2(_) => FrameKind::RGBA8x2,
    }
}

/// The mathematical value of a frame: its kind, its capacity, and the
/// queued elements, front first.
#[verifier::ext_equal]
pub struct FrameView {
    /// The tag fixed at construction.
    pub kind: FrameKind,
    /// The maximum number of queued elements.
    pub cap: nat,
    /// The queued elements, front first.
    pub elems: Seq<ElemView>,
}

/// Whether `n` more elements fit into the frame.
pub open spec fn frame_fits(f: FrameView, n: nat) -> bool {
    f.elems.len() + n <= f.cap
}

/// The result of appending the contents of `d` onto `f`: the new frame
/// value and whether the append took place. Appending happens exactly when
/// the combined length fits in `f`'s capacity; otherwise `f` is unchanged.
pub open spec fn spec_add(f: FrameView, d: FrameView) -> (FrameView, bool) {
    if frame_fits(f, d.elems.len()) {
        (FrameView { kind: f.kind, cap: f.cap, elems: f.elems + d.elems }, true)
    } else {
        (f, false)
    }
}

/// The result of appending one element onto `f`: the new frame value and
/// whether the append took place.
pub open spec fn spec_add_single(f: FrameView, e: ElemView) -> (FrameView, bool) {
    if f.elems.len() < f.cap {
        (FrameView { kind: f.kind, cap: f.cap, elems: f.elems.push(e) }, true)
    } else {
        (f, false)
    }
}

/// The first `n` elements of `f` as a frame of capacity `n`, or `None`
/// if `f` holds fewer than `n` elements.
pub open spec fn spec_peek(f: FrameView, n: nat) -> Option<FrameView> {
    if n <= f.elems.len() {
        Some(FrameView { kind: f.kind, cap: n, elems: f.elems.subrange(0, n as int) })
    } else {
        None
    }
}

/// The result of draining the first `n` elements of `f`: the remaining
/// frame and the drained elements as a frame of capacity `n`, or `f`
/// unchanged and `None` if `f` holds fewer than `n` elements.
pub open spec fn spec_remove(f: FrameView, n: nat) -> (FrameView, Option<FrameView>) {
    if n <= f.elems.len() {
        (
            FrameView {
                kind: f.kind,
                cap: f.cap,
                elems: f.elems.subrange(n as int, f.elems.len() as int),
            },
            Some(FrameView { kind: f.kind, cap: n, elems: f.elems.subrange(0, n as int) }),
        )
    } else {
        (f, None)
    }
}

/// A single element of data to pass between nodes.
#[derive(Debug)]
pub enum FrameSingle {
    /// A single u8
    U8(u8),
    /// A 1D array of u8s
    U8x1(Array1<u8>),
    /// A 2D array of u8s
    U8x2(Array2<u8>),
    /// A single u16
    U16(u16),
    /// A 1D array of u16s
    U16x1(Array1<u16>),
    /// A 2D array of u16s
    U16x2(Array2<u16>),
    /// A single f32 bit pattern
    F32(F32Bits),
    /// A 1D array of f32 bit patterns
    F32x1(Array1<F32Bits>),
    /// A 2D array of f32 bit patterns
    F32x2(Array2<F32Bits>),
    /// A 2D array of RGBA8 pixels
    RGBA8x2(Array2<RGBA8>),
}

impl View for FrameSingle {
    type V = ElemView;

    open spec fn view(&self) -> ElemView {
        match self {
            FrameSingle::U8(v) => ElemView::U8(*v),
            FrameSingle::U8x1(a) => ElemView::U8x1(a@),
            FrameSingle::U8x2(a) => ElemView::U8x2(a@),
            FrameSingle::U16(v) => ElemView::U16(*v),
            FrameSingle::U16x1(a) => ElemView::U16x1(a@),
            FrameSingle::U16x2(a) => ElemView::U16x2(a@),
            FrameSingle::F32(v) => ElemView::F32(*v),
            FrameSingle::F32x1(a) => ElemView::F32x1(a@),
            FrameSingle::F32x2(a) => ElemView::F32x2(a@),
            FrameSingle::RGBA8x2(a) => ElemView::RGBA8x2(a@),
        }
    }
}

impl FrameSingle {
    /// The kind this element belongs to.
    pub fn kind(&self) -> (r: FrameKind)
        ensures
            r == elem_kind(self@),
    {
        match self {
            FrameSingle::U8(_) => FrameKind::U8,
            FrameSingle::U8x1(_) => FrameKind::U8x1,
            FrameSingle::U8x2(_) => FrameKind::U8x2,
            FrameSingle::U16(_) => FrameKind::U16,
            FrameSingle::U16x1(_) => FrameKind::U16x1,
            FrameSingle::U16x2(_) => FrameKind::U16x2,
            FrameSingle::F32(_) => FrameKind::F32,
            FrameSingle::F32x1(_) => FrameKind::F32x1,
            FrameSingle::F32x2(_) => FrameKind::F32x2,
            FrameSingle::RGBA8x2(_) => FrameKind::RGBA8x2,
        }
    }

    /// Unwraps the element as a u8.
    pub fn unwrap_u8(self) -> (r: u8)
        requires
            elem_kind(self@) == FrameKind::U8,
        ensures
            ElemView::U8(r) == self@,
    {
        match self {
            FrameSingle::U8(v) => v,
            _ => unreached(),
        }
    }

    /// Unwraps the element as a 1D array of u8s.
    pub fn unwrap_u8x1(self) -> (r: Array1<u8>)
        requires
            elem_kind(self@) == FrameKind::U8x1,
        ensures
            ElemView::U8x1(r@) == self@,
    {
        match self {
            FrameSingle::U8x1(v) => v,
            _ => unreached(),
        }
    }

    /// Unwraps the element as a 2D array of u8s.
    pub fn unwrap_u8x2(self) -> (r: Array2<u8>)
        requires
            elem_kind(self@) == FrameKind::U8x2,
        ensures
            ElemView::U8x2(r@) == self@,
    {
        match self {
            FrameSingle::U8x2(v) => v,
            _ => unreached(),
        }
    }

    /// Unwraps the element as a u16.
    pub fn unwrap_u16(self) -> (r: u16)
        requires
            elem_kind(self@) == FrameKind::U16,
        ensures
            ElemView::U16(r) == self@,
    {
        match self {
            FrameSingle::U16(v) => v,
            _ => unreached(),
        }
    }

    /// Unwraps the element as a 1D array of u16s.
    pub fn unwrap_u16x1(self) -> (r: Array1<u16>)
        requires
            elem_kind(self@) == FrameKind::U16x1,
        ensures
            ElemView::U16x1(r@) == self@,
    {
        match self {
            FrameSingle::U16x1(v) => v,
            _ => unreached(),
        }
    }

    /// Unwraps the element as a 2D array of u16s.
    pub fn unwrap_u16x2(self) -> (r: Array2<u16>)
        requires
            elem_kind(self@) == FrameKind::U16x2,
        ensures
            ElemView::U16x2(r@) == self@,
    {
        match self {
            FrameSingle::U16x2(v) => v,
            _ => unreached(),
        }
    }

    /// Unwraps the element as an f32 bit pattern.
    pub fn unwrap_f32(self) -> (r: F32Bits)
        requires
            elem_kind(self@) == FrameKind::F32,
        ensures
            ElemView::F32(r) == self@,
    {
        match self {
            FrameSingle::F32(v) => v,
            _ => unreached(),
        }
    }

    /// Unwraps the element as a 1D array of f32 bit patterns.
    pub fn unwrap_f32x1(self) -> (r: Array1<F32Bits>)
        requires
            elem_kind(self@) == FrameKind::F32x1,
        ensures
            ElemView::F32x1(r@) == self@,
    {
        match self {
            FrameSingle::F32x1(v) => v,
            _ => unreached(),
        }
    }

    /// Unwraps the element as a 2D array of f32 bit patterns.
    pub fn unwrap_f32x2(self) -> (r: Array2<F32Bits>)
        requires
            elem_kind(self@) == FrameKind::F32x2,
        ensures
            ElemView::F32x2(r@) == self@,
    {
        match self {
            FrameSingle::F32x2(v) => v,
            _ => unreached(),
        }
    }

    /// Unwraps the element as a 2D array of RGBA8 pixels.
    pub fn unwrap_rgba8x2(self) -> (r: Array2<RGBA8>)
        requires
            elem_kind(self@) == FrameKind::RGBA8x2,
        ensures
            ElemView::RGBA8x2(r@) == self@,
    {
        match self {
            FrameSingle::RGBA8x2(v) => v,
            _ => unreached(),
        }
    }
}

/// A bounded FIFO of elements of one kind, passed as a unit across links.
#[derive(Debug)]
pub enum Frame {
    /// A buffer of single u8s
    U8(LimVecDeque<u8>),
    /// A 1D array of u8s
    U8x1(LimVecDeque<Array1<u8>>),
    /// A 2D array of u8s
    U8x2(LimVecDeque<Array2<u8>>),
    /// A buffer of single u16s
    U16(LimVecDeque<u16>),
    /// A 1D array of u16s
    U16x1(LimVecDeque<Array1<u16>>),
    /// A 2D array of u16s
    U16x2(LimVecDeque<Array2<u16>>),
    /// A buffer of single f32 bit patterns
    F32(LimVecDeque<F32Bits>),
    /// A 1D array of f32 bit patterns
    F32x1(LimVecDeque<Array1<F32Bits>>),
    /// A 2D array of f32 bit patterns
    F32x2(LimVecDeque<Array2<F32Bits>>),
    /// A 2D array of RGBA8 pixels
    RGBA8x2(LimVecDeque<Array2<RGBA8>>),
}

impl View for Frame {
    type V = FrameView;

    open spec fn view(&self) -> FrameView {
        match self {
            Frame::U8(q) => FrameView {
                kind: FrameKind::U8,
                cap: q.spec_capacity(),
                elems: q@.map_values(|v: u8| ElemView::U8(v)),
            },
            Frame::U8x1(q) => FrameView {
                kind: FrameKind::U8x1,
                cap: q.spec_capacity(),
                elems: q@.map_values(|a: Array1<u8>| ElemView::U8x1(a@)),
            },
            Frame::U8x2(q) => FrameView {
                kind: FrameKind::U8x2,
                cap: q.spec_capacity(),
                elems: q@.map_values(|a: Array2<u8>| ElemView::U8x2(a@)),
            },
            Frame::U16(q) => FrameView {
                kind: FrameKind::U16,
                cap: q.spec_capacity(),
                elems: q@.map_values(|v: u16| ElemView::U16(v)),
            },
            Frame::U16x1(q) => FrameView {
                kind: FrameKind::U16x1,
                cap: q.spec_capacity(),
                elems: q@.map_values(|a: Array1<u16>| ElemView::U16x1(a@)),
            },
            Frame::U16x2(q) => FrameView {
                kind: FrameKind::U16x2,
                cap: q.spec_capacity(),
                elems: q@.map_values(|a: Array2<u16>| ElemView::U16x2(a@)),
            },
            Frame::F32(q) => FrameView {
                kind: FrameKind::F32,
                cap: q.spec_capacity(),
                elems: q@.map_values(|v: F32Bits| ElemView::F32(v)),
            },
            Frame::F32x1(q) => FrameView {
                kind: FrameKind::F32x1,
                cap: q.spec_capacity(),
                elems: q@.map_values(|a: Array1<F32Bits>| ElemView::F32x1(a@)),
            },
            Frame::F32x2(q) => FrameView {
                kind: FrameKind::F32x2,
                cap: q.spec_capacity(),
                elems: q@.map_values(|a: Array2<F32Bits>| ElemView::F32x2(a@)),
            },
            Frame::RGBA8x2(q) => FrameView {
                kind: FrameKind::RGBA8x2,
                cap: q.spec_capacity(),
                elems: q@.map_values(|a: Array2<RGBA8>| ElemView::RGBA8x2(a@)),
            },
        }
    }
}

impl Frame {
    /// The kind fixed when this frame was constructed.
    pub fn kind(&self) -> (r: FrameKind)
        ensures
            r == self@.kind,
    {
        match self {
            Frame::U8(_) => FrameKind::U8,
            Frame::U8x1(_) => FrameKind::U8x1,
            Frame::U8x2(_) => FrameKind::U8x2,
            Frame::U16(_) => FrameKind::U16,
            Frame::U16x1(_) => FrameKind::U16x1,
            Frame::U16x2(_) => FrameKind::U16x2,
            Frame::F32(_) => FrameKind::F32,
            Frame::F32x1(_) => FrameKind::F32x1,
            Frame::F32x2(_) => FrameKind::F32x2,
            Frame::RGBA8x2(_) => FrameKind::RGBA8x2,
        }
    }

    /// The number of elements in the queue. It never exceeds the capacity:
    /// that bound holds of every frame at all times, carried by the
    /// queue's type invariant.
    pub fn size(&self) -> (r: usize)
        ensures
            r == self@.elems.len(),
            r <= self@.cap,
    {
        match self {
            Frame::U8(q) => q.len(),
            Frame::U8x1(q) => q.len(),
            Frame::U8x2(q) => q.len(),
            Frame::U16(q) => q.len(),
            Frame::U16x1(q) => q.len(),
            Frame::U16x2(q) => q.len(),
            Frame::F32(q) => q.len(),
            Frame::F32x1(q) => q.len(),
            Frame::F32x2(q) => q.len(),
            Frame::RGBA8x2(q) => q.len(),
        }
    }

    /// The capacity of the queue, fixed at construction.
    pub fn capacity(&self) -> (r: usize)
        ensures
            r == self@.cap,
            self@.elems.len() <= r,
    {
        match self {
            Frame::U8(q) => q.capacity(),
            Frame::U8x1(q) => q.capacity(),
            Frame::U8x2(q) => q.capacity(),
            Frame::U16(q) => q.capacity(),
            Frame::U16x1(q) => q.capacity(),
            Frame::U16x2(q) => q.capacity(),
            Frame::F32(q) => q.capacity(),
            Frame::F32x1(q) => q.capacity(),
            Frame::F32x2(q) => q.capacity(),
            Frame::RGBA8x2(q) => q.capacity(),
        }
    }

    /// Creates a new empty frame of the given kind and capacity.
    pub fn with_capacity(kind: FrameKind, capacity: usize) -> (r: Frame)
        ensures
            r@ == (FrameView { kind, cap: capacity as nat, elems: Seq::<ElemView>::empty() }),
    {
        let r = match kind {
            FrameKind::U8 => Frame::U8(LimVecDeque::with_capacity(capacity)),
            FrameKind::U8x1 => Frame::U8x1(LimVecDeque::with_capacity(capacity)),
            FrameKind::U8x2 => Frame::U8x2(LimVecDeque::with_capacity(capacity)),
            FrameKind::U16 => Frame::U16(LimVecDeque::with_capacity(capacity)),
            FrameKind::U16x1 => Frame::U16x1(LimVecDeque::with_capacity(capacity)),
            FrameKind::U16x2 => Frame::U16x2(LimVecDeque::with_capacity(capacity)),
            FrameKind::F32 => Frame::F32(LimVecDeque::with_capacity(capacity)),
            FrameKind::F32x1 => Frame::F32x1(LimVecDeque::with_capacity(capacity)),
            FrameKind::F32x2 => Frame::F32x2(LimVecDeque::with_capacity(capacity)),
            FrameKind::RGBA8x2 => Frame::RGBA8x2(LimVecDeque::with_capacity(capacity)),
        };
        proof {
            assert(r@.elems =~= Seq::<ElemView>::empty());
            assert(r@ =~= (FrameView {
                kind,
                cap: capacity as nat,
                elems: Seq::<ElemView>::empty(),
            }));
        }
        r
    }

    /// Unwraps the frame into its queue of u8s.
    pub fn unwrap_u8(self) -> (r: LimVecDeque<u8>)
        requires
            self@.kind == FrameKind::U8,
        ensures
            r@.map_values(|v: u8| ElemView::U8(v)) == self@.elems,
            r.spec_capacity() == self@.cap,
    {
        match self {
            Frame::U8(v) => v,
            _ => unreached(),
        }
    }

    /// Unwraps the frame into its queue of 1D u8 arrays.
    pub fn unwrap_u8x1(self) -> (r: LimVecDeque<Array1<u8>>)
        requires
            self@.kind == FrameKind::U8x1,
        ensures
            r@.map_values(|a: Array1<u8>| ElemView::U8x1(a@)) == self@.elems,
            r.spec_capacity() == self@.cap,
    {
        match self {
            Frame::U8x1(v) => v,
            _ => unreached(),
        }
    }

    /// Unwraps the frame into its queue of 2D u8 arrays.
    pub fn unwrap_u8x2(self) -> (r: LimVecDeque<Array2<u8>>)
        requires
            self@.kind == FrameKind::U8x2,
        ensures
            r@.map_values(|a: Array2<u8>| ElemView::U8x2(a@)) == self@.elems,
            r.spec_capacity() == self@.cap,
    {
        match self {
            Frame::U8x2(v) => v,
            _ => unreached(),
        }
    }

    /// Unwraps the frame into its queue of u16s.
    pub fn unwrap_u16(self) -> (r: LimVecDeque<u16>)
        requires
            self@.kind == FrameKind::U16,
        ensures
            r@.map_values(|v: u16| ElemView::U16(v)) == self@.elems,
            r.spec_capacity() == self@.cap,
    {
        match self {
            Frame::U16(v) => v,
            _ => unreached(),
        }
    }

    /// Unwraps the frame into its queue of 1D u16 arrays.
    pub fn unwrap_u16x1(self) -> (r: LimVecDeque<Array1<u16>>)
        requires
            self@.kind == FrameKind::U16x1,
        ensures
            r@.map_values(|a: Array1<u16>| ElemView::U16x1(a@)) == self@.elems,
            r.spec_capacity() == self@.cap,
    {
        match self {
            Frame::U16x1(v) => v,
            _ => unreached(),
        }
    }

    /// Unwraps the frame into its queue of 2D u16 arrays.
    pub fn unwrap_u16x2(self) -> (r: LimVecDeque<Array2<u16>>)
        requires
            self@.kind == FrameKind::U16x2,
        ensures
            r@.map_values(|a: Array2<u16>| ElemView::U16x2(a@)) == self@.elems,
            r.spec_capacity() == self@.cap,
    {
        match self {
            Frame::U16x2(v) => v,
            _ => unreached(),
        }
    }

    /// Unwraps the frame into its queue of f32 bit patterns.
    pub fn unwrap_f32(self) -> (r: LimVecDeque<F32Bits>)
        requires
            self@.kind == FrameKind::F32,
        ensures
            r@.map_values(|v: F32Bits| ElemView::F32(v)) == self@.elems,
            r.spec_capacity() == self@.cap,
    {
        match self {
            Frame::F32(v) => v,
            _ => unreached(),
        }
    }

    /// Unwraps the frame into its queue of 1D f32 arrays.
    pub fn unwrap_f32x1(self) -> (r: LimVecDeque<Array1<F32Bits>>)
        requires
            self@.kind == FrameKind::F32x1,
        ensures
            r@.map_values(|a: Array1<F32Bits>| ElemView::F32x1(a@)) == self@.elems,
            r.spec_capacity() == self@.cap,
    {
        match self {
            Frame::F32x1(v) => v,
            _ => unreached(),
        }
    }

    /// Unwraps the frame into its queue of 2D f32 arrays.
    pub fn unwrap_f32x2(self) -> (r: LimVecDeque<Array2<F32Bits>>)
        requires
            self@.kind == FrameKind::F32x2,
        ensures
            r@.map_values(|a: Array2<F32Bits>| ElemView::F32x2(a@)) == self@.elems,
            r.spec_capacity() == self@.cap,
    {
        match self {
            Frame::F32x2(v) => v,
            _ => unreached(),
        }
    }

    /// Unwraps the frame into its queue of 2D RGBA8 arrays.
    pub fn unwrap_rgba8x2(self) -> (r: LimVecDeque<Array2<RGBA8>>)
        requires
            self@.kind == FrameKind::RGBA8x2,
        ensures
            r@.map_values(|a: Array2<RGBA8>| ElemView::RGBA8x2(a@)) == self@.elems,
            r.spec_capacity() == self@.cap,
    {
        match self {
            Frame::RGBA8x2(v) => v,
            _ => unreached(),
        }
    }

    /// Appends the contents of `data` onto this frame if they fit, leaving
    /// the frame unchanged and returning `None` otherwise. The two frames
    /// must share a kind.
    pub fn add(&mut self, data: Frame) -> (r: Option<()>)
        requires
            data@.kind == old(self)@.kind,
        ensures
            final(self)@ == spec_add(old(self)@, data@).0,
            r is Some <==> spec_add(old(self)@, data@).1,
            old(self)@.elems.len() <= old(self)@.cap,
            data@.elems.len() <= data@.cap,
            final(self)@.elems.len() <= final(self)@.cap,
            final(self)@.cap == old(self)@.cap,
            final(self)@.kind == old(self)@.kind,
    {
        let cap = self.capacity();
        let size = self.size();
        let dsize = data.size();
        if dsize <= cap - size {
            match self {
                Frame::U8(q) => {
                    let mut d = data.unwrap_u8();
                    q.append(&mut d);
                },
                Frame::U8x1(q) => {
                    let mut d = data.unwrap_u8x1();
                    q.append(&mut d);
                },
                Frame::U8x2(q) => {
                    let mut d = data.unwrap_u8x2();
                    q.append(&mut d);
                },
                Frame::U16(q) => {
                    let mut d = data.unwrap_u16();
                    q.append(&mut d);
                },
                Frame::U16x1(q) => {
                    let mut d = data.unwrap_u16x1();
                    q.append(&mut d);
                },
                Frame::U16x2(q) => {
                    let mut d = data.unwrap_u16x2();
                    q.append(&mut d);
                },
                Frame::F32(q) => {
                    let mut d = data.unwrap_f32();
                    q.append(&mut d);
                },
                Frame::F32x1(q) => {
                    let mut d = data.unwrap_f32x1();
                    q.append(&mut d);
                },
                Frame::F32x2(q) => {
                    let mut d = data.unwrap_f32x2();
                    q.append(&mut d);
                },
                Frame::RGBA8x2(q) => {
                    let mut d = data.unwrap_rgba8x2();
                    q.append(&mut d);
                },
            }
            proof {
                assert(final(self)@.elems =~= old(self)@.elems + data@.elems);
                assert(final(self)@ =~= spec_add(old(self)@, data@).0);
            }
            Some(())
        } else {
            None
        }
    }

    /// Appends one element onto this frame if there is room, leaving the
    /// frame unchanged and returning `None` otherwise. The element's kind
    /// must match the frame's.
    pub fn add_single(&mut self, data: FrameSingle) -> (r: Option<()>)
        requires
            elem_kind(data@) == old(self)@.kind,
        ensures
            final(self)@ == spec_add_single(old(self)@, data@).0,
            r is Some <==> spec_add_single(old(self)@, data@).1,
            old(self)@.elems.len() <= old(self)@.cap,
            final(self)@.elems.len() <= final(self)@.cap,
            final(self)@.cap == old(self)@.cap,
            final(self)@.kind == old(self)@.kind,
    {
        let cap = self.capacity();
        let size = self.size();
        if size < cap {
            match self {
                Frame::U8(q) => q.push_back(data.unwrap_u8()),
                Frame::U8x1(q) => q.push_back(data.unwrap_u8x1()),
                Frame::U8x2(q) => q.push_back(data.unwrap_u8x2()),
                Frame::U16(q) => q.push_back(data.unwrap_u16()),
                Frame::U16x1(q) => q.push_back(data.unwrap_u16x1()),
                Frame::U16x2(q) => q.push_back(data.unwrap_u16x2()),
                Frame::F32(q) => q.push_back(data.unwrap_f32()),
                Frame::F32x1(q) => q.push_back(data.unwrap_f32x1()),
                Frame::F32x2(q) => q.push_back(data.unwrap_f32x2()),
                Frame::RGBA8x2(q) => q.push_back(data.unwrap_rgba8x2()),
            }
            proof {
                assert(final(self)@.elems =~= old(self)@.elems.push(data@));
                assert(final(self)@ =~= spec_add_single(old(self)@, data@).0);
            }
            Some(())
        } else {
            None
        }
    }

    /// A non-consuming copy of the first `count` elements as a new frame of
    /// capacity `count`, or `None` if fewer than `count` are queued. The
    /// frame itself is untouched, so peeking twice returns the same value.
    pub fn peek(&self, count: usize) -> (r: Option<Frame>)
        ensures
            match r {
                Some(p) => spec_peek(self@, count as nat) == Some(p@),
                None => spec_peek(self@, count as nat) is None,
            },
    {
        let size = self.size();
        if count <= size {
            let r = match self {
                Frame::U8(q) => {
                    let mut out: LimVecDeque<u8> = LimVecDeque::with_capacity(count);
                    let mut i: usize = 0;
                    while i < count
                        invariant
                            i <= count <= q@.len(),
                            out@.len() == i,
                            out.spec_capacity() == count,
                            forall|j: int| 0 <= j < i ==> out@[j] == q@[j],
                        decreases count - i,
                    {
                        out.push_back(*q.get(i));
                        i = i + 1;
                    }
                    Frame::U8(out)
                },
                Frame::U8x1(q) => {
                    let mut out: LimVecDeque<Array1<u8>> = LimVecDeque::with_capacity(count);
                    let mut i: usize = 0;
                    while i < count
                        invariant
                            i <= count <= q@.len(),
                            out@.len() == i,
                            out.spec_capacity() == count,
                            forall|j: int| 0 <= j < i ==> out@[j]@ == q@[j]@,
                        decreases count - i,
                    {
                        out.push_back(q.get(i).dup());
                        i = i + 1;
                    }
                    Frame::U8x1(out)
                },
                Frame::U8x2(q) => {
                    let mut out: LimVecDeque<Array2<u8>> = LimVecDeque::with_capacity(count);
                    let mut i: usize = 0;
                    while i < count
                        invariant
                            i <= count <= q@.len(),
                            out@.len() == i,
                            out.spec_capacity() == count,
                            forall|j: int| 0 <= j < i ==> out@[j]@ == q@[j]@,
                        decreases count - i,
                    {
                        out.push_back(q.get(i).dup());
                        i = i + 1;
                    }
                    Frame::U8x2(out)
                },
                Frame::U16(q) => {
                    let mut out: LimVecDeque<u16> = LimVecDeque::with_capacity(count);
                    let mut i: usize = 0;
                    while i < count
                        invariant
                            i <= count <= q@.len(),
                            out@.len() == i,
                            out.spec_capacity() == count,
                            forall|j: int| 0 <= j < i ==> out@[j] == q@[j],
                        decreases count - i,
                    {
                        out.push_back(*q.get(i));
                        i = i + 1;
                    }
                    Frame::U16(out)
                },
                Frame::U16x1(q) => {
                    let mut out: LimVecDeque<Array1<u16>> = LimVecDeque::with_capacity(count);
                    let mut i: usize = 0;
                    while i < count
                        invariant
                            i <= count <= q@.len(),
                            out@.len() == i,
                            out.spec_capacity() == count,
                            forall|j: int| 0 <= j < i ==> out@[j]@ == q@[j]@,
                        decreases count - i,
                    {
                        out.push_back(q.get(i).dup());
                        i = i + 1;
                    }
                    Frame::U16x1(out)
                },
                Frame::U16x2(q) => {
                    let mut out: LimVecDeque<Array2<u16>> = LimVecDeque::with_capacity(count);
                    let mut i: usize = 0;
                    while i < count
                        invariant
                            i <= count <= q@.len(),
                            out@.len() == i,
                            out.spec_capacity() == count,
                            forall|j: int| 0 <= j < i ==> out@[j]@ == q@[j]@,
                        decreases count - i,
                    {
                        out.push_back(q.get(i).dup());
                        i = i + 1;
                    }
                    Frame::U16x2(out)
                },
                Frame::F32(q) => {
                    let mut out: LimVecDeque<F32Bits> = LimVecDeque::with_capacity(count);
                    let mut i: usize = 0;
                    while i < count
                        invariant
                            i <= count <= q@.len(),
                            out@.len() == i,
                            out.spec_capacity() == count,
                            forall|j: int| 0 <= j < i ==> out@[j] == q@[j],
                        decreases count - i,
                    {
                        out.push_back(*q.get(i));
                        i = i + 1;
                    }
                    Frame::F32(out)
                },
                Frame::F32x1(q) => {
                    let mut out: LimVecDeque<Array1<F32Bits>> = LimVecDeque::with_capacity(count);
                    let mut i: usize = 0;
                    while i < count
                        invariant
                            i <= count <= q@.len(),
                            out@.len() == i,
                            out.spec_capacity() == count,
                            forall|j: int| 0 <= j < i ==> out@[j]@ == q@[j]@,
                        decreases count - i,
                    {
                        out.push_back(q.get(i).dup());
                        i = i + 1;
                    }
                    Frame::F32x1(out)
                },
                Frame::F32x2(q) => {
                    let mut out: LimVecDeque<Array2<F32Bits>> = LimVecDeque::with_capacity(count);
                    let mut i: usize = 0;
                    while i < count
                        invariant
                            i <= count <= q@.len(),
                            out@.len() == i,
                            out.spec_capacity() == count,
                            forall|j: int| 0 <= j < i ==> out@[j]@ == q@[j]@,
                        decreases count - i,
                    {
                        out.push_back(q.get(i).dup());
                        i = i + 1;
                    }
                    Frame::F32x2(out)
                },
                Frame::RGBA8x2(q) => {
                    let mut out: LimVecDeque<Array2<RGBA8>> = LimVecDeque::with_capacity(count);
                    let mut i: usize = 0;
                    while i < count
                        invariant
                            i <= count <= q@.len(),
                            out@.len() == i,
                            out.spec_capacity() == count,
                            forall|j: int| 0 <= j < i ==> out@[j]@ == q@[j]@,
                        decreases count - i,
                    {
                        out.push_back(q.get(i).dup());
                        i = i + 1;
                    }
                    Frame::RGBA8x2(out)
                },
            };
            proof {
                assert(r@.elems =~= self@.elems.subrange(0, count as int));
                assert(Some(r@) =~~= spec_peek(self@, count as nat));
            }
            Some(r)
        } else {
            None
        }
    }

    /// Drains the first `count` elements into a new frame of capacity
    /// `count`, or returns `None` leaving the frame unchanged if fewer
    /// than `count` are queued.
    pub fn remove(&mut self, count: usize) -> (r: Option<Frame>)
        ensures
            final(self)@ == spec_remove(old(self)@, count as nat).0,
            match r {
                Some(out) => spec_remove(old(self)@, count as nat).1 == Some(out@),
                None => spec_remove(old(self)@, count as nat).1 is None,
            },
    {
        let size = self.size();
        if count <= size {
            let out = match self {
                Frame::U8(q) => Frame::U8(q.drain(count)),
                Frame::U8x1(q) => Frame::U8x1(q.drain(count)),
                Frame::U8x2(q) => Frame::U8x2(q.drain(count)),
                Frame::U16(q) => Frame::U16(q.drain(count)),
                Frame::U16x1(q) => Frame::U16x1(q.drain(count)),
                Frame::U16x2(q) => Frame::U16x2(q.drain(count)),
                Frame::F32(q) => Frame::F32(q.drain(count)),
                Frame::F32x1(q) => Frame::F32x1(q.drain(count)),
                Frame::F32x2(q) => Frame::F32x2(q.drain(count)),
                Frame::RGBA8x2(q) => Frame::RGBA8x2(q.drain(count)),
            };
            proof {
                assert(out@.elems =~= old(self)@.elems.subrange(0, count as int));
                assert(final(self)@.elems =~= old(self)@.elems.subrange(
                    count as int,
                    old(self)@.elems.len() as int,
                ));
                assert(final(self)@ =~= spec_remove(old(self)@, count as nat).0);
                assert(Some(out@) =~~= spec_remove(old(self)@, count as nat).1);
            }
            Some(out)
        } else {
            None
        }
    }

    /// Replaces this frame with an empty one of the same kind and capacity
    /// and returns the former contents.
    pub fn remove_all(&mut self) -> (r: Frame)
        ensures
            r@ == old(self)@,
            final(self)@ == (FrameView {
                kind: old(self)@.kind,
                cap: old(self)@.cap,
                elems: Seq::<ElemView>::empty(),
            }),
    {
        let kind = self.kind();
        let cap = self.capacity();
        let mut new = Frame::with_capacity(kind, cap);
        std::mem::swap(&mut new, self);
        new
    }

    /// Pops the front element as a `FrameSingle`, or returns `None` if
    /// the frame is empty.
    pub fn remove_single(&mut self) -> (r: Option<FrameSingle>)
        ensures
            final(self)@.kind == old(self)@.kind,
            final(self)@.cap == old(self)@.cap,
            match r {
                Some(e) => {
                    &&& old(self)@.elems.len() > 0
                    &&& e@ == old(self)@.elems[0]
                    &&& final(self)@.elems == old(self)@.elems.subrange(
                        1,
                        old(self)@.elems.len() as int,
                    )
                },
                None => {
                    &&& old(self)@.elems.len() == 0
                    &&& final(self)@ == old(self)@
                },
            },
    {
        let r = match self {
            Frame::U8(q) => match q.pop_front() {
                Some(v) => Some(FrameSingle::U8(v)),
                None => None,
            },
            Frame::U8x1(q) => match q.pop_front() {
                Some(v) => Some(FrameSingle::U8x1(v)),
                None => None,
            },
            Frame::U8x2(q) => match q.pop_front() {
                Some(v) => Some(FrameSingle::U8x2(v)),
                None => None,
            },
            Frame::U16(q) => match q.pop_front() {
                Some(v) => Some(FrameSingle::U16(v)),
                None => None,
            },
            Frame::U16x1(q) => match q.pop_front() {
                Some(v) => Some(FrameSingle::U16x1(v)),
                None => None,
            },
            Frame::U16x2(q) => match q.pop_front() {
                Some(v) => Some(FrameSingle::U16x2(v)),
                None => None,
            },
            Frame::F32(q) => match q.pop_front() {
                Some(v) => Some(FrameSingle::F32(v)),
                None => None,
            },
            Frame::F32x1(q) => match q.pop_front() {
                Some(v) => Some(FrameSingle::F32x1(v)),
                None => None,
            },
            Frame::F32x2(q) => match q.pop_front() {
                Some(v) => Some(FrameSingle::F32x2(v)),
                None => None,
            },
            Frame::RGBA8x2(q) => match q.pop_front() {
                Some(v) => Some(FrameSingle::RGBA8x2(v)),
                None => None,
            },
        };
        proof {
            if r is Some {
                assert(final(self)@.elems =~= old(self)@.elems.subrange(
                    1,
                    old(self)@.elems.len() as int,
                ));
            } else {
                assert(final(self)@ =~= old(self)@);
            }
        }
        r
    }
}

/// Capacity bound: every frame operation keeps a frame's size within its
/// capacity, so `size() <= capacity()` holds of every frame at all times.
/// The wrapped queue enforces the same bound as a type invariant; this
/// states it of the operations' results.
pub proof fn lemma_capacity_bound(f: FrameView, d: FrameView, e: ElemView, n: nat)
    requires
        f.elems.len() <= f.cap,
    ensures
        spec_add(f, d).0.elems.len() <= spec_add(f, d).0.cap,
        spec_add_single(f, e).0.elems.len() <= spec_add_single(f, e).0.cap,
        spec_remove(f, n).0.elems.len() <= spec_remove(f, n).0.cap,
        spec_remove(f, n).1 matches Some(out) ==> out.elems.len() <= out.cap,
        spec_peek(f, n) matches Some(p) ==> p.elems.len() <= p.cap,
{
}

/// Kind stability: no frame operation changes the kind that
/// [`Frame::with_capacity`] fixed at construction, and the frames that
/// `peek` and `remove` hand out inherit that same kind.
pub proof fn lemma_kind_stable(f: FrameView, d: FrameView, e: ElemView, n: nat)
    requires
        d.kind == f.kind,
        elem_kind(e) == f.kind,
    ensures
        spec_add(f, d).0.kind == f.kind,
        spec_add_single(f, e).0.kind == f.kind,
        spec_remove(f, n).0.kind == f.kind,
        spec_remove(f, n).1 matches Some(out) ==> out.kind == f.kind,
        spec_peek(f, n) matches Some(p) ==> p.kind == f.kind,
{
}

/// FIFO law: elements added to an empty frame and then removed come back
/// unchanged and in their insertion order, and the frame is empty again.
pub proof fn lemma_fifo(f: FrameView, d: FrameView)
    requires
        f.elems.len() == 0,
        d.kind == f.kind,
        d.elems.len() <= f.cap,
    ensures
        spec_add(f, d).1,
        spec_remove(spec_add(f, d).0, d.elems.len()).1 == Some(
            FrameView { kind: f.kind, cap: d.elems.len(), elems: d.elems },
        ),
        spec_remove(spec_add(f, d).0, d.elems.len()).0.elems.len() == 0,
{
    let f1 = spec_add(f, d).0;
    assert(f1.elems =~= d.elems);
    assert(f1.elems.subrange(0, d.elems.len() as int) =~= d.elems);
    assert(spec_remove(f1, d.elems.len()).1 =~~= Some(
        FrameView { kind: f.kind, cap: d.elems.len(), elems: d.elems },
    ));
}

/// Peek previews removal: what `peek` returns is exactly the frame that
/// `remove` would hand out, while peeking leaves the frame itself
/// unchanged.
pub proof fn lemma_peek_previews_remove(f: FrameView, n: nat)
    ensures
        spec_peek(f, n) == spec_remove(f, n).1,
{
}

} // verus!
