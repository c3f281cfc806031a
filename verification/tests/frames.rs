use vidmod::element::{Array1, Array2, F32Bits, RGBA8};
use vidmod::frame::{Frame, FrameKind, FrameSingle};
use vidmod::queue::LimVecDeque;

#[test]
fn queue_push_pop_order() {
    let mut q: LimVecDeque<u16> = LimVecDeque::with_capacity(3);
    assert!(q.is_empty());
    q.push_back(1);
    q.push_back(2);
    q.push_back(3);
    assert_eq!(q.len(), 3);
    assert_eq!(q.capacity(), 3);
    assert_eq!(q.pop_front(), Some(1));
    assert_eq!(q.pop_front(), Some(2));
    assert_eq!(q.pop_front(), Some(3));
    assert_eq!(q.pop_front(), None);
}

#[test]
fn queue_append_moves_all() {
    let mut a: LimVecDeque<u8> = LimVecDeque::with_capacity(4);
    a.push_back(1);
    let mut b = LimVecDeque::from_vec(vec![2, 3]);
    a.append(&mut b);
    assert_eq!(b.len(), 0);
    assert_eq!(a.len(), 3);
    assert_eq!(a.pop_front(), Some(1));
    assert_eq!(a.pop_front(), Some(2));
    assert_eq!(a.pop_front(), Some(3));
}

#[test]
fn queue_drain_takes_front() {
    let mut q = LimVecDeque::from_vec(vec![10u8, 20, 30, 40]);
    let mut d = q.drain(3);
    assert_eq!(d.len(), 3);
    assert_eq!(d.capacity(), 3);
    assert_eq!(d.pop_front(), Some(10));
    assert_eq!(d.pop_front(), Some(20));
    assert_eq!(d.pop_front(), Some(30));
    assert_eq!(q.len(), 1);
    assert_eq!(q.pop_front(), Some(40));
}

#[test]
fn queue_views_after_wraparound() {
    // Force the ring buffer to wrap, then check that the views still hand
    // out the contents in order.
    let mut q: LimVecDeque<u8> = LimVecDeque::with_capacity(3);
    q.push_back(1);
    q.push_back(2);
    q.push_back(3);
    assert_eq!(q.pop_front(), Some(1));
    q.push_back(4);
    let (front, back) = q.as_slices();
    let mut all: Vec<u8> = front.to_vec();
    all.extend_from_slice(back);
    assert_eq!(all, vec![2, 3, 4]);
    let contiguous = q.make_contiguous().to_vec();
    assert_eq!(contiguous, vec![2, 3, 4]);
    assert_eq!(q.len(), 3);
    let refs = q.iter();
    assert_eq!(*refs[0], 2);
    assert_eq!(*refs[1], 3);
    assert_eq!(*refs[2], 4);
    assert_eq!(*q.get(0), 2);
}

#[test]
fn kind_parse_all_tags() {
    assert_eq!(FrameKind::parse("U8"), Some(FrameKind::U8));
    assert_eq!(FrameKind::parse("U8x1"), Some(FrameKind::U8x1));
    assert_eq!(FrameKind::parse("U8x2"), Some(FrameKind::U8x2));
    assert_eq!(FrameKind::parse("U16"), Some(FrameKind::U16));
    assert_eq!(FrameKind::parse("U16x1"), Some(FrameKind::U16x1));
    assert_eq!(FrameKind::parse("U16x2"), Some(FrameKind::U16x2));
    assert_eq!(FrameKind::parse("F32"), Some(FrameKind::F32));
    assert_eq!(FrameKind::parse("F32x1"), Some(FrameKind::F32x1));
    assert_eq!(FrameKind::parse("F32x2"), Some(FrameKind::F32x2));
    assert_eq!(FrameKind::parse("RGBA8x2"), Some(FrameKind::RGBA8x2));
    assert_eq!(FrameKind::parse("U32"), None);
    assert_eq!(FrameKind::parse(""), None);
}

#[test]
fn kind_tag_round_trip() {
    let kinds = [
        FrameKind::U8,
        FrameKind::U8x1,
        FrameKind::U8x2,
        FrameKind::U16,
        FrameKind::U16x1,
        FrameKind::U16x2,
        FrameKind::F32,
        FrameKind::F32x1,
        FrameKind::F32x2,
        FrameKind::RGBA8x2,
    ];
    for k in kinds {
        assert_eq!(FrameKind::parse(k.tag().as_str()), Some(k));
    }
}

#[test]
fn with_capacity_fixes_kind_per_tag() {
    // One arm per kind, no aliasing: each constructed frame reports
    // exactly the kind it was asked for.
    let kinds = [
        FrameKind::U8,
        FrameKind::U8x1,
        FrameKind::U8x2,
        FrameKind::U16,
        FrameKind::U16x1,
        FrameKind::U16x2,
        FrameKind::F32,
        FrameKind::F32x1,
        FrameKind::F32x2,
        FrameKind::RGBA8x2,
    ];
    for k in kinds {
        let f = Frame::with_capacity(k, 4);
        assert_eq!(f.kind(), k);
        assert_eq!(f.capacity(), 4);
        assert_eq!(f.size(), 0);
    }
}

#[test]
fn capacity_bound_holds() {
    let mut f = Frame::with_capacity(FrameKind::U8, 2);
    assert_eq!(f.add_single(FrameSingle::U8(1)), Some(()));
    assert_eq!(f.add_single(FrameSingle::U8(2)), Some(()));
    assert!(f.size() <= f.capacity());
    // A third element does not fit; the frame is left unchanged.
    assert_eq!(f.add_single(FrameSingle::U8(3)), None);
    assert_eq!(f.size(), 2);
    assert!(f.size() <= f.capacity());
    // Bulk add beyond capacity is refused whole.
    let extra = Frame::U8(LimVecDeque::from_vec(vec![4, 5]));
    assert_eq!(f.add(extra), None);
    assert_eq!(f.size(), 2);
}

#[test]
fn fifo_order_preserved() {
    // What goes into an empty frame comes out unchanged and in order.
    let mut f = Frame::with_capacity(FrameKind::U16, 8);
    let data = Frame::U16(LimVecDeque::from_vec(vec![5, 6, 7]));
    assert_eq!(f.add(data), Some(()));
    let out = f.remove(3).unwrap();
    assert_eq!(out.kind(), FrameKind::U16);
    let mut q = out.unwrap_u16();
    assert_eq!(q.pop_front(), Some(5));
    assert_eq!(q.pop_front(), Some(6));
    assert_eq!(q.pop_front(), Some(7));
    assert_eq!(f.size(), 0);
}

#[test]
fn peek_is_idempotent() {
    let mut f = Frame::with_capacity(FrameKind::U8, 4);
    assert_eq!(f.add(Frame::U8(LimVecDeque::from_vec(vec![9, 8, 7]))), Some(()));
    let a = f.peek(2).unwrap();
    let b = f.peek(2).unwrap();
    assert_eq!(f.size(), 3);
    let mut qa = a.unwrap_u8();
    let mut qb = b.unwrap_u8();
    assert_eq!(qa.pop_front(), qb.pop_front());
    assert_eq!(qa.pop_front(), qb.pop_front());
    assert_eq!(qa.pop_front(), None);
    assert_eq!(qb.pop_front(), None);
    // Peek previews removal: removing now yields the peeked elements.
    let mut qc = f.remove(2).unwrap().unwrap_u8();
    assert_eq!(qc.pop_front(), Some(9));
    assert_eq!(qc.pop_front(), Some(8));
    // Oversized peek and remove are refused.
    assert!(f.peek(2).is_none());
    assert!(f.remove(2).is_none());
}

#[test]
fn kind_stable_across_operations() {
    let mut f = Frame::with_capacity(FrameKind::U16, 4);
    assert_eq!(f.kind(), FrameKind::U16);
    f.add_single(FrameSingle::U16(1)).unwrap();
    assert_eq!(f.kind(), FrameKind::U16);
    let removed = f.remove(1).unwrap();
    assert_eq!(removed.kind(), FrameKind::U16);
    assert_eq!(f.kind(), FrameKind::U16);
    f.add_single(FrameSingle::U16(2)).unwrap();
    let all = f.remove_all();
    assert_eq!(all.kind(), FrameKind::U16);
    assert_eq!(all.size(), 1);
    assert_eq!(f.kind(), FrameKind::U16);
    assert_eq!(f.capacity(), 4);
    assert_eq!(f.size(), 0);
}

#[test]
fn remove_single_pops_front() {
    let mut f = Frame::with_capacity(FrameKind::U8, 3);
    f.add(Frame::U8(LimVecDeque::from_vec(vec![1, 2]))).unwrap();
    let s = f.remove_single().unwrap();
    assert_eq!(s.kind(), FrameKind::U8);
    assert_eq!(s.unwrap_u8(), 1);
    assert_eq!(f.size(), 1);
    let s2 = f.remove_single().unwrap();
    assert_eq!(s2.unwrap_u8(), 2);
    assert!(f.remove_single().is_none());
}

#[test]
fn array_frames_carry_shape_and_cells() {
    let row = Array1::new(vec![1u8, 2, 3]);
    assert_eq!(row.len(), 3);
    let mut f = Frame::with_capacity(FrameKind::U8x1, 2);
    f.add_single(FrameSingle::U8x1(row)).unwrap();
    let peeked = f.peek(1).unwrap();
    let mut q = peeked.unwrap_u8x1();
    let got = q.pop_front().unwrap();
    assert_eq!(got.data, vec![1, 2, 3]);
    // The element itself is still queued after the peek.
    assert_eq!(f.size(), 1);

    let plane = Array2::new(2, 2, vec![10u16, 20, 30, 40]);
    assert_eq!(plane.rows(), 2);
    assert_eq!(plane.cols(), 2);
    let mut g = Frame::with_capacity(FrameKind::U16x2, 1);
    g.add_single(FrameSingle::U16x2(plane)).unwrap();
    let out = g.remove_single().unwrap().unwrap_u16x2();
    assert_eq!(out.cells(), &vec![10, 20, 30, 40]);
}

#[test]
fn f32_frames_carry_bit_patterns() {
    let x: f32 = 1.5;
    let mut f = Frame::with_capacity(FrameKind::F32, 2);
    f.add_single(FrameSingle::F32(F32Bits { bits: x.to_bits() })).unwrap();
    let s = f.remove_single().unwrap().unwrap_f32();
    assert_eq!(f32::from_bits(s.bits), 1.5);
}

#[test]
fn rgba_frames_hold_pixels() {
    let px = RGBA8 { r: 1, g: 2, b: 3, a: 4 };
    let plane = Array2::new(1, 1, vec![px]);
    let mut f = Frame::with_capacity(FrameKind::RGBA8x2, 1);
    f.add_single(FrameSingle::RGBA8x2(plane)).unwrap();
    let out = f.remove_single().unwrap().unwrap_rgba8x2();
    assert_eq!(out.cells()[0], RGBA8 { r: 1, g: 2, b: 3, a: 4 });
}
