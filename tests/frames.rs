use kernel::frame::{ExternalArc, FrameKind, Frames, Idx, InternalArc, NormalArc, Object};
use kernel::machine::FRAME_COUNT;
use kernel::page::{ExternalPageCap, InternalPageCap, NormalPageCap};
use kernel::ptr::MaybeDangling;

fn idx(i: usize) -> Idx {
    Idx::from_raw(i).unwrap()
}

fn frames_with_normal(range: std::ops::Range<usize>) -> Frames {
    let mut frames = Frames::new();
    for i in range {
        frames.mark_normal(idx(i));
    }
    frames
}

#[test]
fn idx_bounds() {
    assert_eq!(Idx::from_raw(0).unwrap().into_raw(), 0);
    assert_eq!(Idx::from_raw(FRAME_COUNT - 1).unwrap().into_raw(), FRAME_COUNT - 1);
    assert!(Idx::from_raw(FRAME_COUNT).is_none());
    assert!(Idx::from_raw(usize::MAX).is_none());
}

#[test]
fn registry_starts_internal_and_unused() {
    let frames = Frames::new();
    assert_eq!(frames.kind(idx(0)), FrameKind::Internal);
    assert_eq!(frames.kind(idx(FRAME_COUNT - 1)), FrameKind::Internal);
    assert_eq!(frames.ref_count(idx(17)), 0);
    assert!(frames.object(idx(17)).is_none());
}

#[test]
fn mark_sets_kinds() {
    let mut frames = Frames::new();
    frames.mark_normal(idx(5));
    frames.mark_device(idx(6));
    assert_eq!(frames.kind(idx(5)), FrameKind::Normal);
    assert_eq!(frames.kind(idx(6)), FrameKind::External);
    assert_eq!(frames.kind(idx(7)), FrameKind::Internal);
}

#[test]
fn second_claim_of_a_frame_fails() {
    let mut frames = frames_with_normal(10..11);
    let first = NormalArc::new(&mut frames, idx(10), [1u8; 4096]);
    assert!(first.is_some());
    assert_eq!(frames.ref_count(idx(10)), 2);
    let second = NormalArc::new(&mut frames, idx(10), [2u8; 4096]);
    assert!(second.is_none());
    assert_eq!(frames.ref_count(idx(10)), 2);
    match frames.object(idx(10)) {
        Some(o) => match o {
            Object::Page(bytes) => assert_eq!(bytes[0], 1),
            _ => panic!("not a page"),
        },
        None => panic!("no object"),
    }
}

#[test]
fn claim_respects_kind() {
    let mut frames = Frames::new();
    frames.mark_device(idx(3));
    frames.mark_normal(idx(4));
    assert!(NormalArc::new(&mut frames, idx(2), [0u8; 4096]).is_none());
    assert!(NormalArc::new(&mut frames, idx(3), [0u8; 4096]).is_none());
    assert!(InternalArc::<()>::assume_init(&mut frames, idx(3)).is_none());
    assert!(InternalArc::<()>::assume_init(&mut frames, idx(4)).is_none());
    assert!(ExternalArc::<()>::assume_init(&mut frames, idx(2)).is_none());
    assert!(InternalArc::<()>::assume_init(&mut frames, idx(2)).is_some());
    assert!(ExternalArc::<()>::assume_init(&mut frames, idx(3)).is_some());
    assert!(NormalArc::new(&mut frames, idx(4), [0u8; 4096]).is_some());
}

#[test]
fn refcount_balance_through_clone_drop_and_raw() {
    let mut frames = frames_with_normal(20..21);
    let a = NormalArc::new(&mut frames, idx(20), [7u8; 4096]).unwrap();
    let b = a.clone(&mut frames);
    assert_eq!(frames.ref_count(idx(20)), 3);
    let raw = b.into_raw();
    assert_eq!(raw.into_raw(), 20);
    assert_eq!(frames.ref_count(idx(20)), 3);
    let b: NormalArc<[u8; 4096]> = NormalArc::from_raw(raw);
    assert!(b.drop(&mut frames).is_none());
    assert_eq!(frames.ref_count(idx(20)), 2);
    assert!(frames.object(idx(20)).is_some());
    let last = a.drop(&mut frames);
    assert!(matches!(last, Some(Object::Page(_))));
    assert_eq!(frames.ref_count(idx(20)), 0);
    assert!(frames.object(idx(20)).is_none());
    // The frame can be claimed again once it is unused.
    assert!(NormalArc::new(&mut frames, idx(20), [0u8; 4096]).is_some());
}

#[test]
fn frame_address_follows_mapping_base() {
    let mut frames = frames_with_normal(30..31);
    frames.set_frame_mapping_addr(0x1000_0000);
    let a = NormalArc::new(&mut frames, idx(30), [0u8; 4096]).unwrap();
    assert_eq!(a.addr(&frames), 0x1000_0000 + 30 * 0x1000);
}

#[test]
fn page_caps_claim_by_kind() {
    let mut frames = Frames::new();
    frames.mark_normal(idx(40));
    frames.mark_device(idx(41));
    let n = NormalPageCap::new(&mut frames, idx(40), [9u8; 4096]).unwrap();
    let i = InternalPageCap::assume_init(&mut frames, idx(42)).unwrap();
    let e = ExternalPageCap::assume_init(&mut frames, idx(41)).unwrap();
    assert!(InternalPageCap::assume_init(&mut frames, idx(40)).is_none());
    assert!(ExternalPageCap::assume_init(&mut frames, idx(41)).is_none());
    assert!(NormalPageCap::new(&mut frames, idx(40), [0u8; 4096]).is_none());
    assert_eq!(n.into_frame_number().into_raw(), 40);
    assert_eq!(i.into_frame_number().into_raw(), 42);
    assert_eq!(e.into_frame_number().into_raw(), 41);
}

#[test]
fn adopted_pages_hold_no_object() {
    // A page claimed by assume_init holds no kernel object.
    let mut frames = Frames::new();
    let _p = InternalPageCap::assume_init(&mut frames, idx(50)).unwrap();
    assert!(frames.object(idx(50)).is_none());
    assert_eq!(frames.ref_count(idx(50)), 2);
}

#[test]
fn maybe_dangling_alignment() {
    assert!(MaybeDangling::<u64>::new(0).is_none());
    assert!(MaybeDangling::<u64>::new(12).is_none());
    let p = MaybeDangling::<u64>::new(16).unwrap();
    assert_eq!(p.as_ptr(), 16);
    let q: MaybeDangling<u8> = p.cast();
    assert_eq!(q.as_ptr(), 16);
    assert_eq!(MaybeDangling::<u32>::dangling().as_ptr(), 4);
}

#[test]
fn frame_kind_bytes() {
    assert_eq!(FrameKind::try_from_raw(0), Some(FrameKind::Internal));
    assert_eq!(FrameKind::try_from_raw(1), Some(FrameKind::Normal));
    assert_eq!(FrameKind::try_from_raw(2), Some(FrameKind::External));
    assert_eq!(FrameKind::try_from_raw(3), None);
    for k in [FrameKind::Internal, FrameKind::Normal, FrameKind::External] {
        assert_eq!(FrameKind::try_from_raw(k.into_raw()), Some(k));
    }
}
