use kernel::frame::{Frames, Idx};
use kernel::table::{set_kernel_l1_table, L1TableCap, L2TableCap};
use kernel::thread::{CallCap, CallStack, Context, ThreadCap, MAX_DEPTH};

fn idx(i: usize) -> Idx {
    Idx::from_raw(i).unwrap()
}

/// A registry with a kernel L1 table in frame 1000 and frames 1001..1100 free.
fn setup() -> Frames {
    let mut frames = Frames::new();
    for i in 1000..1100 {
        frames.mark_normal(idx(i));
    }
    let k = L1TableCap::new(&mut frames, idx(1000)).unwrap();
    set_kernel_l1_table(&mut frames, k);
    frames
}

fn ctx(pc: usize, sp: usize) -> Context {
    let mut c = Context::default();
    c.pc = pc;
    c.sp = sp;
    c
}

#[test]
fn context_default_is_zero() {
    let c = Context::default();
    assert_eq!(c.pc, 0);
    assert_eq!(c.sp, 0);
    assert_eq!(c.a, [0; 8]);
    assert_eq!(c.s, [0; 12]);
    assert_eq!(c.t, [0; 7]);
}

#[test]
fn new_thread_is_parked() {
    let mut frames = setup();
    let l2 = L2TableCap::new(&mut frames, idx(1001)).unwrap();
    let t = ThreadCap::new(&mut frames, idx(1002), ctx(0x4000_0000, 0), l2).unwrap();
    let c = t.context(&frames).unwrap();
    assert_eq!(c.pc, 0x4000_0000);
    assert_eq!(t.l2_table(&frames).frame_number().into_raw(), 1001);
}

#[test]
fn failed_thread_creation_gives_back_table() {
    let mut frames = setup();
    let l2 = L2TableCap::new(&mut frames, idx(1001)).unwrap();
    let l2b = l2.clone(&mut frames);
    assert_eq!(frames.ref_count(idx(1001)), 3);
    // Frame 5 is internal, not free memory.
    assert!(ThreadCap::new(&mut frames, idx(5), Context::default(), l2b).is_none());
    assert_eq!(frames.ref_count(idx(1001)), 2);
    let l2c = l2.clone(&mut frames);
    assert!(CallCap::new(&mut frames, idx(5), 0, 0, l2c).is_none());
    assert_eq!(frames.ref_count(idx(1001)), 2);
}

#[test]
fn call_and_ret() {
    let mut frames = setup();
    let l2a = L2TableCap::new(&mut frames, idx(1001)).unwrap();
    let l2b = L2TableCap::new(&mut frames, idx(1002)).unwrap();
    let mut t = ThreadCap::new(&mut frames, idx(1003), ctx(0x10, 0x20), l2a).unwrap();
    let call = CallCap::new(&mut frames, idx(1004), 0x500, 0x600, l2b).unwrap();
    assert_eq!(t.call(&mut frames, &call), Some(()));
    let c = t.context(&frames).unwrap();
    assert_eq!((c.pc, c.sp), (0x500, 0x600));
    assert_eq!(t.l2_table(&frames).frame_number().into_raw(), 1002);
    assert_eq!(frames.ref_count(idx(1002)), 3);
    assert_eq!(t.ret(&mut frames), Some(()));
    let c = t.context(&frames).unwrap();
    assert_eq!((c.pc, c.sp), (0x10, 0x20));
    assert_eq!(t.l2_table(&frames).frame_number().into_raw(), 1001);
    assert_eq!(frames.ref_count(idx(1002)), 2);
    assert_eq!(frames.ref_count(idx(1001)), 2);
}

#[test]
fn call_stack_is_bounded() {
    let mut frames = setup();
    let l2a = L2TableCap::new(&mut frames, idx(1001)).unwrap();
    let l2b = L2TableCap::new(&mut frames, idx(1002)).unwrap();
    let mut t = ThreadCap::new(&mut frames, idx(1003), ctx(1, 2), l2a).unwrap();
    let call = CallCap::new(&mut frames, idx(1004), 3, 4, l2b).unwrap();
    assert_eq!(t.ret(&mut frames), None);
    for _ in 0..MAX_DEPTH {
        assert_eq!(t.call(&mut frames, &call), Some(()));
    }
    assert_eq!(t.call(&mut frames, &call), None);
    assert_eq!(frames.ref_count(idx(1002)), 2 + MAX_DEPTH as u32);
    for _ in 0..MAX_DEPTH {
        assert_eq!(t.ret(&mut frames), Some(()));
    }
    assert_eq!(t.ret(&mut frames), None);
    let c = t.context(&frames).unwrap();
    assert_eq!((c.pc, c.sp), (1, 2));
    assert_eq!(frames.ref_count(idx(1002)), 2);
}

#[test]
fn exception_call() {
    let mut frames = setup();
    let l2a = L2TableCap::new(&mut frames, idx(1001)).unwrap();
    let l2b = L2TableCap::new(&mut frames, idx(1002)).unwrap();
    let l2c = l2b.clone(&mut frames);
    let t = ThreadCap::new(&mut frames, idx(1003), ctx(1, 2), l2a).unwrap();
    assert_eq!(t.call_exception(&mut frames), None);
    let first = CallCap::new(&mut frames, idx(1004), 0x70, 0x80, l2b).unwrap();
    t.set_exception_call(&mut frames, first);
    let second = CallCap::new(&mut frames, idx(1005), 0x90, 0xa0, l2c).unwrap();
    t.set_exception_call(&mut frames, second);
    // The replaced call was the last handle to its frame and is freed.
    assert_eq!(frames.ref_count(idx(1004)), 0);
    assert!(frames.object(idx(1004)).is_none());
    assert_eq!(frames.ref_count(idx(1002)), 2);
    assert_eq!(t.call_exception(&mut frames), Some(()));
    let c = t.context(&frames).unwrap();
    assert_eq!((c.pc, c.sp), (0x90, 0xa0));
    assert_eq!(frames.ref_count(idx(1005)), 2);
}

#[test]
fn resume_round_trip() {
    let mut frames = setup();
    let l2 = L2TableCap::new(&mut frames, idx(1001)).unwrap();
    let mut start = ctx(0x4000_0000, 0x7000);
    start.a[0] = 5;
    let t = ThreadCap::new(&mut frames, idx(1002), start, l2).unwrap();
    let mut installed = None;
    let (mut running, satp) = t.resume(&mut frames, &mut installed).unwrap();
    assert_eq!(satp, 0x8000_0000_0000_0000 | 1001);
    assert_eq!((running.pc, running.sp, running.a[0]), (0x4000_0000, 0x7000, 5));
    assert!(t.context(&frames).is_none());
    // Running again while it runs fails and changes nothing.
    assert!(t.resume(&mut frames, &mut installed).is_none());
    assert!(t.call_exception(&mut frames).is_none());
    running.a[0] = 9;
    t.park(&mut frames, running);
    let c = t.context(&frames).unwrap();
    assert_eq!((c.pc, c.sp, c.a[0]), (0x4000_0000, 0x7000, 9));
    assert_eq!(frames.ref_count(idx(1001)), 3);
    // Resuming again gives back the handle installed before.
    let _ = t.resume(&mut frames, &mut installed).unwrap();
    assert_eq!(frames.ref_count(idx(1001)), 3);
}

#[test]
fn set_context_only_while_parked() {
    let mut frames = setup();
    let l2 = L2TableCap::new(&mut frames, idx(1001)).unwrap();
    let t = ThreadCap::new(&mut frames, idx(1002), ctx(1, 1), l2).unwrap();
    assert_eq!(t.set_context(&mut frames, ctx(8, 9)), Some(()));
    assert_eq!(t.context(&frames).unwrap().pc, 8);
    let mut installed = None;
    let _ = t.resume(&mut frames, &mut installed).unwrap();
    assert_eq!(t.set_context(&mut frames, ctx(3, 3)), None);
}

#[test]
fn empty_call_stack_pops_nothing() {
    let mut stack = CallStack::empty();
    assert_eq!(stack.depth(), 0);
    assert!(stack.pop().is_none());
    assert_eq!(stack.depth(), 0);
}
