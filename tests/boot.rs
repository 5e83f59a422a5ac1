use kernel::abi::{be_bytes, be_word, pack_message, PAD};
use kernel::boot::{
    dispatch, handle_trap, kernel_addr, kernel_frame, map_kernel_image, map_user_image, page_bytes,
    section_permissions, BootAlloc, Section, TrapAction, KERNELMODE_BASE_ADDR, USERMODE_BASE_ADDR,
};
use kernel::frame::{Frames, Idx, Object};
use kernel::machine::FRAME_COUNT;
use kernel::table::{set_kernel_l1_table, L1TableCap, L2TableCap, Permissions};
use kernel::thread::{Context, ThreadCap};

fn idx(i: usize) -> Idx {
    Idx::from_raw(i).unwrap()
}

#[test]
fn boot_alloc_hands_out_frames_top_down() {
    let mut a = BootAlloc::new(10, 13);
    assert_eq!(a.len(), 3);
    assert_eq!(a.alloc_frame().unwrap().into_raw(), 12);
    assert_eq!(a.alloc_frame().unwrap().into_raw(), 11);
    assert_eq!(a.len(), 1);
    assert_eq!(a.alloc_frame().unwrap().into_raw(), 10);
    assert_eq!(a.len(), 0);
    assert!(a.alloc_frame().is_none());
    assert_eq!(a.len(), 0);
}

#[test]
fn boot_alloc_top_of_memory() {
    let mut a = BootAlloc::new(FRAME_COUNT - 1, FRAME_COUNT + 1);
    assert!(a.alloc_frame().is_none());
    assert_eq!(a.len(), 2);
    let mut b = BootAlloc::new(0, FRAME_COUNT);
    assert_eq!(b.alloc_frame().unwrap().into_raw(), FRAME_COUNT - 1);
    assert_eq!(b.len(), FRAME_COUNT - 1);
}

#[test]
fn first_section_wins() {
    let layout = [
        Section { name: "text", start: 0x1000, end: 0x3000, permissions: Permissions::ExecuteOnly },
        Section { name: "static", start: 0x2000, end: 0x5000, permissions: Permissions::ReadWrite },
    ];
    assert_eq!(section_permissions(&layout, 0x0fff), None);
    assert_eq!(section_permissions(&layout, 0x1000), Some(Permissions::ExecuteOnly));
    assert_eq!(section_permissions(&layout, 0x2fff), Some(Permissions::ExecuteOnly));
    assert_eq!(section_permissions(&layout, 0x3000), Some(Permissions::ReadWrite));
    assert_eq!(section_permissions(&layout, 0x5000), None);
    assert_eq!(section_permissions(&[], 0x1000), None);
}

#[test]
fn kernel_window_addresses() {
    assert_eq!(kernel_addr(0, 0), KERNELMODE_BASE_ADDR);
    assert_eq!(kernel_addr(1, 2), KERNELMODE_BASE_ADDR + 0x20_0000 + 0x2000);
    assert_eq!(kernel_addr(511, 511), 0xffff_ffff_ffff_f000);
    assert_eq!(kernel_frame(0, 0), 0x80000);
    assert_eq!(kernel_frame(1, 3), 0x80000 + 512 + 3);
}

#[test]
fn hello_world_words() {
    let words = pack_message(b"Hello, world!");
    assert_eq!(words.len(), 2);
    assert_eq!(&be_bytes(words[0]), b"Hello, w");
    assert_eq!(&be_bytes(words[1]), b"orld!   ");
    assert_eq!(words[0], u64::from_be_bytes(*b"Hello, w"));
    assert_eq!(be_bytes(0x0102_0304_0506_0708), [1, 2, 3, 4, 5, 6, 7, 8]);
    assert_eq!(be_word([1, 2, 3, 4, 5, 6, 7, 8]), 0x0102_0304_0506_0708);
    assert_eq!(be_bytes(be_word(*b"abcdefgh")), *b"abcdefgh");
    assert_eq!(PAD, b' ');
}

#[test]
fn pack_message_edges() {
    assert!(pack_message(b"").is_empty());
    assert_eq!(pack_message(b"12345678"), vec![u64::from_be_bytes(*b"12345678")]);
    assert_eq!(
        pack_message(b"123456789"),
        vec![u64::from_be_bytes(*b"12345678"), u64::from_be_bytes(*b"9       ")]
    );
}

fn ecall(a0: usize, a1: usize) -> Context {
    let mut c = Context::default();
    c.pc = 0x4000_0010;
    c.a[0] = a0;
    c.a[1] = a1;
    c
}

#[test]
fn dispatch_by_cause_and_syscall() {
    assert!(matches!(dispatch(8, &ecall(0, 0)), TrapAction::Shutdown));
    assert!(matches!(dispatch(8, &ecall(1, 0x41)), TrapAction::Print(0x41)));
    assert!(matches!(dispatch(8, &ecall(0x42, 0)), TrapAction::UnknownSyscall(c) if c.a[0] == 0x42));
    assert!(matches!(dispatch(2, &ecall(0, 0)), TrapAction::Fatal(c) if c.pc == 0x4000_0010));
}

fn setup_thread(start: Context) -> (Frames, ThreadCap) {
    let mut frames = Frames::new();
    for i in 2000..2010 {
        frames.mark_normal(idx(i));
    }
    let k = L1TableCap::new(&mut frames, idx(2000)).unwrap();
    set_kernel_l1_table(&mut frames, k);
    let l2 = L2TableCap::new(&mut frames, idx(2001)).unwrap();
    let t = ThreadCap::new(&mut frames, idx(2002), start, l2).unwrap();
    (frames, t)
}

#[test]
fn hello_world_session() {
    let mut start = Context::default();
    start.pc = USERMODE_BASE_ADDR;
    let (mut frames, t) = setup_thread(start);
    let mut installed = None;
    let mut printed = Vec::new();
    let words = pack_message(b"Hello, world!");
    let mut calls: Vec<(usize, usize)> = words.iter().map(|w| (1usize, *w as usize)).collect();
    calls.push((0, 0));
    let mut shut_down = false;
    for (a0, a1) in calls {
        let (mut running, _) = t.resume(&mut frames, &mut installed).unwrap();
        // The user program's ecall leaves its arguments in a0 and a1.
        running.a[0] = a0;
        running.a[1] = a1;
        t.park(&mut frames, running);
        let pc = t.context(&frames).unwrap().pc;
        match handle_trap(&t, &mut frames, 8).unwrap() {
            TrapAction::Print(w) => printed.push(be_bytes(w)),
            TrapAction::Shutdown => shut_down = true,
            _ => panic!("unexpected action"),
        }
        assert_eq!(t.context(&frames).unwrap().pc, pc + 4);
    }
    assert_eq!(printed, vec![*b"Hello, w", *b"orld!   "]);
    assert!(shut_down);
    assert_eq!(t.context(&frames).unwrap().pc, USERMODE_BASE_ADDR + 12);
}

#[test]
fn unknown_syscall_logs_and_advances() {
    let mut start = ecall(0x42, 0);
    start.pc = 0x4000_0000;
    let (mut frames, t) = setup_thread(start);
    match handle_trap(&t, &mut frames, 8).unwrap() {
        TrapAction::UnknownSyscall(c) => assert_eq!(c.a[0], 0x42),
        _ => panic!("unexpected action"),
    }
    assert_eq!(t.context(&frames).unwrap().pc, 0x4000_0004);
}

#[test]
fn other_trap_is_fatal_and_changes_nothing() {
    let mut start = ecall(1, 0);
    start.pc = 0x4000_0000;
    let (mut frames, t) = setup_thread(start);
    match handle_trap(&t, &mut frames, 2).unwrap() {
        TrapAction::Fatal(c) => assert_eq!(c.pc, 0x4000_0000),
        _ => panic!("unexpected action"),
    }
    assert_eq!(t.context(&frames).unwrap().pc, 0x4000_0000);
}

#[test]
fn trap_of_running_thread_is_refused() {
    let (mut frames, t) = setup_thread(Context::default());
    let mut installed = None;
    let _ = t.resume(&mut frames, &mut installed).unwrap();
    assert!(handle_trap(&t, &mut frames, 8).is_none());
}

fn l1_bits(frames: &Frames, i: usize) -> Vec<u64> {
    match frames.object(idx(i)) {
        Some(Object::L1Table(e)) => e.iter().map(|e| e.bits()).collect(),
        _ => panic!("not an L1 table"),
    }
}

fn l0_bits(frames: &Frames, i: usize) -> Vec<u64> {
    match frames.object(idx(i)) {
        Some(Object::L0Table(e)) => e.iter().map(|e| e.bits()).collect(),
        _ => panic!("not an L0 table"),
    }
}

fn l2_bits(frames: &Frames, i: usize) -> Vec<u64> {
    match frames.object(idx(i)) {
        Some(Object::L2Table(e)) => e.iter().map(|e| e.bits()).collect(),
        _ => panic!("not an L2 table"),
    }
}

const FREE: usize = 0x10_0000;

fn free_frames(n: usize) -> (Frames, BootAlloc) {
    let mut frames = Frames::new();
    for i in FREE..FREE + n {
        frames.mark_normal(idx(i));
    }
    (frames, BootAlloc::new(FREE, FREE + n))
}

#[test]
fn kernel_image_mapping() {
    let (mut frames, mut alloc) = free_frames(600);
    let base = KERNELMODE_BASE_ADDR;
    let layout = [
        Section { name: "entry", start: base, end: base + 0x1000, permissions: Permissions::ExecuteOnly },
        Section { name: "text", start: base + 0x1000, end: base + 0x3000, permissions: Permissions::ReadExecute },
        Section {
            name: "static",
            start: base + 0x20_0000,
            end: base + 0x20_1000,
            permissions: Permissions::ReadWrite,
        },
    ];
    let l1 = map_kernel_image(&mut frames, &mut alloc, &layout).unwrap();
    assert_eq!(l1.into_frame_number().into_raw(), FREE + 599);
    assert_eq!(alloc.len(), 600 - 513);
    let l1 = l1_bits(&frames, FREE + 599);
    assert_eq!(l1[0], 0x1 | ((FREE as u64 + 598) << 10));
    assert_eq!(l1[511], 0x1 | ((FREE as u64 + 87) << 10));
    let first = l0_bits(&frames, FREE + 598);
    assert_eq!(first[0], 0x1 | 0x8 | 0x20 | 0xc0 | (0x80000 << 10));
    assert_eq!(first[1], 0x1 | 0xa | 0x20 | 0xc0 | (0x80001 << 10));
    assert_eq!(first[2], 0x1 | 0xa | 0x20 | 0xc0 | (0x80002 << 10));
    assert_eq!(first[3], 0);
    let second = l0_bits(&frames, FREE + 597);
    assert_eq!(second[0], 0x1 | 0x6 | 0x20 | 0xc0 | ((0x80000 + 512) << 10));
    assert_eq!(second[1], 0);
    // The kernel pages are adopted, so the frames are taken.
    assert_eq!(frames.ref_count(idx(0x80000)), 2);
    assert_eq!(frames.ref_count(idx(0x80003)), 0);
}

#[test]
fn kernel_image_mapping_runs_out_of_frames() {
    let (mut frames, mut alloc) = free_frames(100);
    assert!(map_kernel_image(&mut frames, &mut alloc, &[]).is_none());
}

#[test]
fn user_image_mapping() {
    let (mut frames, mut alloc) = free_frames(10);
    frames.mark_normal(idx(3000));
    let k = L1TableCap::new(&mut frames, idx(3000)).unwrap();
    set_kernel_l1_table(&mut frames, k);
    let image: Vec<u8> = (0..5000u32).map(|i| (i % 251) as u8).collect();
    let l2 = map_user_image(&mut frames, &mut alloc, &image).unwrap();
    assert_eq!(l2.frame_number().into_raw(), FREE + 9);
    let l2 = l2_bits(&frames, FREE + 9);
    assert_eq!(l2[0], 0);
    assert_eq!(l2[1], 0x1 | ((FREE as u64 + 8) << 10));
    assert_eq!(l2[2], 0);
    assert_eq!(l2[511], 0x1 | 0x20 | (3000 << 10));
    let l1 = l1_bits(&frames, FREE + 8);
    assert_eq!(l1[0], 0x1 | ((FREE as u64 + 7) << 10));
    assert_eq!(l1[1], 0);
    let l0 = l0_bits(&frames, FREE + 7);
    assert_eq!(l0[0], 0x1 | 0xe | 0x10 | 0xc0 | ((FREE as u64 + 6) << 10));
    assert_eq!(l0[1], 0x1 | 0xe | 0x10 | 0xc0 | ((FREE as u64 + 5) << 10));
    assert_eq!(l0[2], 0);
    match frames.object(idx(FREE + 5)) {
        Some(Object::Page(bytes)) => {
            assert_eq!(bytes[0], (4096 % 251) as u8);
            assert_eq!(bytes[903], (4999 % 251) as u8);
            assert_eq!(bytes[904], 0);
        }
        _ => panic!("not a page"),
    }
    assert_eq!(alloc.len(), 5);
}

#[test]
fn page_bytes_pads_with_zero() {
    let image = [1u8, 2, 3];
    let p = page_bytes(&image, 1);
    assert_eq!(&p[..3], &[2, 3, 0]);
    assert!(p.iter().skip(2).all(|b| *b == 0));
    let q = page_bytes(&image, 7);
    assert!(q.iter().all(|b| *b == 0));
}

#[test]
fn user_image_needs_exactly_its_frames() {
    // 5000 bytes: two pages, one L0 table, one L1 table and the L2 table.
    let image = vec![7u8; 5000];
    let (mut frames, mut alloc) = free_frames(5);
    frames.mark_normal(idx(3000));
    let k = L1TableCap::new(&mut frames, idx(3000)).unwrap();
    set_kernel_l1_table(&mut frames, k);
    assert!(map_user_image(&mut frames, &mut alloc, &image).is_some());
    assert_eq!(alloc.len(), 0);

    let (mut frames, mut alloc) = free_frames(4);
    frames.mark_normal(idx(3000));
    let k = L1TableCap::new(&mut frames, idx(3000)).unwrap();
    set_kernel_l1_table(&mut frames, k);
    assert!(map_user_image(&mut frames, &mut alloc, &image).is_none());
}

#[test]
fn kernel_image_needs_exactly_its_frames() {
    let (mut frames, mut alloc) = free_frames(513);
    assert!(map_kernel_image(&mut frames, &mut alloc, &[]).is_some());
    assert_eq!(alloc.len(), 0);
    let (mut frames, mut alloc) = free_frames(512);
    assert!(map_kernel_image(&mut frames, &mut alloc, &[]).is_none());
}
