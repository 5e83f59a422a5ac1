use kernel::frame::{Frames, Idx, Object};
use kernel::page::{InternalPageCap, L0PageCap, NormalPageCap};
use kernel::table::{
    boot_l2_table, set_kernel_l1_table, Cap, L0Entry, L0TableCap, L1Entry, L1TableCap, L2Entry,
    L2TableCap, Permissions,
};
use kernel::thread::{CallCap, Context, ThreadCap};

fn idx(i: usize) -> Idx {
    Idx::from_raw(i).unwrap()
}

fn frames_with_normal(range: std::ops::Range<usize>) -> Frames {
    let mut frames = Frames::new();
    for i in range {
        frames.mark_normal(idx(i));
    }
    frames
}

fn l2_bits(frames: &Frames, i: usize) -> Vec<u64> {
    match frames.object(idx(i)) {
        Some(Object::L2Table(e)) => e.iter().map(|e| e.bits()).collect(),
        _ => panic!("not an L2 table"),
    }
}

fn l1_bits(frames: &Frames, i: usize) -> Vec<u64> {
    match frames.object(idx(i)) {
        Some(Object::L1Table(e)) => e.iter().map(|e| e.bits()).collect(),
        _ => panic!("not an L1 table"),
    }
}

fn l0_bits(frames: &Frames, i: usize) -> Vec<u64> {
    match frames.object(idx(i)) {
        Some(Object::L0Table(e)) => e.iter().map(|e| e.bits()).collect(),
        _ => panic!("not an L0 table"),
    }
}

#[test]
fn permission_bits() {
    assert_eq!(Permissions::ReadOnly.bits(), 0b0010);
    assert_eq!(Permissions::ReadWrite.bits(), 0b0110);
    assert_eq!(Permissions::ExecuteOnly.bits(), 0b1000);
    assert_eq!(Permissions::ReadExecute.bits(), 0b1010);
    assert_eq!(Permissions::ReadWriteExecute.bits(), 0b1110);
}

#[test]
fn entry_encodings() {
    assert_eq!(L2Entry::invalid().bits(), 0);
    assert_eq!(L1Entry::invalid().bits(), 0);
    assert_eq!(L0Entry::invalid().bits(), 0);
    // Region 3 read-write: valid, R, W, global, accessed, dirty, ppn 3 << 18.
    assert_eq!(L2Entry::kernel(3, Permissions::ReadWrite).bits(), 0xe7 | ((3u64 << 18) << 10));
    assert_eq!(L2Entry::kernel(2, Permissions::ReadWriteExecute).bits(), 0xef | (0x80000u64 << 10));
    assert_eq!(L0Entry::cap(idx(0x1234), 6).bits(), 0x2 | (6 << 2) | (0x1234 << 10));
}

#[test]
fn leaf_entries_set_user_or_global() {
    let mut frames = frames_with_normal(100..102);
    let p = NormalPageCap::new(&mut frames, idx(100), [0u8; 4096]).unwrap();
    let e = L0Entry::leaf(L0PageCap::Normal(p), Permissions::ReadExecute);
    assert_eq!(e.bits(), 0x1 | 0xa | 0x10 | 0x40 | 0x80 | (100 << 10));
    let k = InternalPageCap::assume_init(&mut frames, idx(7)).unwrap();
    let e = L0Entry::kernel_leaf(L0PageCap::Internal(k), Permissions::ExecuteOnly);
    assert_eq!(e.bits(), 0x1 | 0x8 | 0x20 | 0x40 | 0x80 | (7 << 10));
}

#[test]
fn boot_template_layout() {
    let t = boot_l2_table();
    assert_eq!(t.len(), 512);
    for i in 0..256 {
        assert_eq!(t[i].bits(), 0);
    }
    for i in 256..511 {
        assert_eq!(t[i].bits(), L2Entry::kernel(i - 256, Permissions::ReadWrite).bits());
    }
    assert_eq!(t[511].bits(), L2Entry::kernel(2, Permissions::ReadWriteExecute).bits());
}

#[test]
fn user_l2_starts_from_template_and_shares_kernel_l1() {
    let mut frames = frames_with_normal(200..210);
    let k = L1TableCap::new(&mut frames, idx(200)).unwrap();
    set_kernel_l1_table(&mut frames, k);
    assert_eq!(frames.ref_count(idx(200)), 2);
    let l2 = L2TableCap::new(&mut frames, idx(201)).unwrap();
    assert_eq!(frames.ref_count(idx(200)), 3);
    let bits = l2_bits(&frames, 201);
    let template = boot_l2_table();
    for i in 0..256 {
        assert_eq!(bits[i], 0);
    }
    for i in 256..511 {
        assert_eq!(bits[i], template[i].bits());
    }
    assert_eq!(bits[511], 0x1 | 0x20 | (200 << 10));
    assert_eq!(bits[511] & 0xe, 0);
    assert_eq!((bits[511] >> 10) & 0xfff_ffff_ffff, 200);
    // The frame is now taken.
    assert!(L2TableCap::new(&mut frames, idx(201)).is_none());
    assert_eq!(frames.ref_count(idx(200)), 3);
    let _ = l2;
}

#[test]
fn mapping_writes_entries() {
    let mut frames = frames_with_normal(300..310);
    let k = L1TableCap::new(&mut frames, idx(300)).unwrap();
    set_kernel_l1_table(&mut frames, k);
    let l2 = L2TableCap::new(&mut frames, idx(301)).unwrap();
    let l1 = L1TableCap::new(&mut frames, idx(302)).unwrap();
    let l0 = L0TableCap::new(&mut frames, idx(303)).unwrap();
    let page = NormalPageCap::new(&mut frames, idx(304), [0xaa; 4096]).unwrap();
    l0.map_l0_page(&mut frames, 5, L0PageCap::Normal(page), Permissions::ReadWriteExecute);
    assert_eq!(l0_bits(&frames, 303)[5], 0x1 | 0xe | 0x10 | 0xc0 | (304 << 10));
    l1.map_l0_table(&mut frames, 9, l0);
    assert_eq!(l1_bits(&frames, 302)[9], 0x1 | (303 << 10));
    l2.map_l1_table(&mut frames, 1, l1);
    assert_eq!(l2_bits(&frames, 301)[1], 0x1 | (302 << 10));
    // Handles moved into entries keep their counts.
    assert_eq!(frames.ref_count(idx(302)), 2);
    assert_eq!(frames.ref_count(idx(303)), 2);
    assert_eq!(frames.ref_count(idx(304)), 2);
}

#[test]
fn kernel_mappings_set_global() {
    let mut frames = frames_with_normal(400..403);
    let l1 = L1TableCap::new(&mut frames, idx(400)).unwrap();
    let l0 = L0TableCap::new(&mut frames, idx(401)).unwrap();
    let page = InternalPageCap::assume_init(&mut frames, idx(8)).unwrap();
    l0.map_l0_kernel_page(&mut frames, 511, L0PageCap::Internal(page), Permissions::ReadOnly);
    assert_eq!(l0_bits(&frames, 401)[511], 0x1 | 0x2 | 0x20 | 0xc0 | (8 << 10));
    l1.map_l0_kernel_table(&mut frames, 0, l0);
    assert_eq!(l1_bits(&frames, 400)[0], 0x1 | 0x20 | (401 << 10));
}

fn decode(bits: u64) -> (u64, u8) {
    assert_eq!(bits & 0x3, 0x2);
    (bits >> 10, ((bits >> 2) & 0xff) as u8)
}

#[test]
fn capability_entries_round_trip_for_every_kind() {
    let mut frames = frames_with_normal(600..620);
    let k = L1TableCap::new(&mut frames, idx(600)).unwrap();
    set_kernel_l1_table(&mut frames, k);
    let holder = L0TableCap::new(&mut frames, idx(601)).unwrap();
    let l2 = L2TableCap::new(&mut frames, idx(602)).unwrap();
    let l1 = L1TableCap::new(&mut frames, idx(603)).unwrap();
    let l0 = L0TableCap::new(&mut frames, idx(604)).unwrap();
    let page = NormalPageCap::new(&mut frames, idx(605), [0u8; 4096]).unwrap();
    let l2b = L2TableCap::new(&mut frames, idx(606)).unwrap();
    let thread = ThreadCap::new(&mut frames, idx(607), Context::default(), l2b).unwrap();
    let l2c = L2TableCap::new(&mut frames, idx(608)).unwrap();
    let call = CallCap::new(&mut frames, idx(609), 0x100, 0x200, l2c).unwrap();
    let caps = vec![
        (Cap::L2Table(l2), 602u64, 0u8),
        (Cap::L1Table(l1), 603, 1),
        (Cap::L0Table(l0), 604, 2),
        (Cap::L0Page(L0PageCap::Normal(page)), 605, 5),
        (Cap::Thread(thread), 607, 6),
        (Cap::Call(call), 609, 7),
    ];
    for (slot, (cap, frame, tag)) in caps.into_iter().enumerate() {
        holder.give_capability(&mut frames, slot, cap);
        let bits = l0_bits(&frames, 601)[slot];
        assert_eq!(bits & 1, 0);
        assert_eq!(decode(bits), (frame, tag));
    }
    match frames.object(idx(601)) {
        Some(Object::L0Table(e)) => {
            assert_eq!(e[4].capability(), Some((607, 6)));
            assert_eq!(e[10].capability(), None);
        }
        _ => panic!("not an L0 table"),
    }
}

#[test]
fn activate_gives_back_previous_table() {
    let mut frames = frames_with_normal(700..705);
    let k = L1TableCap::new(&mut frames, idx(700)).unwrap();
    set_kernel_l1_table(&mut frames, k);
    let a = L2TableCap::new(&mut frames, idx(701)).unwrap();
    let b = L2TableCap::new(&mut frames, idx(702)).unwrap();
    let mut installed = None;
    let a2 = a.clone(&mut frames);
    let satp = a2.activate(&mut frames, &mut installed);
    assert_eq!(satp, 0x8000_0000_0000_0000 | 701);
    assert_eq!(frames.ref_count(idx(701)), 3);
    let satp = b.activate(&mut frames, &mut installed);
    assert_eq!(satp, 0x8000_0000_0000_0000 | 702);
    assert_eq!(frames.ref_count(idx(701)), 2);
    assert_eq!(frames.ref_count(idx(702)), 2);
    a.drop(&mut frames);
    assert_eq!(frames.ref_count(idx(701)), 0);
    assert!(frames.object(idx(701)).is_none());
    // The kernel L1 table keeps one handle per user L2 that was ever made.
    assert_eq!(frames.ref_count(idx(700)), 4);
}

#[test]
fn replacing_kernel_l1_gives_back_old_one() {
    let mut frames = frames_with_normal(800..802);
    let a = L1TableCap::new(&mut frames, idx(800)).unwrap();
    let b = L1TableCap::new(&mut frames, idx(801)).unwrap();
    set_kernel_l1_table(&mut frames, a);
    set_kernel_l1_table(&mut frames, b);
    assert_eq!(frames.ref_count(idx(800)), 0);
    assert_eq!(frames.ref_count(idx(801)), 2);
    assert!(frames.kernel_l1_table().is_some());
}

#[test]
fn huge_kernel_entry_keeps_high_frame_numbers() {
    let n: usize = 1 << 14;
    assert_eq!(
        L2Entry::kernel(n, Permissions::ReadWrite).bits(),
        0xe1 | 0x6 | ((n as u64) << 28)
    );
}
