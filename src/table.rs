//! Sv39 page tables as capabilities: entry encodings, the boot L2 template
//! and the operations that compose tables into address spaces.

use vstd::prelude::*;
use crate::frame::{lemma_put_after_take, Frames, FramesView, FrameKind, Idx, NormalArc, Object, ObjectView, entry_bits};
use crate::machine::{FRAME_COUNT, TABLE_LEN};
use crate::page::L0PageCap;
use crate::thread::{CallCap, ThreadCap};

verus! {

pub const VALID: u64 = 0x1;
pub const CAP: u64 = 0x2;
pub const READ: u64 = 0x2;
pub const WRITE: u64 = 0x4;
pub const EXECUTE: u64 = 0x8;
pub const USER: u64 = 0x10;
pub const GLOBAL: u64 = 0x20;
pub const ACCESSED: u64 = 0x40;
pub const DIRTY: u64 = 0x80;
/// The 44 bits of a physical page number.
pub const PPN_MASK: u64 = 0xfff_ffff_ffff;
/// The mode field of `satp` that selects Sv39 translation.
pub const SATP_MODE_SV39: u64 = 0x8000_0000_0000_0000;

/// The permission sets a mapping can carry; others are not representable.
#[derive(Clone, Copy, Debug, PartialEq, Eq, Structural)]
pub enum Permissions {
    ReadOnly,
    ReadWrite,
    ExecuteOnly,
    ReadExecute,
    ReadWriteExecute,
}

impl Permissions {
    /// Bits 1 to 3 of an entry: read, write, execute.
    pub open spec fn spec_bits(self) -> u64 {
        match self {
            Permissions::ReadOnly => READ,
            Permissions::ReadWrite => READ | WRITE,
            Permissions::ExecuteOnly => EXECUTE,
            Permissions::ReadExecute => READ | EXECUTE,
            Permissions::ReadWriteExecute => READ | WRITE | EXECUTE,
        }
    }

    pub fn bits(&self) -> (r: u64)
        ensures
            r == self.spec_bits(),
    {
        match self {
            Permissions::ReadOnly => READ,
            Permissions::ReadWrite => READ | WRITE,
            Permissions::ExecuteOnly => EXECUTE,
            Permissions::ReadExecute => READ | EXECUTE,
            Permissions::ReadWriteExecute => READ | WRITE | EXECUTE,
        }
    }
}

/// The physical page number field, bits 10 to 53.
pub open spec fn ppn_field(frame: u64) -> u64 {
    (frame & PPN_MASK) << 10u64
}

/// A leaf mapping of `frame` with the given permission bits and user or global flag.
pub open spec fn leaf_bits(frame: u64, perms: Permissions, flag: u64) -> u64 {
    VALID | perms.spec_bits() | flag | ACCESSED | DIRTY | ppn_field(frame)
}

/// The frame number of the 1 GiB region an L2 leaf maps.
pub open spec fn huge_frame(l2_frame_number: usize) -> u64 {
    (l2_frame_number as u64) << 18u64
}

/// A kernel 1 GiB mapping in an L2 table.
pub open spec fn kernel_huge_bits(l2_frame_number: usize, perms: Permissions) -> u64 {
    leaf_bits(huge_frame(l2_frame_number), perms, GLOBAL)
}

/// An interior entry reachable from user mode.
pub open spec fn interior_bits(frame: u64) -> u64 {
    VALID | ppn_field(frame)
}

/// An interior entry of the kernel half, present in every address space.
pub open spec fn kernel_interior_bits(frame: u64) -> u64 {
    VALID | GLOBAL | ppn_field(frame)
}

/// A capability entry: not present, the capability bit, the kind tag in bits
/// 2 to 9 and the frame index from bit 10 up.
pub open spec fn cap_bits(frame: u64, tag: u8) -> u64 {
    CAP | ((tag as u64) << 2u64) | (frame << 10u64)
}

/// Entry `i` of the boot L2 template: the low half unmapped, the high half a
/// read-write window onto physical memory, and the last entry the kernel
/// image with every permission.
pub open spec fn boot_l2_bits(i: int) -> u64 {
    if i < 256 {
        0
    } else if i < 511 {
        kernel_huge_bits((i - 256) as usize, Permissions::ReadWrite)
    } else {
        kernel_huge_bits(2, Permissions::ReadWriteExecute)
    }
}

/// The entries of a fresh user L2 table: the boot template with its last
/// entry pointing at the kernel L1 table in frame `kernel_l1`.
pub open spec fn user_l2_bits(kernel_l1: nat) -> Seq<u64> {
    Seq::new(TABLE_LEN as nat, |i: int| boot_l2_bits(i)).update(
        511,
        kernel_interior_bits(kernel_l1 as u64),
    )
}

/// An entry of an L2 table.
pub struct L2Entry(u64);

/// An entry of an L1 table.
pub struct L1Entry(u64);

/// An entry of an L0 table.
pub struct L0Entry(u64);

impl View for L2Entry {
    type V = u64;

    closed spec fn view(&self) -> u64 {
        self.0
    }
}

impl View for L1Entry {
    type V = u64;

    closed spec fn view(&self) -> u64 {
        self.0
    }
}

impl View for L0Entry {
    type V = u64;

    closed spec fn view(&self) -> u64 {
        self.0
    }
}

impl L2Entry {
    /// A global leaf mapping the 1 GiB region `l2_frame_number` for the kernel.
    pub fn kernel(l2_frame_number: usize, permissions: Permissions) -> (r: Self)
        ensures
            r@ == kernel_huge_bits(l2_frame_number, permissions),
    {
        let frame_number = (l2_frame_number as u64) << 18u64;
        let ppn = (frame_number & PPN_MASK) << 10u64;
        L2Entry(VALID | permissions.bits() | GLOBAL | ACCESSED | DIRTY | ppn)
    }

    /// An interior entry pointing at `l1_table`, whose handle it keeps.
    pub fn interior(l1_table: L1TableCap) -> (r: Self)
        ensures
            r@ == interior_bits(l1_table@ as u64),
    {
        let frame_number = l1_table.into_frame_number().into_raw() as u64;
        L2Entry(VALID | ((frame_number & PPN_MASK) << 10u64))
    }

    /// A global interior entry pointing at `l1_table`, whose handle it keeps.
    pub fn kernel_interior(l1_table: L1TableCap) -> (r: Self)
        ensures
            r@ == kernel_interior_bits(l1_table@ as u64),
    {
        let frame_number = l1_table.into_frame_number().into_raw() as u64;
        L2Entry(VALID | GLOBAL | ((frame_number & PPN_MASK) << 10u64))
    }

    pub fn invalid() -> (r: Self)
        ensures
            r@ == 0,
    {
        L2Entry(0)
    }

    /// The raw bits.
    pub fn bits(&self) -> (r: u64)
        ensures
            r == self@,
    {
        self.0
    }
}

impl L1Entry {
    /// An interior entry pointing at `l0_table`, whose handle it keeps.
    pub fn interior(l0_table: L0TableCap) -> (r: Self)
        ensures
            r@ == interior_bits(l0_table@ as u64),
    {
        let frame_number = l0_table.into_frame_number().into_raw() as u64;
        L1Entry(VALID | ((frame_number & PPN_MASK) << 10u64))
    }

    /// A global interior entry pointing at `l0_table`, whose handle it keeps.
    pub fn kernel_interior(l0_table: L0TableCap) -> (r: Self)
        ensures
            r@ == kernel_interior_bits(l0_table@ as u64),
    {
        let frame_number = l0_table.into_frame_number().into_raw() as u64;
        L1Entry(VALID | GLOBAL | ((frame_number & PPN_MASK) << 10u64))
    }

    pub fn invalid() -> (r: Self)
        ensures
            r@ == 0,
    {
        L1Entry(0)
    }

    /// The raw bits.
    pub fn bits(&self) -> (r: u64)
        ensures
            r == self@,
    {
        self.0
    }
}

impl L0Entry {
    /// A user leaf mapping `l0_page`, whose handle it keeps.
    pub fn leaf(l0_page: L0PageCap, permissions: Permissions) -> (r: Self)
        ensures
            r@ == leaf_bits(l0_page@ as u64, permissions, USER),
    {
        let frame_number = l0_page.into_frame_number().into_raw() as u64;
        let ppn = (frame_number & PPN_MASK) << 10u64;
        L0Entry(VALID | permissions.bits() | USER | ACCESSED | DIRTY | ppn)
    }

    /// A global kernel leaf mapping `l0_page`, whose handle it keeps.
    pub fn kernel_leaf(l0_page: L0PageCap, permissions: Permissions) -> (r: Self)
        ensures
            r@ == leaf_bits(l0_page@ as u64, permissions, GLOBAL),
    {
        let frame_number = l0_page.into_frame_number().into_raw() as u64;
        let ppn = (frame_number & PPN_MASK) << 10u64;
        L0Entry(VALID | permissions.bits() | GLOBAL | ACCESSED | DIRTY | ppn)
    }

    pub fn invalid() -> (r: Self)
        ensures
            r@ == 0,
    {
        L0Entry(0)
    }

    /// The frame index and kind tag of a capability entry, or `None` when
    /// this is not one.
    pub fn capability(&self) -> (r: Option<(u64, u8)>)
        ensures
            r is Some <==> self@ & 0x3 == CAP,
            r matches Some((frame, tag)) ==> frame == self@ >> 10u64 && tag == ((self@ >> 2u64)
                & 0xff) as u8,
    {
        if self.0 & 0x3 != CAP {
            return None;
        }
        Some((self.0 >> 10u64, ((self.0 >> 2u64) & 0xff) as u8))
    }

    /// A capability entry for the object in `frame_number` of kind `tag`.
    pub fn cap(frame_number: Idx, tag: u8) -> (r: Self)
        ensures
            r@ == cap_bits(frame_number@ as u64, tag),
    {
        let tag = (tag as u64) << 2u64;
        let frame_number = (frame_number.into_raw() as u64) << 10u64;
        L0Entry(CAP | tag | frame_number)
    }

    /// The raw bits.
    pub fn bits(&self) -> (r: u64)
        ensures
            r == self@,
    {
        self.0
    }
}

/// A capability for an L2 (root) table.
pub struct L2TableCap {
    entries: NormalArc<Vec<L2Entry>>,
}

/// A capability for an L1 table.
pub struct L1TableCap {
    entries: NormalArc<Vec<L1Entry>>,
}

/// A capability for an L0 (leaf-level) table.
pub struct L0TableCap {
    entries: NormalArc<Vec<L0Entry>>,
}

impl View for L2TableCap {
    type V = nat;

    closed spec fn view(&self) -> nat {
        self.entries@
    }
}

impl View for L1TableCap {
    type V = nat;

    closed spec fn view(&self) -> nat {
        self.entries@
    }
}

impl View for L0TableCap {
    type V = nat;

    closed spec fn view(&self) -> nat {
        self.entries@
    }
}

/// The entries of the L2 table in frame `i`.
pub open spec fn l2_entries(s: FramesView, i: nat) -> Seq<u64> {
    match s.objects[i as int] {
        Some(ObjectView::L2Table(e)) => e,
        _ => Seq::empty(),
    }
}

/// The entries of the L1 table in frame `i`.
pub open spec fn l1_entries(s: FramesView, i: nat) -> Seq<u64> {
    match s.objects[i as int] {
        Some(ObjectView::L1Table(e)) => e,
        _ => Seq::empty(),
    }
}

/// The entries of the L0 table in frame `i`.
pub open spec fn l0_entries(s: FramesView, i: nat) -> Seq<u64> {
    match s.objects[i as int] {
        Some(ObjectView::L0Table(e)) => e,
        _ => Seq::empty(),
    }
}

/// Frame `i` is live and holds a whole L2 table.
pub open spec fn holds_l2_table(s: FramesView, i: nat) -> bool {
    &&& s.live(i)
    &&& s.objects[i as int] matches Some(ObjectView::L2Table(e))
    &&& l2_entries(s, i).len() == TABLE_LEN
}

/// Frame `i` is live and holds a whole L1 table.
pub open spec fn holds_l1_table(s: FramesView, i: nat) -> bool {
    &&& s.live(i)
    &&& s.objects[i as int] matches Some(ObjectView::L1Table(e))
    &&& l1_entries(s, i).len() == TABLE_LEN
}

/// Frame `i` is live and holds a whole L0 table.
pub open spec fn holds_l0_table(s: FramesView, i: nat) -> bool {
    &&& s.live(i)
    &&& s.objects[i as int] matches Some(ObjectView::L0Table(e))
    &&& l0_entries(s, i).len() == TABLE_LEN
}

/// A table of `TABLE_LEN` invalid entries.
pub open spec fn empty_table() -> Seq<u64> {
    Seq::new(TABLE_LEN as nat, |i: int| 0u64)
}

/// The boot L2 template.
pub fn boot_l2_table() -> (r: Vec<L2Entry>)
    ensures
        entry_bits(r@) =~= Seq::new(TABLE_LEN as nat, |i: int| boot_l2_bits(i)),
{
    let mut entries: Vec<L2Entry> = Vec::new();
    let mut index: usize = 0;
    while index < TABLE_LEN
        invariant
            index <= TABLE_LEN,
            entries@.len() == index,
            forall|j: int| 0 <= j < index ==> #[trigger] entries@[j]@ == boot_l2_bits(j),
        decreases TABLE_LEN - index,
    {
        if index < TABLE_LEN / 2 {
            entries.push(L2Entry::invalid());
        } else if index < TABLE_LEN - 1 {
            entries.push(L2Entry::kernel(index - TABLE_LEN / 2, Permissions::ReadWrite));
        } else {
            entries.push(L2Entry::kernel(2, Permissions::ReadWriteExecute));
        }
        index = index + 1;
    }
    entries
}

fn l1_invalid_entries() -> (r: Vec<L1Entry>)
    ensures
        entry_bits(r@) =~= empty_table(),
{
    let mut entries: Vec<L1Entry> = Vec::new();
    let mut index: usize = 0;
    while index < TABLE_LEN
        invariant
            index <= TABLE_LEN,
            entries@.len() == index,
            forall|j: int| 0 <= j < index ==> #[trigger] entries@[j]@ == 0,
        decreases TABLE_LEN - index,
    {
        entries.push(L1Entry::invalid());
        index = index + 1;
    }
    entries
}

fn l0_invalid_entries() -> (r: Vec<L0Entry>)
    ensures
        entry_bits(r@) =~= empty_table(),
{
    let mut entries: Vec<L0Entry> = Vec::new();
    let mut index: usize = 0;
    while index < TABLE_LEN
        invariant
            index <= TABLE_LEN,
            entries@.len() == index,
            forall|j: int| 0 <= j < index ==> #[trigger] entries@[j]@ == 0,
        decreases TABLE_LEN - index,
    {
        entries.push(L0Entry::invalid());
        index = index + 1;
    }
    entries
}

/// Installs `l1_table` as the kernel L1 table shared by every user L2 table,
/// giving back the handle it replaces.
pub fn set_kernel_l1_table(frames: &mut Frames, l1_table: L1TableCap)
    requires
        old(frames).wf(),
        old(frames)@.live(l1_table@),
        old(frames)@.kernel_l1_table matches Some(p) ==> {
            &&& old(frames)@.live(p)
            &&& old(frames)@.unshare(p).live(l1_table@)
        },
    ensures
        final(frames).wf(),
        final(frames)@ == (FramesView {
            kernel_l1_table: Some(l1_table@),
            ..match old(frames)@.kernel_l1_table {
                Some(p) => old(frames)@.unshare(p),
                None => old(frames)@,
            }
        }),
{
    let previous = frames.replace_kernel_l1_table(Some(l1_table));
    match previous {
        Some(p) => {
            p.drop(frames);
        },
        None => {},
    }
}

impl L2TableCap {
    /// A user L2 table in frame `frame_number`: the boot template whose last
    /// entry points at the kernel L1 table, which gains a handle. `None` when
    /// the frame is not free memory or already in use.
    pub fn new(frames: &mut Frames, frame_number: Idx) -> (r: Option<Self>)
        requires
            old(frames).wf(),
            old(frames)@.kernel_l1_table matches Some(k) && old(frames)@.can_share(k),
        ensures
            final(frames).wf(),
            r is Some <==> old(frames)@.claimable(frame_number@, FrameKind::Normal),
            match r {
                Some(t) => t@ == frame_number@ && final(frames)@ == old(frames)@.share(
                    old(frames)@.kernel_l1_table->0,
                ).claim(
                    frame_number@,
                    Some(ObjectView::L2Table(user_l2_bits(old(frames)@.kernel_l1_table->0))),
                ),
                None => final(frames)@ == old(frames)@,
            },
    {
        if frames.kind(frame_number) != FrameKind::Normal || frames.ref_count(frame_number) != 0 {
            return None;
        }
        let ghost s0 = frames@;
        let ghost k = s0.kernel_l1_table->0;
        let kernel_l1_table = match frames.replace_kernel_l1_table(None) {
            Some(t) => {
                let shared = t.clone(frames);
                frames.replace_kernel_l1_table(Some(t));
                shared
            },
            None => {
                return None;
            },
        };
        assert(frames@ == s0.share(k));
        let mut entries = boot_l2_table();
        entries.set(TABLE_LEN - 1, L2Entry::kernel_interior(kernel_l1_table));
        assert(entry_bits(entries@) =~= user_l2_bits(k));
        let entries = NormalArc::new(frames, frame_number, entries)?;
        Some(L2TableCap { entries })
    }

    /// Points entry `index` of the user half at `l1_table`, whose handle the entry keeps.
    pub fn map_l1_table(&self, frames: &mut Frames, index: usize, l1_table: L1TableCap)
        requires
            old(frames).wf(),
            holds_l2_table(old(frames)@, self@),
            0 < index < TABLE_LEN / 2,
        ensures
            final(frames).wf(),
            final(frames)@ == old(frames)@.put(
                self@,
                ObjectView::L2Table(
                    l2_entries(old(frames)@, self@).update(index as int, interior_bits(l1_table@ as u64)),
                ),
            ),
    {
        let entry = L2Entry::interior(l1_table);
        let idx = self.entries.idx();
        match frames.take_object(idx) {
            Some(Object::L2Table(mut v)) => {
                let ghost e = entry@;
                v.set(index, entry);
                assert(entry_bits(v@) =~= l2_entries(old(frames)@, self@).update(index as int, e));
                frames.put_object(idx, Object::L2Table(v));
                proof {
                    lemma_put_after_take(old(frames)@, self@, ObjectView::L2Table(entry_bits(v@)));
                }
            },
            _ => {},
        }
    }

    /// One more handle to the same table.
    pub fn clone(&self, frames: &mut Frames) -> (r: Self)
        requires
            old(frames).wf(),
            old(frames)@.can_share(self@),
        ensures
            final(frames).wf(),
            r@ == self@,
            final(frames)@ == old(frames)@.share(self@),
    {
        L2TableCap { entries: self.entries.clone(frames) }
    }

    /// Gives the handle back; the last one frees the frame. Capabilities held
    /// in the table's entries keep their counts.
    pub fn drop(self, frames: &mut Frames)
        requires
            old(frames).wf(),
            old(frames)@.live(self@),
        ensures
            final(frames).wf(),
            final(frames)@ == old(frames)@.unshare(self@),
    {
        let _ = self.entries.drop(frames);
    }

    /// Gives up the capability as its frame number.
    pub fn into_frame_number(self) -> (r: Idx)
        ensures
            r@ == self@,
    {
        self.entries.into_raw()
    }

    /// Takes back a capability given up by `into_frame_number`.
    pub fn from_frame_number(frame_number: Idx) -> (r: Self)
        ensures
            r@ == frame_number@,
    {
        L2TableCap { entries: NormalArc::from_raw(frame_number) }
    }

    /// The frame of this table.
    pub fn frame_number(&self) -> (r: Idx)
        ensures
            r@ == self@,
    {
        self.entries.idx()
    }

    /// Makes this table the hart's address space. `installed` holds the
    /// table the hart's `satp` currently names, whose handle is given back.
    /// Returns the value for `satp`: Sv39 mode and this table's frame number.
    /// The caller fences only the local TLB: there is no shootdown on other
    /// harts yet, so a table another hart may have cached must not change
    /// under it.
    pub fn activate(self, frames: &mut Frames, installed: &mut Option<L2TableCap>) -> (satp: u64)
        requires
            old(frames).wf(),
            old(frames)@.live(self@),
            *old(installed) matches Some(p) ==> {
                &&& old(frames)@.live(p@)
                &&& old(frames)@.unshare(p@).live(self@)
            },
        ensures
            final(frames).wf(),
            satp == SATP_MODE_SV39 | (self@ as u64),
            *final(installed) matches Some(t) && t@ == self@,
            final(frames)@ == match *old(installed) {
                Some(p) => old(frames)@.unshare(p@),
                None => old(frames)@,
            },
    {
        let satp = SATP_MODE_SV39 | (self.entries.idx().into_raw() as u64);
        let mut slot = Some(self);
        core::mem::swap(&mut slot, installed);
        match slot {
            Some(p) => {
                p.drop(frames);
            },
            None => {},
        }
        satp
    }
}

impl L1TableCap {
    /// An L1 table of invalid entries in frame `frame_number`; `None` when the
    /// frame is not free memory or already in use.
    pub fn new(frames: &mut Frames, frame_number: Idx) -> (r: Option<Self>)
        requires
            old(frames).wf(),
        ensures
            final(frames).wf(),
            r is Some <==> old(frames)@.claimable(frame_number@, FrameKind::Normal),
            match r {
                Some(t) => t@ == frame_number@ && final(frames)@ == old(frames)@.claim(
                    frame_number@,
                    Some(ObjectView::L1Table(empty_table())),
                ),
                None => final(frames)@ == old(frames)@,
            },
    {
        let entries = NormalArc::new(frames, frame_number, l1_invalid_entries())?;
        Some(L1TableCap { entries })
    }

    fn set_entry(&self, frames: &mut Frames, index: usize, entry: L1Entry)
        requires
            old(frames).wf(),
            holds_l1_table(old(frames)@, self@),
            index < TABLE_LEN,
        ensures
            final(frames).wf(),
            final(frames)@ == old(frames)@.put(
                self@,
                ObjectView::L1Table(l1_entries(old(frames)@, self@).update(index as int, entry@)),
            ),
    {
        let idx = self.entries.idx();
        match frames.take_object(idx) {
            Some(Object::L1Table(mut v)) => {
                let ghost e = entry@;
                v.set(index, entry);
                assert(entry_bits(v@) =~= l1_entries(old(frames)@, self@).update(index as int, e));
                frames.put_object(idx, Object::L1Table(v));
                proof {
                    lemma_put_after_take(old(frames)@, self@, ObjectView::L1Table(entry_bits(v@)));
                }
            },
            _ => {},
        }
    }

    /// Points entry `index` at `l0_table` for user mode; the entry keeps the handle.
    pub fn map_l0_table(&self, frames: &mut Frames, index: usize, l0_table: L0TableCap)
        requires
            old(frames).wf(),
            holds_l1_table(old(frames)@, self@),
            index < TABLE_LEN,
        ensures
            final(frames).wf(),
            final(frames)@ == old(frames)@.put(
                self@,
                ObjectView::L1Table(
                    l1_entries(old(frames)@, self@).update(index as int, interior_bits(l0_table@ as u64)),
                ),
            ),
    {
        self.set_entry(frames, index, L1Entry::interior(l0_table));
    }

    /// Points entry `index` at `l0_table` as a global kernel mapping; the entry keeps the handle.
    pub fn map_l0_kernel_table(&self, frames: &mut Frames, index: usize, l0_table: L0TableCap)
        requires
            old(frames).wf(),
            holds_l1_table(old(frames)@, self@),
            index < TABLE_LEN,
        ensures
            final(frames).wf(),
            final(frames)@ == old(frames)@.put(
                self@,
                ObjectView::L1Table(
                    l1_entries(old(frames)@, self@).update(
                        index as int,
                        kernel_interior_bits(l0_table@ as u64),
                    ),
                ),
            ),
    {
        self.set_entry(frames, index, L1Entry::kernel_interior(l0_table));
    }

    /// One more handle to the same table.
    pub fn clone(&self, frames: &mut Frames) -> (r: Self)
        requires
            old(frames).wf(),
            old(frames)@.can_share(self@),
        ensures
            final(frames).wf(),
            r@ == self@,
            final(frames)@ == old(frames)@.share(self@),
    {
        L1TableCap { entries: self.entries.clone(frames) }
    }

    /// Takes back a capability given up by `into_frame_number`.
    pub fn from_frame_number(frame_number: Idx) -> (r: Self)
        ensures
            r@ == frame_number@,
    {
        L1TableCap { entries: NormalArc::from_raw(frame_number) }
    }

    /// The frame of this table.
    pub fn frame_number(&self) -> (r: Idx)
        ensures
            r@ == self@,
    {
        self.entries.idx()
    }

    /// Gives the handle back; the last one frees the frame. Capabilities held
    /// in the table's entries keep their counts.
    pub fn drop(self, frames: &mut Frames)
        requires
            old(frames).wf(),
            old(frames)@.live(self@),
        ensures
            final(frames).wf(),
            final(frames)@ == old(frames)@.unshare(self@),
    {
        let _ = self.entries.drop(frames);
    }

    /// Gives up the capability as its frame number.
    pub fn into_frame_number(self) -> (r: Idx)
        ensures
            r@ == self@,
    {
        self.entries.into_raw()
    }
}

impl L0TableCap {
    /// An L0 table of invalid entries in frame `frame_number`; `None` when the
    /// frame is not free memory or already in use.
    pub fn new(frames: &mut Frames, frame_number: Idx) -> (r: Option<Self>)
        requires
            old(frames).wf(),
        ensures
            final(frames).wf(),
            r is Some <==> old(frames)@.claimable(frame_number@, FrameKind::Normal),
            match r {
                Some(t) => t@ == frame_number@ && final(frames)@ == old(frames)@.claim(
                    frame_number@,
                    Some(ObjectView::L0Table(empty_table())),
                ),
                None => final(frames)@ == old(frames)@,
            },
    {
        let entries = NormalArc::new(frames, frame_number, l0_invalid_entries())?;
        Some(L0TableCap { entries })
    }

    fn set_entry(&self, frames: &mut Frames, index: usize, entry: L0Entry)
        requires
            old(frames).wf(),
            holds_l0_table(old(frames)@, self@),
            index < TABLE_LEN,
        ensures
            final(frames).wf(),
            final(frames)@ == old(frames)@.put(
                self@,
                ObjectView::L0Table(l0_entries(old(frames)@, self@).update(index as int, entry@)),
            ),
    {
        let idx = self.entries.idx();
        match frames.take_object(idx) {
            Some(Object::L0Table(mut v)) => {
                let ghost e = entry@;
                v.set(index, entry);
                assert(entry_bits(v@) =~= l0_entries(old(frames)@, self@).update(index as int, e));
                frames.put_object(idx, Object::L0Table(v));
                proof {
                    lemma_put_after_take(old(frames)@, self@, ObjectView::L0Table(entry_bits(v@)));
                }
            },
            _ => {},
        }
    }

    /// Maps `l0_page` at entry `index` for user mode with `permissions`; the
    /// entry keeps the handle.
    pub fn map_l0_page(
        &self,
        frames: &mut Frames,
        index: usize,
        l0_page: L0PageCap,
        permissions: Permissions,
    )
        requires
            old(frames).wf(),
            holds_l0_table(old(frames)@, self@),
            index < TABLE_LEN,
        ensures
            final(frames).wf(),
            final(frames)@ == old(frames)@.put(
                self@,
                ObjectView::L0Table(
                    l0_entries(old(frames)@, self@).update(
                        index as int,
                        leaf_bits(l0_page@ as u64, permissions, USER),
                    ),
                ),
            ),
    {
        self.set_entry(frames, index, L0Entry::leaf(l0_page, permissions));
    }

    /// Maps `l0_page` at entry `index` as a global kernel page with
    /// `permissions`; the entry keeps the handle.
    pub fn map_l0_kernel_page(
        &self,
        frames: &mut Frames,
        index: usize,
        l0_page: L0PageCap,
        permissions: Permissions,
    )
        requires
            old(frames).wf(),
            holds_l0_table(old(frames)@, self@),
            index < TABLE_LEN,
        ensures
            final(frames).wf(),
            final(frames)@ == old(frames)@.put(
                self@,
                ObjectView::L0Table(
                    l0_entries(old(frames)@, self@).update(
                        index as int,
                        leaf_bits(l0_page@ as u64, permissions, GLOBAL),
                    ),
                ),
            ),
    {
        self.set_entry(frames, index, L0Entry::kernel_leaf(l0_page, permissions));
    }

    /// Exposes `cap` to user mode as a capability entry at `index`; the entry
    /// keeps the handle.
    pub fn give_capability(&self, frames: &mut Frames, index: usize, cap: Cap)
        requires
            old(frames).wf(),
            holds_l0_table(old(frames)@, self@),
            index < TABLE_LEN,
        ensures
            final(frames).wf(),
            final(frames)@ == old(frames)@.put(
                self@,
                ObjectView::L0Table(
                    l0_entries(old(frames)@, self@).update(
                        index as int,
                        cap_bits(cap@ as u64, cap.tag()),
                    ),
                ),
            ),
    {
        self.set_entry(frames, index, cap.l0_entry());
    }

    /// One more handle to the same table.
    pub fn clone(&self, frames: &mut Frames) -> (r: Self)
        requires
            old(frames).wf(),
            old(frames)@.can_share(self@),
        ensures
            final(frames).wf(),
            r@ == self@,
            final(frames)@ == old(frames)@.share(self@),
    {
        L0TableCap { entries: self.entries.clone(frames) }
    }

    /// Takes back a capability given up by `into_frame_number`.
    pub fn from_frame_number(frame_number: Idx) -> (r: Self)
        ensures
            r@ == frame_number@,
    {
        L0TableCap { entries: NormalArc::from_raw(frame_number) }
    }

    /// The frame of this table.
    pub fn frame_number(&self) -> (r: Idx)
        ensures
            r@ == self@,
    {
        self.entries.idx()
    }

    /// Gives up the capability as its frame number.
    pub fn into_frame_number(self) -> (r: Idx)
        ensures
            r@ == self@,
    {
        self.entries.into_raw()
    }
}

/// A capability of any kind, as it can be given to user mode.
pub enum Cap {
    L2Table(L2TableCap),
    L1Table(L1TableCap),
    L0Table(L0TableCap),
    L0Page(L0PageCap),
    Thread(ThreadCap),
    Call(CallCap),
}

impl View for Cap {
    type V = nat;

    open spec fn view(&self) -> nat {
        match self {
            Cap::L2Table(c) => c@,
            Cap::L1Table(c) => c@,
            Cap::L0Table(c) => c@,
            Cap::L0Page(c) => c@,
            Cap::Thread(c) => c@,
            Cap::Call(c) => c@,
        }
    }
}

impl Cap {
    /// The kind tag of a capability entry.
    pub open spec fn tag(self) -> u8 {
        match self {
            Cap::L2Table(_) => 0,
            Cap::L1Table(_) => 1,
            Cap::L0Table(_) => 2,
            Cap::L0Page(_) => 5,
            Cap::Thread(_) => 6,
            Cap::Call(_) => 7,
        }
    }

    /// The capability entry for this capability, which keeps its handle.
    pub fn l0_entry(self) -> (r: L0Entry)
        ensures
            r@ == cap_bits(self@ as u64, self.tag()),
    {
        let (frame_number, tag) = match self {
            Cap::L2Table(t) => (t.into_frame_number(), 0u8),
            Cap::L1Table(t) => (t.into_frame_number(), 1u8),
            Cap::L0Table(t) => (t.into_frame_number(), 2u8),
            Cap::L0Page(p) => (p.into_frame_number(), 5u8),
            Cap::Thread(t) => (t.into_frame_number(), 6u8),
            Cap::Call(c) => (c.into_frame_number(), 7u8),
        };
        L0Entry::cap(frame_number, tag)
    }
}

/// A capability entry gives back the frame index and kind tag it was made
/// from, and the hardware sees it as not present.
pub proof fn lemma_cap_entry_round_trip(frame: u64, tag: u8)
    requires
        frame < FRAME_COUNT,
    ensures
        cap_bits(frame, tag) & 0x3 == CAP,
        cap_bits(frame, tag) & VALID == 0,
        cap_bits(frame, tag) >> 10u64 == frame,
        ((cap_bits(frame, tag) >> 2u64) & 0xff) as u8 == tag,
{
    let t = tag as u64;
    assert(t < 256);
    assert(frame < 0x20_0000);
    assert((2u64 | (t << 2u64) | (frame << 10u64)) & 0x3 == 2) by (bit_vector)
        requires
            t < 256,
            frame < 0x20_0000,
    ;
    assert((2u64 | (t << 2u64) | (frame << 10u64)) & 1 == 0) by (bit_vector)
        requires
            t < 256,
            frame < 0x20_0000,
    ;
    assert((2u64 | (t << 2u64) | (frame << 10u64)) >> 10u64 == frame) by (bit_vector)
        requires
            t < 256,
            frame < 0x20_0000,
    ;
    assert(((2u64 | (t << 2u64) | (frame << 10u64)) >> 2u64) & 0xff == t) by (bit_vector)
        requires
            t < 256,
            frame < 0x20_0000,
    ;
}

/// Every user L2 table starts as the boot template with its last entry
/// replaced: the low half invalid, entries 256 to 510 the template's global
/// read-write kernel mappings of 1 GiB regions 0 to 254, and entry 511 a
/// valid global interior entry (no permission bits) naming the kernel L1
/// frame.
pub proof fn lemma_user_l2_template(kernel_l1: nat)
    requires
        kernel_l1 < FRAME_COUNT,
    ensures
        user_l2_bits(kernel_l1).len() == TABLE_LEN,
        forall|i: int| 0 <= i < 256 ==> #[trigger] user_l2_bits(kernel_l1)[i] == 0,
        forall|i: int|
            256 <= i < 511 ==> #[trigger] user_l2_bits(kernel_l1)[i] == boot_l2_bits(i)
                && boot_l2_bits(i) == kernel_huge_bits((i - 256) as usize, Permissions::ReadWrite),
        user_l2_bits(kernel_l1)[511] == kernel_interior_bits(kernel_l1 as u64),
        kernel_interior_bits(kernel_l1 as u64) & 0xf == VALID,
        kernel_interior_bits(kernel_l1 as u64) & GLOBAL == GLOBAL,
        (kernel_interior_bits(kernel_l1 as u64) >> 10u64) & PPN_MASK == kernel_l1,
{
    let k = kernel_l1 as u64;
    assert(k < 0x20_0000);
    assert((1u64 | 0x20u64 | ((k & 0xfff_ffff_ffffu64) << 10u64)) & 0xf == 1) by (bit_vector)
        requires
            k < 0x20_0000,
    ;
    assert((1u64 | 0x20u64 | ((k & 0xfff_ffff_ffffu64) << 10u64)) & 0x20 == 0x20) by (bit_vector)
        requires
            k < 0x20_0000,
    ;
    assert(((1u64 | 0x20u64 | ((k & 0xfff_ffff_ffffu64) << 10u64)) >> 10u64) & 0xfff_ffff_ffffu64
        == k) by (bit_vector)
        requires
            k < 0x20_0000,
    ;
}

} // verus!
