//! Boot-time composition: the bump allocator over free frames, the kernel
//! image layout, and the decisions of the trap-dispatch loop.

use vstd::prelude::*;
use crate::frame::{FrameKind, Frames, FramesView, Idx, ObjectView};
use crate::machine::{FRAME_COUNT, L0_FRAME_SIZE, L1_FRAME_SIZE, L2_FRAME_SIZE, TABLE_LEN};
use crate::page::{InternalPageCap, L0PageCap, NormalPageCap};
use crate::table::{
    holds_l0_table, holds_l1_table, holds_l2_table, interior_bits, l0_entries, l1_entries,
    l2_entries, leaf_bits, lemma_user_l2_template, user_l2_bits, USER, L0TableCap, L1TableCap, L2TableCap, Permissions, GLOBAL,
};
use crate::thread::{holds_thread, park_step, thread_view, Context, ThreadCap};

verus! {

/// Where the kernel image is mapped in every address space.
pub const KERNELMODE_BASE_ADDR: u64 = 0xffff_ffff_c000_0000;

/// Where the kernel image sits in physical memory.
pub const KERNELMODE_BASE_PHYS: usize = 0x8000_0000;

/// Where the user image is mapped and where its thread starts.
pub const USERMODE_BASE_ADDR: usize = 0x4000_0000;

/// The `scause` of an environment call from user mode.
pub const SCAUSE_USER_ECALL: u64 = 0x8;

/// A linear allocator that hands out the frames of `[start, end)` from the
/// top down.
pub struct BootAlloc {
    start_frame_number: usize,
    end_frame_number: usize,
}

impl BootAlloc {
    #[verifier::type_invariant]
    closed spec fn inv(self) -> bool {
        self.start_frame_number <= self.end_frame_number
    }

    pub closed spec fn start(&self) -> nat {
        self.start_frame_number as nat
    }

    pub closed spec fn end(&self) -> nat {
        self.end_frame_number as nat
    }

    pub fn new(start_frame_number: usize, end_frame_number: usize) -> (r: Self)
        requires
            start_frame_number <= end_frame_number,
        ensures
            r.start() == start_frame_number,
            r.end() == end_frame_number,
    {
        BootAlloc { start_frame_number, end_frame_number }
    }

    /// How many frames are left.
    pub fn len(&self) -> (r: usize)
        ensures
            r == self.end() - self.start(),
    {
        proof {
            use_type_invariant(self);
        }
        self.end_frame_number - self.start_frame_number
    }

    /// The highest frame left, which is then no longer handed out; `None`,
    /// changing nothing, when none is left or it is not a frame index.
    pub fn alloc_frame(&mut self) -> (r: Option<Idx>)
        ensures
            final(self).start() == old(self).start(),
            r is Some <==> old(self).start() < old(self).end() && old(self).end() - 1 < FRAME_COUNT,
            match r {
                Some(i) => i@ == old(self).end() - 1 && final(self).end() == old(self).end() - 1,
                None => final(self).end() == old(self).end(),
            },
    {
        proof {
            use_type_invariant(&*self);
        }
        if self.end_frame_number == self.start_frame_number {
            return None;
        }
        let frame_number = self.end_frame_number - 1;
        let idx = Idx::from_raw(frame_number)?;
        self.end_frame_number = frame_number;
        Some(idx)
    }
}

/// A named section of the kernel image: its virtual range and permissions.
#[derive(Clone, Copy, Debug)]
pub struct Section {
    pub name: &'static str,
    pub start: u64,
    pub end: u64,
    pub permissions: Permissions,
}

impl Section {
    pub open spec fn contains(self, addr: u64) -> bool {
        self.start <= addr < self.end
    }
}

/// The permissions of the first section of `layout` from index `i` on that
/// contains `addr`.
pub open spec fn first_section(layout: Seq<Section>, addr: u64, i: int) -> Option<Permissions>
    decreases layout.len() - i,
{
    if i < 0 || i >= layout.len() {
        None
    } else if layout[i].contains(addr) {
        Some(layout[i].permissions)
    } else {
        first_section(layout, addr, i + 1)
    }
}

/// The permissions of the first section of `layout` that contains `addr`,
/// or `None` when none does.
pub fn section_permissions(layout: &[Section], addr: u64) -> (r: Option<Permissions>)
    ensures
        r == first_section(layout@, addr, 0),
{
    let mut i: usize = 0;
    while i < layout.len()
        invariant
            i <= layout@.len(),
            first_section(layout@, addr, 0) == first_section(layout@, addr, i as int),
        decreases layout@.len() - i,
    {
        let section = &layout[i];
        if section.start <= addr && addr < section.end {
            return Some(section.permissions);
        }
        i = i + 1;
    }
    None
}

/// Entry `l0_index` of the kernel L0 table for L1 slot `l1_index`: the
/// page's frame, global, with the first covering section's permissions, or
/// invalid when no section covers it.
pub open spec fn kernel_l0_bits(layout: Seq<Section>, l1_index: int, l0_index: int) -> u64 {
    match first_section(layout, kernel_page_addr(l1_index, l0_index), 0) {
        Some(p) => leaf_bits(kernel_page_frame(l1_index, l0_index) as u64, p, GLOBAL),
        None => 0,
    }
}

/// The virtual address of page `l0_index` of L1 slot `l1_index` in the kernel window.
pub open spec fn kernel_page_addr(l1_index: int, l0_index: int) -> u64 {
    (l0_index * L0_FRAME_SIZE + l1_index * L1_FRAME_SIZE + KERNELMODE_BASE_ADDR) as u64
}

/// The physical frame behind page `l0_index` of L1 slot `l1_index` of the kernel window.
pub open spec fn kernel_page_frame(l1_index: int, l0_index: int) -> int {
    0x80000 + l1_index * 512 + l0_index
}

/// Frames `lo` to `hi - 1` are unused free memory.
pub open spec fn free_normal(s: FramesView, lo: int, hi: int) -> bool {
    forall|x: nat| lo <= x < hi ==> #[trigger] s.claimable(x, FrameKind::Normal)
}

/// Every page of the kernel window from the `from`-th on (counting L0
/// slots across L1 slots) that a section of `layout` covers is an unused
/// internal frame.
pub open spec fn kernel_pages_free(s: FramesView, layout: Seq<Section>, from: int) -> bool {
    forall|i: int, j: int|
        0 <= i < TABLE_LEN && 0 <= j < TABLE_LEN && i * 512 + j >= from && first_section(
            layout,
            kernel_page_addr(i, j),
            0,
        ) is Some ==> s.claimable(#[trigger] kernel_page_frame(i, j) as nat, FrameKind::Internal)
}

/// `map_kernel_image` can have every frame it needs: the allocator, whose
/// range is `[start, end)`, holds `1 + TABLE_LEN` unused free frames at its
/// top, and every kernel page a section covers is unused internal memory.
pub open spec fn kernel_image_fits(s: FramesView, start: int, end: int, layout: Seq<Section>) -> bool {
    &&& end <= FRAME_COUNT
    &&& start + 1 + TABLE_LEN <= end
    &&& free_normal(s, end - 1 - TABLE_LEN, end)
    &&& kernel_pages_free(s, layout, 0)
}

proof fn lemma_kernel_pages_later(s: FramesView, layout: Seq<Section>, from: int, later: int)
    requires
        kernel_pages_free(s, layout, from),
        from <= later,
    ensures
        kernel_pages_free(s, layout, later),
{
}

/// Claiming frame `x`, or changing no count, keeps the free frames of
/// `[lo, hi)` free when `x` is outside the range, and the kernel pages from
/// `from` on free when `x` is free memory or comes before them.
proof fn lemma_free_kept(
    s0: FramesView,
    s1: FramesView,
    layout: Seq<Section>,
    lo: int,
    hi: int,
    from: int,
    x: int,
)
    requires
        s1.kinds == s0.kinds,
        forall|y: int| 0 <= y < FRAME_COUNT && y != x ==> #[trigger] s1.counts[y] == s0.counts[y],
    ensures
        free_normal(s0, lo, hi) && (!(lo <= x < hi) || s0.kinds[x] != FrameKind::Normal
            || s0.counts[x] != 0) ==> free_normal(s1, lo, hi),
        kernel_pages_free(s0, layout, from) && (x < 0 || s0.kinds[x] == FrameKind::Normal || x
            < 0x80000 + from) ==> kernel_pages_free(s1, layout, from),
{
    if free_normal(s0, lo, hi) && (!(lo <= x < hi) || s0.kinds[x] != FrameKind::Normal
        || s0.counts[x] != 0) {
        assert forall|y: nat| lo <= y < hi implies #[trigger] s1.claimable(y, FrameKind::Normal) by {
            assert(s0.claimable(y, FrameKind::Normal));
        }
    }
    if kernel_pages_free(s0, layout, from) && (x < 0 || s0.kinds[x] == FrameKind::Normal || x
        < 0x80000 + from) {
        assert forall|i: int, j: int|
            0 <= i < TABLE_LEN && 0 <= j < TABLE_LEN && i * 512 + j >= from && first_section(
                layout,
                kernel_page_addr(i, j),
                0,
            ) is Some implies s1.claimable(#[trigger] kernel_page_frame(i, j) as nat, FrameKind::Internal) by {
            assert(s0.claimable(kernel_page_frame(i, j) as nat, FrameKind::Internal));
        }
    }
}



/// The virtual address of page `l0_index` of L1 slot `l1_index` in the
/// kernel window.
pub fn kernel_addr(l1_index: usize, l0_index: usize) -> (r: u64)
    requires
        l1_index < 512,
        l0_index < 512,
    ensures
        r == l0_index * L0_FRAME_SIZE + l1_index * L1_FRAME_SIZE + KERNELMODE_BASE_ADDR,
{
    assert(l0_index * 0x1000 + l1_index * 0x20_0000 < 0x4000_0000) by (nonlinear_arith)
        requires
            l1_index < 512,
            l0_index < 512,
    ;
    (l0_index as u64) * (L0_FRAME_SIZE as u64) + (l1_index as u64) * (L1_FRAME_SIZE as u64)
        + KERNELMODE_BASE_ADDR
}

/// The physical frame behind page `l0_index` of L1 slot `l1_index` of the
/// kernel window: the window maps the kernel's physical base, frame 0x80000,
/// onward.
pub fn kernel_frame(l1_index: usize, l0_index: usize) -> (r: usize)
    requires
        l1_index < 512,
        l0_index < 512,
    ensures
        r == 0x80000 + l1_index * 512 + l0_index,
{
    let r = (l0_index * L0_FRAME_SIZE + l1_index * L1_FRAME_SIZE + KERNELMODE_BASE_PHYS)
        / L0_FRAME_SIZE;
    assert(r == 0x80000 + l1_index * 512 + l0_index) by (nonlinear_arith)
        requires
            r == (l0_index * 0x1000 + l1_index * 0x20_0000 + 0x8000_0000) / 0x1000,
    ;
    r
}

/// What the kernel does about a trap from user mode.
#[derive(Clone, Copy, Debug)]
pub enum TrapAction {
    /// System call 0: shut the system down.
    Shutdown,
    /// System call 1: log the eight bytes of this word (`a1`), most
    /// significant first.
    Print(u64),
    /// Any other system call: log the context.
    UnknownSyscall(Context),
    /// Any trap other than an environment call: fatal.
    Fatal(Context),
}

/// The action for a trap with cause `scause` from a thread parked at `ctx`.
pub open spec fn spec_dispatch(scause: u64, ctx: Context) -> TrapAction {
    if scause != SCAUSE_USER_ECALL {
        TrapAction::Fatal(ctx)
    } else if ctx.a[0] == 0 {
        TrapAction::Shutdown
    } else if ctx.a[0] == 1 {
        TrapAction::Print(ctx.a[1] as u64)
    } else {
        TrapAction::UnknownSyscall(ctx)
    }
}

/// The action for a trap with cause `scause` from a thread parked at `ctx`.
pub fn dispatch(scause: u64, ctx: &Context) -> (r: TrapAction)
    ensures
        r == spec_dispatch(scause, *ctx),
{
    if scause != SCAUSE_USER_ECALL {
        TrapAction::Fatal(*ctx)
    } else if ctx.a[0] == 0 {
        TrapAction::Shutdown
    } else if ctx.a[0] == 1 {
        TrapAction::Print(ctx.a[1] as u64)
    } else {
        TrapAction::UnknownSyscall(*ctx)
    }
}

/// An environment call other than shutdown neither stops the system nor
/// faults: the thread stays parked with every register as saved but the
/// program counter, which moves past the `ecall`, so the next resume hands
/// back exactly that context.
pub proof fn lemma_syscall_continues(s: FramesView, t: nat, ctx: Context)
    requires
        s.objects.len() == FRAME_COUNT,
        holds_thread(s, t),
        thread_view(s, t).context == Some(ctx),
        ctx.a[0] != 0,
        ctx.pc + 4 <= usize::MAX,
    ensures
        !(spec_dispatch(SCAUSE_USER_ECALL, ctx) is Shutdown),
        !(spec_dispatch(SCAUSE_USER_ECALL, ctx) is Fatal),
        holds_thread(park_step(s, t, Context { pc: (ctx.pc + 4) as usize, ..ctx }), t),
        thread_view(park_step(s, t, Context { pc: (ctx.pc + 4) as usize, ..ctx }), t).context
            == Some(Context { pc: (ctx.pc + 4) as usize, ..ctx }),
{
}

/// Handles a trap of `thread`, parked again after running: decides what to
/// do and, for an environment call, moves its program counter past the
/// `ecall` instruction.
pub fn handle_trap(thread: &ThreadCap, frames: &mut Frames, scause: u64) -> (r: Option<TrapAction>)
    requires
        old(frames).wf(),
        holds_thread(old(frames)@, thread@),
        thread_view(old(frames)@, thread@).context matches Some(ctx) ==> ctx.pc + 4 <= usize::MAX,
    ensures
        final(frames).wf(),
        r is Some <==> thread_view(old(frames)@, thread@).context is Some,
        match (r, thread_view(old(frames)@, thread@).context) {
            (Some(a), Some(ctx)) => {
                &&& a == spec_dispatch(scause, ctx)
                &&& scause == SCAUSE_USER_ECALL ==> final(frames)@ == park_step(
                    old(frames)@,
                    thread@,
                    Context { pc: (ctx.pc + 4) as usize, ..ctx },
                )
                &&& scause != SCAUSE_USER_ECALL ==> final(frames)@ == old(frames)@
            },
            _ => final(frames)@ == old(frames)@,
        },
{
    let ctx = match thread.context(frames) {
        Some(c) => *c,
        None => {
            return None;
        },
    };
    let action = dispatch(scause, &ctx);
    if scause == SCAUSE_USER_ECALL {
        let mut next = ctx;
        next.pc = ctx.pc + 4;
        thread.park(frames, next);
    }
    Some(action)
}

/// The first `n` kernel L0 tables, in frames `e0 - 2` downward, are built.
pub open spec fn kernel_l0_built(s: FramesView, layout: Seq<Section>, e0: int, n: int) -> bool {
    forall|i: int|
        0 <= i < n ==> {
            &&& #[trigger] holds_l0_table(s, (e0 - 2 - i) as nat)
            &&& forall|j: int|
                0 <= j < TABLE_LEN ==> #[trigger] l0_entries(s, (e0 - 2 - i) as nat)[j]
                    == kernel_l0_bits(layout, i, j)
        }
}

proof fn lemma_built_kept(s0: FramesView, s1: FramesView, layout: Seq<Section>, e0: int, n: int)
    requires
        kernel_l0_built(s0, layout, e0, n),
        e0 - 1 - n >= 0,
        forall|i: int|
            0 <= i < n ==> #[trigger] s1.objects[e0 - 2 - i] == s0.objects[e0 - 2 - i]
                && s1.counts[e0 - 2 - i] == s0.counts[e0 - 2 - i],
    ensures
        kernel_l0_built(s1, layout, e0, n),
{
    assert forall|i: int| 0 <= i < n implies {
        &&& #[trigger] holds_l0_table(s1, (e0 - 2 - i) as nat)
        &&& forall|j: int|
            0 <= j < TABLE_LEN ==> #[trigger] l0_entries(s1, (e0 - 2 - i) as nat)[j]
                == kernel_l0_bits(layout, i, j)
    } by {
        assert(holds_l0_table(s0, (e0 - 2 - i) as nat));
        assert(s1.objects[e0 - 2 - i] == s0.objects[e0 - 2 - i]);
    }
}

/// Builds the kernel L1 table from frames of `boot_alloc`: the table takes
/// the highest frame, then the L0 table for each of its entries the next
/// one down, and each page of the kernel window that a section of `layout`
/// covers is adopted as an internal page and mapped with that section's
/// permissions; the other entries stay invalid. `None` when a frame cannot
/// be had; when every frame it needs is there, it succeeds.
pub fn map_kernel_image(
    frames: &mut Frames,
    boot_alloc: &mut BootAlloc,
    layout: &[Section],
) -> (r: Option<L1TableCap>)
    requires
        old(frames).wf(),
    ensures
        final(frames).wf(),
        final(boot_alloc).start() == old(boot_alloc).start(),
        kernel_image_fits(
            old(frames)@,
            old(boot_alloc).start() as int,
            old(boot_alloc).end() as int,
            layout@,
        ) ==> r is Some,
        r matches Some(l1) ==> {
            &&& holds_l1_table(final(frames)@, l1@)
            &&& l1@ == old(boot_alloc).end() - 1
            &&& final(boot_alloc).end() == old(boot_alloc).end() - 1 - TABLE_LEN
            &&& forall|i: int|
                0 <= i < TABLE_LEN ==> #[trigger] l1_entries(final(frames)@, l1@)[i] == interior_bits(
                    (old(boot_alloc).end() - 2 - i) as u64,
                )
            &&& kernel_l0_built(final(frames)@, layout@, old(boot_alloc).end() as int, TABLE_LEN as int)
        },
{
    let ghost e0 = boot_alloc.end() as int;
    let ghost lo = e0 - 1 - TABLE_LEN;
    let ghost fits = kernel_image_fits(frames@, boot_alloc.start() as int, e0, layout@);
    let l1_frame = boot_alloc.alloc_frame()?;
    let ghost s = frames@;
    proof {
        if fits {
            assert(s.claimable((e0 - 1) as nat, FrameKind::Normal));
        }
    }
    let l1 = L1TableCap::new(frames, l1_frame)?;
    proof {
        lemma_free_kept(s, frames@, layout@, lo, e0 - 1, 0, e0 - 1);
    }
    let mut l1_index: usize = 0;
    while l1_index < TABLE_LEN
        invariant
            frames.wf(),
            holds_l1_table(frames@, l1@),
            l1@ == e0 - 1,
            boot_alloc.start() == old(boot_alloc).start(),
            boot_alloc.end() == e0 - 1 - l1_index,
            l1_index <= TABLE_LEN,
            forall|i: int|
                0 <= i < l1_index ==> #[trigger] l1_entries(frames@, l1@)[i] == interior_bits(
                    (e0 - 2 - i) as u64,
                ),
            kernel_l0_built(frames@, layout@, e0, l1_index as int),
            lo == e0 - 1 - TABLE_LEN,
            e0 == old(boot_alloc).end(),
            fits == kernel_image_fits(old(frames)@, old(boot_alloc).start() as int, e0, layout@),
            fits ==> {
                &&& old(boot_alloc).start() + 1 + TABLE_LEN <= e0
                &&& e0 <= FRAME_COUNT
                &&& free_normal(frames@, lo, e0 - 1 - l1_index)
                &&& kernel_pages_free(frames@, layout@, l1_index * 512)
            },
        decreases TABLE_LEN - l1_index,
    {
        let l0_frame = boot_alloc.alloc_frame()?;
        let ghost s0 = frames@;
        proof {
            if fits {
                let x = (e0 - 2 - l1_index) as nat;
                assert(lo <= x < e0 - 1 - l1_index);
                assert(s0.claimable(x, FrameKind::Normal));
            }
        }
        let l0 = L0TableCap::new(frames, l0_frame)?;
        proof {
            lemma_free_kept(s0, frames@, layout@, lo, e0 - 2 - l1_index, l1_index * 512, e0 - 2 - l1_index);
            assert forall|i: int| 0 <= i < l1_index implies #[trigger] frames@.objects[e0 - 2 - i]
                == s0.objects[e0 - 2 - i] && frames@.counts[e0 - 2 - i] == s0.counts[e0 - 2
                - i] by {
                assert(holds_l0_table(s0, (e0 - 2 - i) as nat));
            }
            lemma_built_kept(s0, frames@, layout@, e0, l1_index as int);
        }
        let ghost done = l1_entries(frames@, l1@);
        let mut l0_index: usize = 0;
        while l0_index < TABLE_LEN
            invariant
                frames.wf(),
                holds_l1_table(frames@, l1@),
                holds_l0_table(frames@, l0@),
                l0@ != l1@,
                l1_entries(frames@, l1@) == done,
                boot_alloc.start() == old(boot_alloc).start(),
                boot_alloc.end() == e0 - 2 - l1_index,
                l0@ == e0 - 2 - l1_index,
                e0 - 1 < FRAME_COUNT,
                l1_index < TABLE_LEN,
                l0_index <= TABLE_LEN,
                forall|j: int|
                    0 <= j < l0_index ==> #[trigger] l0_entries(frames@, l0@)[j] == kernel_l0_bits(
                        layout@,
                        l1_index as int,
                        j,
                    ),
                forall|j: int| l0_index <= j < TABLE_LEN ==> #[trigger] l0_entries(frames@, l0@)[j] == 0,
                kernel_l0_built(frames@, layout@, e0, l1_index as int),
                lo == e0 - 1 - TABLE_LEN,
                e0 == old(boot_alloc).end(),
                fits == kernel_image_fits(old(frames)@, old(boot_alloc).start() as int, e0, layout@),
                fits ==> {
                    &&& old(boot_alloc).start() + 1 + TABLE_LEN <= e0
                    &&& e0 <= FRAME_COUNT
                    &&& free_normal(frames@, lo, e0 - 2 - l1_index)
                    &&& kernel_pages_free(frames@, layout@, l1_index * 512 + l0_index)
                },
            decreases TABLE_LEN - l0_index,
        {
            let addr = kernel_addr(l1_index, l0_index);
            let ghost s1 = frames@;
            let ghost flat = l1_index * 512 + l0_index;
            match section_permissions(layout, addr) {
                Some(permissions) => {
                    let phys = Idx::from_raw(kernel_frame(l1_index, l0_index))?;
                    proof {
                        assert(addr == kernel_page_addr(l1_index as int, l0_index as int));
                        assert(phys@ == kernel_page_frame(l1_index as int, l0_index as int));
                        if fits {
                            assert(s1.claimable(
                                kernel_page_frame(l1_index as int, l0_index as int) as nat,
                                FrameKind::Internal,
                            ));
                        }
                    }
                    let page = InternalPageCap::assume_init(frames, phys)?;
                    let ghost s2 = frames@;
                    proof {
                        if fits {
                            lemma_kernel_pages_later(s1, layout@, flat, flat + 1);
                        }
                        lemma_free_kept(s1, frames@, layout@, lo, e0 - 2 - l1_index, flat + 1, phys@ as int);
                        assert forall|i: int| 0 <= i < l1_index implies #[trigger] frames@.objects[e0
                            - 2 - i] == s1.objects[e0 - 2 - i] && frames@.counts[e0 - 2 - i]
                            == s1.counts[e0 - 2 - i] by {
                            assert(holds_l0_table(s1, (e0 - 2 - i) as nat));
                        }
                        lemma_built_kept(s1, frames@, layout@, e0, l1_index as int);
                    }
                    l0.map_l0_kernel_page(frames, l0_index, L0PageCap::Internal(page), permissions);
                    proof {
                        assert forall|i: int| 0 <= i < l1_index implies #[trigger] frames@.objects[e0
                            - 2 - i] == s2.objects[e0 - 2 - i] && frames@.counts[e0 - 2 - i]
                            == s2.counts[e0 - 2 - i] by {
                            assert(e0 - 2 - i != l0@);
                            assert(0 <= e0 - 2 - i < FRAME_COUNT);
                        }
                        lemma_built_kept(s2, frames@, layout@, e0, l1_index as int);
                        lemma_free_kept(s2, frames@, layout@, lo, e0 - 2 - l1_index, flat + 1, -1);
                    }
                },
                None => {
                    proof {
                        assert(addr == kernel_page_addr(l1_index as int, l0_index as int));
                        if fits {
                            lemma_kernel_pages_later(s1, layout@, flat, flat + 1);
                        }
                    }
                },
            }
            l0_index = l0_index + 1;
        }
        let ghost s3 = frames@;
        let ghost frame = l0@;
        l1.map_l0_table(frames, l1_index, l0);
        proof {
            assert forall|i: int| 0 <= i < l1_index implies #[trigger] frames@.objects[e0 - 2 - i]
                == s3.objects[e0 - 2 - i] && frames@.counts[e0 - 2 - i] == s3.counts[e0 - 2 - i] by {
                assert(e0 - 2 - i != e0 - 1);
            }
            lemma_built_kept(s3, frames@, layout@, e0, l1_index as int);
            lemma_free_kept(s3, frames@, layout@, lo, e0 - 2 - l1_index, l1_index * 512 + 512, -1);
            assert(frame == e0 - 2 - l1_index);
            assert(frames@.objects[frame as int] == s3.objects[frame as int]);
            assert(holds_l0_table(frames@, frame));
            assert forall|i: int| 0 <= i < l1_index + 1 implies {
                &&& #[trigger] holds_l0_table(frames@, (e0 - 2 - i) as nat)
                &&& forall|j: int|
                    0 <= j < TABLE_LEN ==> #[trigger] l0_entries(frames@, (e0 - 2 - i) as nat)[j]
                        == kernel_l0_bits(layout@, i, j)
            } by {
                if i < l1_index {
                    assert(holds_l0_table(frames@, (e0 - 2 - i) as nat));
                } else {
                    assert(l0_entries(frames@, frame) == l0_entries(s3, frame));
                    assert forall|j: int| 0 <= j < TABLE_LEN implies #[trigger] l0_entries(
                        frames@,
                        frame,
                    )[j] == kernel_l0_bits(layout@, i, j) by {
                        assert(l0_entries(s3, frame)[j] == kernel_l0_bits(layout@, l1_index as int, j));
                    }
                }
            }
            assert(kernel_l0_built(frames@, layout@, e0, l1_index + 1));
        }
        l1_index = l1_index + 1;
    }
    Some(l1)
}

/// The page of `image` that starts at byte `offset`, zero past its end.
pub open spec fn image_page(image: Seq<u8>, offset: int) -> Seq<u8> {
    Seq::new(L0_FRAME_SIZE as nat, |j: int| if offset + j < image.len() { image[offset + j] } else { 0u8 })
}

/// Page `offset / L0_FRAME_SIZE` of `image`: the bytes from `offset` on,
/// zero past the end of the image.
pub fn page_bytes(image: &[u8], offset: usize) -> (r: [u8; L0_FRAME_SIZE])
    ensures
        r@ == image_page(image@, offset as int),
{
    let mut bytes: [u8; L0_FRAME_SIZE] = [0u8; L0_FRAME_SIZE];
    let mut j: usize = 0;
    while j < L0_FRAME_SIZE
        invariant
            j <= L0_FRAME_SIZE,
            bytes@.len() == L0_FRAME_SIZE,
            forall|k: int|
                0 <= k < j ==> #[trigger] bytes@[k] == if offset + k < image@.len() {
                    image@[offset + k]
                } else {
                    0u8
                },
            forall|k: int| j <= k < L0_FRAME_SIZE ==> #[trigger] bytes@[k] == 0u8,
        decreases L0_FRAME_SIZE - j,
    {
        if offset < image.len() && j < image.len() - offset {
            bytes[j] = image[offset + j];
        }
        j = j + 1;
    }
    assert(bytes@ =~= image_page(image@, offset as int));
    bytes
}

/// The number of pages of an image of `len` bytes.
pub open spec fn image_pages(len: int) -> int {
    (len + 4095) / 4096
}

/// The frames that the first `pages` pages of a user image take: one per
/// page, one L0 table per 512 pages and one L1 table per 512 * 512 pages.
pub open spec fn user_image_frames(pages: int) -> int
    decreases pages,
{
    if pages <= 0 {
        0
    } else {
        user_image_frames(pages - 1) + 1 + (if (pages - 1) % 512 == 0 {
            1int
        } else {
            0int
        }) + (if (pages - 1) % 0x4_0000 == 0 {
            1int
        } else {
            0int
        })
    }
}

proof fn lemma_user_image_frames_grow(k: int, n: int)
    requires
        0 <= k <= n,
    ensures
        user_image_frames(k) <= user_image_frames(n),
    decreases n - k,
{
    if k < n {
        lemma_user_image_frames_grow(k, n - 1);
    }
}

/// `map_user_image` can have every frame it needs: the image fits below the
/// kernel half, and the allocator, whose range is `[start, end)`, holds at
/// its top one unused free frame for the L2 table and one for each page and
/// each L1 and L0 table the image takes.
pub open spec fn user_image_fits(s: FramesView, start: int, end: int, len: int) -> bool {
    &&& len <= 255 * L2_FRAME_SIZE
    &&& end <= FRAME_COUNT
    &&& start + 1 + user_image_frames(image_pages(len)) <= end
    &&& free_normal(s, end - 1 - user_image_frames(image_pages(len)), end)
}

/// Page `k` of `image` is mapped through the L1 table in frame `l1`, the L0
/// table in frame `l0` and the page in frame `p`, for user mode with every
/// permission.
pub open spec fn user_page_mapped(
    s: FramesView,
    l2: nat,
    image: Seq<u8>,
    k: int,
    l1: nat,
    l0: nat,
    p: nat,
) -> bool {
    &&& l2_entries(s, l2)[1 + k / 0x4_0000] == interior_bits(l1 as u64)
    &&& l1_entries(s, l1)[(k / 512) % 512] == interior_bits(l0 as u64)
    &&& l0_entries(s, l0)[k % 512] == leaf_bits(p as u64, Permissions::ReadWriteExecute, USER)
    &&& s.objects[p as int] == Some(ObjectView::Page(image_page(image, 4096 * k)))
}

/// Page `k` of `image` is mapped through some L1 table, L0 table and page.
pub open spec fn user_page_present(s: FramesView, l2: nat, image: Seq<u8>, k: int) -> bool {
    exists|l1: nat, l0: nat, p: nat| #[trigger] user_page_mapped(s, l2, image, k, l1, l0, p)
}

/// The tables and page that hold a placed page are live.
spec fn placed_live(s: FramesView, f: (nat, nat, nat)) -> bool {
    holds_l1_table(s, f.0) && holds_l0_table(s, f.1) && s.live(f.2)
}

/// Page `k`, in L1 slot `a`, L0 slot `b` and entry `c`, is mapped as `user_page_mapped` says.
spec fn placed_at(
    s: FramesView,
    l2: nat,
    image: Seq<u8>,
    k: int,
    abc: (int, int, int),
    f: (nat, nat, nat),
) -> bool {
    &&& k == abc.0 * 0x4_0000 + abc.1 * 512 + abc.2
    &&& 0 <= abc.0 && 0 <= abc.1 < 512 && 0 <= abc.2 < 512
    &&& l2_entries(s, l2)[1 + abc.0] == interior_bits(f.0 as u64)
    &&& l1_entries(s, f.0)[abc.1] == interior_bits(f.1 as u64)
    &&& l0_entries(s, f.1)[abc.2] == leaf_bits(f.2 as u64, Permissions::ReadWriteExecute, USER)
    &&& s.objects[f.2 as int] == Some(ObjectView::Page(image_page(image, 4096 * k)))
}

proof fn lemma_page_index(k: int, a: int, b: int, c: int)
    requires
        k == a * 0x4_0000 + b * 512 + c,
        0 <= a,
        0 <= b < 512,
        0 <= c < 512,
    ensures
        k / 0x4_0000 == a,
        (k / 512) % 512 == b,
        k % 512 == c,
        k % 0x4_0000 == b * 512 + c,
{
    vstd::arithmetic::div_mod::lemma_fundamental_div_mod_converse(k, 512, a * 512 + b, c);
    vstd::arithmetic::div_mod::lemma_fundamental_div_mod_converse(a * 512 + b, 512, a, b);
    vstd::arithmetic::div_mod::lemma_fundamental_div_mod_converse(k, 0x4_0000, a, b * 512 + c);
}

/// Builds a user address space holding `image` at `USERMODE_BASE_ADDR`,
/// from frames of `boot_alloc`: the L2 table takes the highest frame; the
/// image is cut into 1 GiB chunks, each under an L1 table, then into 2 MiB
/// chunks, each under an L0 table, then into pages, each copied,
/// zero-padded, into a page of free memory mapped for user mode with every
/// permission. Frames are taken in that order: an L1 table, then an L0
/// table, then its pages. `None` when a frame cannot be had or the image
/// reaches into the kernel half; when every frame it needs is there, it
/// succeeds.
pub fn map_user_image(
    frames: &mut Frames,
    boot_alloc: &mut BootAlloc,
    image: &[u8],
) -> (r: Option<L2TableCap>)
    requires
        old(frames).wf(),
        old(frames)@.kernel_l1_table matches Some(k) && old(frames)@.can_share(k),
    ensures
        final(frames).wf(),
        final(boot_alloc).start() == old(boot_alloc).start(),
        user_image_fits(
            old(frames)@,
            old(boot_alloc).start() as int,
            old(boot_alloc).end() as int,
            image@.len() as int,
        ) ==> r is Some,
        r matches Some(l2) ==> {
            &&& holds_l2_table(final(frames)@, l2@)
            &&& l2@ == old(boot_alloc).end() - 1
            &&& l2_entries(final(frames)@, l2@)[0] == 0
            &&& forall|i: int|
                256 <= i < TABLE_LEN ==> #[trigger] l2_entries(final(frames)@, l2@)[i]
                    == user_l2_bits(old(frames)@.kernel_l1_table->0)[i]
            &&& forall|k: int|
                0 <= k < image_pages(image@.len() as int) ==> #[trigger] user_page_present(
                    final(frames)@,
                    l2@,
                    image@,
                    k,
                )
        },
{
    let ghost kl1 = frames@.kernel_l1_table->0;
    let ghost e0 = boot_alloc.end() as int;
    let ghost n = image_pages(image@.len() as int);
    let ghost fits = user_image_fits(frames@, boot_alloc.start() as int, e0, image@.len() as int);
    let ghost lo = e0 - 1 - user_image_frames(n);
    proof {
        lemma_user_image_frames_grow(0, n);
    }
    let l2_frame = boot_alloc.alloc_frame()?;
    let ghost s0 = frames@;
    proof {
        if fits {
            assert(s0.claimable((e0 - 1) as nat, FrameKind::Normal));
        }
    }
    let l2 = L2TableCap::new(frames, l2_frame)?;
    proof {
        if fits {
            lemma_free_kept(s0, s0.share(kl1), Seq::empty(), lo, e0 - 1, 0, kl1 as int);
            lemma_free_kept(s0.share(kl1), frames@, Seq::empty(), lo, e0 - 1, 0, e0 - 1);
        }
        lemma_user_l2_template(kl1);
    }
    let mut l1: Option<L1TableCap> = None;
    let mut l0: Option<L0TableCap> = None;
    let mut offset: usize = 0;
    let mut l2_index: usize = USERMODE_BASE_ADDR / L2_FRAME_SIZE;
    let mut l1_index: usize = 0;
    let mut l0_index: usize = 0;
    let ghost mut k: int = 0;
    let ghost mut l1a: int = 0;
    let ghost mut l0b: int = 0;
    let ghost mut placed: Seq<(nat, nat, nat)> = Seq::empty();
    let ghost mut where_: Seq<(int, int, int)> = Seq::empty();
    while offset < image.len()
        invariant
            frames.wf(),
            e0 == old(boot_alloc).end(),
            n == image_pages(image@.len() as int),
            lo == e0 - 1 - user_image_frames(n),
            fits == user_image_fits(
                old(frames)@,
                old(boot_alloc).start() as int,
                e0,
                image@.len() as int,
            ),
            kl1 == old(frames)@.kernel_l1_table->0,
            holds_l2_table(frames@, l2@),
            l2@ == e0 - 1,
            boot_alloc.start() == old(boot_alloc).start(),
            boot_alloc.end() <= e0 - 1,
            l2_entries(frames@, l2@)[0] == 0,
            forall|i: int|
                256 <= i < TABLE_LEN ==> #[trigger] l2_entries(frames@, l2@)[i] == user_l2_bits(kl1)[i],
            1 <= l2_index,
            l1_index < 512,
            l0_index < 512,
            k == (l2_index - 1) * 0x4_0000 + l1_index * 512 + l0_index,
            0 <= k <= n,
            offset <= image@.len(),
            offset < image@.len() ==> offset == 4096 * k && k < n,
            offset == image@.len() ==> k == n,
            l1 matches Some(t) ==> {
                &&& holds_l1_table(frames@, t@)
                &&& t@ >= boot_alloc.end()
                &&& t@ < e0 - 1
                &&& 0 <= l1a
                &&& 1 + l1a < 256
                &&& l2_entries(frames@, l2@)[1 + l1a] == interior_bits(t@ as u64)
            },
            l0 matches Some(t) ==> {
                &&& holds_l0_table(frames@, t@)
                &&& t@ >= boot_alloc.end()
                &&& t@ < e0 - 1
                &&& 0 <= l0b < 512
                &&& l1 is Some
                &&& l1_entries(frames@, l1->0@)[l0b] == interior_bits(t@ as u64)
            },
            (l1_index != 0 || l0_index != 0) ==> l1 is Some && l1a == l2_index - 1,
            l0_index != 0 ==> l0 is Some && l0b == l1_index,
            placed.len() == k,
            where_.len() == k,
            forall|j: int|
                0 <= j < k ==> #[trigger] placed_at(frames@, l2@, image@, j, where_[j], placed[j]),
            forall|j: int|
                0 <= j < k ==> {
                    &&& (#[trigger] placed[j]).0 >= boot_alloc.end()
                    &&& placed[j].1 >= boot_alloc.end()
                    &&& placed[j].2 >= boot_alloc.end()
                    &&& placed_live(frames@, placed[j])
                    &&& (l1 is Some && placed[j].0 == l1->0@) ==> where_[j].0 == l1a
                    &&& (l0 is Some && placed[j].1 == l0->0@) ==> where_[j].0 == l1a
                        && where_[j].1 == l0b
                },
            fits ==> {
                &&& old(boot_alloc).start() as int <= lo
                &&& e0 <= FRAME_COUNT
                &&& image@.len() <= 255 * L2_FRAME_SIZE
                &&& free_normal(frames@, lo, boot_alloc.end() as int)
                &&& boot_alloc.end() - lo == user_image_frames(n) - user_image_frames(k)
            },
        decreases image@.len() - offset,
    {
        let ghost a = l2_index - 1;
        let ghost b = l1_index as int;
        let ghost c = l0_index as int;
        let ghost end0 = boot_alloc.end() as int;
        proof {
            lemma_page_index(k, a, b, c);
            if fits {
                lemma_user_image_frames_grow(k + 1, n);
                assert(n <= 255 * 0x4_0000) by (nonlinear_arith)
                    requires
                        n == (image@.len() + 4095) / 4096,
                        image@.len() <= 255 * 0x4000_0000,
                ;
            }
            assert forall|j: int| 0 <= j < k implies where_[j].0 <= a && (where_[j].0 == a ==> where_[j].1
                * 512 + where_[j].2 < b * 512 + c) by {
                assert(placed_at(frames@, l2@, image@, j, where_[j], placed[j]));
            }
        }
        if l0_index == 0 {
            if l1_index == 0 {
                if l2_index >= TABLE_LEN / 2 {
                    return None;
                }
                let f = boot_alloc.alloc_frame()?;
                let ghost s1 = frames@;
                proof {
                    if fits {
                        assert(s1.claimable(f@, FrameKind::Normal));
                    }
                }
                let t = L1TableCap::new(frames, f)?;
                let ghost s2 = frames@;
                let tf = t.frame_number();
                proof {
                    if fits {
                        lemma_free_kept(s1, s2, Seq::empty(), lo, boot_alloc.end() as int, 0, f@ as int);
                    }
                    assert forall|j: int| 0 <= j < k implies #[trigger] placed_at(s2, l2@, image@, j, where_[j], placed[j])
                        && placed_live(s2, placed[j]) by {
                        assert(placed_at(s1, l2@, image@, j, where_[j], placed[j]));
                        assert(placed[j].0 >= end0);
                    }
                }
                l2.map_l1_table(frames, l2_index, t);
                proof {
                    if fits {
                        lemma_free_kept(s2, frames@, Seq::empty(), lo, boot_alloc.end() as int, 0, -1);
                    }
                    assert forall|j: int| 0 <= j < k implies #[trigger] placed_at(frames@, l2@, image@, j, where_[j], placed[j])
                        && placed_live(frames@, placed[j]) by {
                        assert(placed_at(s2, l2@, image@, j, where_[j], placed[j]));
                        assert(where_[j].0 < a);
                    }
                }
                l1 = Some(L1TableCap::from_frame_number(tf));
                proof {
                    l1a = a;
                }
            }
            let ghost end1 = boot_alloc.end() as int;
            let f = boot_alloc.alloc_frame()?;
            let ghost s1 = frames@;
            proof {
                if fits {
                    assert(s1.claimable(f@, FrameKind::Normal));
                }
            }
            let t = L0TableCap::new(frames, f)?;
            let ghost s2 = frames@;
            let tf = t.frame_number();
            proof {
                if fits {
                    lemma_free_kept(s1, s2, Seq::empty(), lo, boot_alloc.end() as int, 0, f@ as int);
                }
                assert forall|j: int| 0 <= j < k implies #[trigger] placed_at(s2, l2@, image@, j, where_[j], placed[j])
                    && placed_live(s2, placed[j]) by {
                    assert(placed_at(s1, l2@, image@, j, where_[j], placed[j]));
                    assert(placed[j].0 >= end0);
                }
            }
            match &l1 {
                Some(cur) => {
                    cur.map_l0_table(frames, l1_index, t);
                },
                None => {},
            }
            proof {
                if fits {
                    lemma_free_kept(s2, frames@, Seq::empty(), lo, boot_alloc.end() as int, 0, -1);
                }
                assert forall|j: int| 0 <= j < k implies #[trigger] placed_at(frames@, l2@, image@, j, where_[j], placed[j])
                    && placed_live(frames@, placed[j]) by {
                    assert(placed_at(s2, l2@, image@, j, where_[j], placed[j]));
                    assert(placed[j].0 >= end0);
                    if placed[j].0 == l1->0@ {
                        assert(where_[j].0 == a);
                        assert(where_[j].1 < b);
                    }
                }
            }
            l0 = Some(L0TableCap::from_frame_number(tf));
            proof {
                l0b = b;
            }
        }
        let bytes = page_bytes(image, offset);
        let ghost end2 = boot_alloc.end() as int;
        let f = boot_alloc.alloc_frame()?;
        let ghost s1 = frames@;
        proof {
            if fits {
                assert(s1.claimable(f@, FrameKind::Normal));
            }
        }
        let page = NormalPageCap::new(frames, f, bytes)?;
        let ghost s2 = frames@;
        proof {
            if fits {
                lemma_free_kept(s1, s2, Seq::empty(), lo, boot_alloc.end() as int, 0, f@ as int);
            }
            assert forall|j: int| 0 <= j < k implies #[trigger] placed_at(s2, l2@, image@, j, where_[j], placed[j])
                && placed_live(s2, placed[j]) by {
                assert(placed_at(s1, l2@, image@, j, where_[j], placed[j]));
                assert(placed[j].2 >= end0);
            }
        }
        match &l0 {
            Some(cur) => {
                cur.map_l0_page(frames, l0_index, L0PageCap::Normal(page), Permissions::ReadWriteExecute);
            },
            None => {},
        }
        proof {
            if fits {
                lemma_free_kept(s2, frames@, Seq::empty(), lo, boot_alloc.end() as int, 0, -1);
            }
            assert forall|j: int| 0 <= j < k implies #[trigger] placed_at(frames@, l2@, image@, j, where_[j], placed[j])
                && placed_live(frames@, placed[j]) by {
                assert(placed_at(s2, l2@, image@, j, where_[j], placed[j]));
                assert(placed[j].0 >= end0);
                if placed[j].1 == l0->0@ {
                    assert(where_[j].0 == a && where_[j].1 == b);
                    assert(where_[j].2 < c);
                }
            }
            let here = (a, b, c);
            let fs = (l1->0@, l0->0@, f@);
            assert(placed_at(frames@, l2@, image@, k, here, fs));
            placed = placed.push(fs);
            where_ = where_.push(here);
            k = k + 1;
            assert forall|j: int| 0 <= j < k implies #[trigger] placed_at(frames@, l2@, image@, j, where_[j], placed[j]) by {
                if j < k - 1 {
                    assert(placed_at(frames@, l2@, image@, j, where_[j], placed[j]));
                }
            }
        }
        if image.len() - offset > L0_FRAME_SIZE {
            offset = offset + L0_FRAME_SIZE;
        } else {
            offset = image.len();
            proof {
                assert(k == n) by (nonlinear_arith)
                    requires
                        n == (image@.len() + 4095) / 4096,
                        4096 * (k - 1) < image@.len() <= 4096 * k,
                ;
            }
        }
        l0_index = l0_index + 1;
        if l0_index == TABLE_LEN {
            l0_index = 0;
            l1_index = l1_index + 1;
            if l1_index == TABLE_LEN {
                l1_index = 0;
                l2_index = l2_index + 1;
            }
        }
    }
    proof {
        assert forall|j: int| 0 <= j < image_pages(image@.len() as int) implies #[trigger] user_page_present(
            frames@,
            l2@,
            image@,
            j,
        ) by {
            let w = where_[j];
            assert(placed_at(frames@, l2@, image@, j, w, placed[j]));
            lemma_page_index(j, w.0, w.1, w.2);
            assert(user_page_mapped(frames@, l2@, image@, j, placed[j].0, placed[j].1, placed[j].2));
        }
    }
    Some(l2)
}

} // verus!
