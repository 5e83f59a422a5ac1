//! Tracking of physical frames: their kinds, their reference counts and the
//! objects placed in them, with a counted handle type for those objects.
//!
//! Reference counts use four states: 0 is unused, 1 is reserved for the
//! moment of construction or destruction, and a live frame with `n` handles
//! holds `n + 1`.

use vstd::prelude::*;
use crate::machine::{FRAME_COUNT, L0_FRAME_SIZE};
use crate::table::{L0Entry, L1Entry, L1TableCap, L2Entry};
use crate::thread::{Call, CallView, Thread, ThreadView};
use core::marker::PhantomData;

verus! {

/// The index of one physical frame, always below `FRAME_COUNT`.
#[derive(Clone, Copy, Debug, PartialEq, Eq, Structural, Hash, PartialOrd, Ord)]
pub struct Idx(u32);

impl View for Idx {
    type V = nat;

    closed spec fn view(&self) -> nat {
        self.0 as nat
    }
}

impl Idx {
    #[verifier::type_invariant]
    closed spec fn inv(self) -> bool {
        self.0 < FRAME_COUNT
    }

    /// The frame index for `value`, or `None` when it is not below `FRAME_COUNT`.
    pub fn from_raw(value: usize) -> (r: Option<Self>)
        ensures
            r is Some <==> value < FRAME_COUNT,
            r matches Some(i) ==> i@ == value,
    {
        if value >= FRAME_COUNT {
            return None;
        }
        Some(Idx(value as u32))
    }

    /// The raw frame number.
    pub fn into_raw(&self) -> (r: usize)
        ensures
            r == self@,
            r < FRAME_COUNT,
    {
        proof {
            use_type_invariant(self);
        }
        self.0 as usize
    }

}

/// What a frame is used for, fixed when the registry is set up.
#[derive(Clone, Copy, Debug, PartialEq, Eq, Structural)]
pub enum FrameKind {
    /// Reserved by the firmware or holding the kernel image.
    Internal,
    /// Free memory, usable for kernel objects.
    Normal,
    /// Memory-mapped devices.
    External,
}

impl FrameKind {
    /// The kind a raw registry byte stands for: 0 internal, 1 normal,
    /// 2 external; `None` for any other byte.
    pub fn try_from_raw(val: u8) -> (r: Option<FrameKind>)
        ensures
            val == 0 ==> r == Some(FrameKind::Internal),
            val == 1 ==> r == Some(FrameKind::Normal),
            val == 2 ==> r == Some(FrameKind::External),
            val > 2 ==> r is None,
    {
        match val {
            0 => Some(FrameKind::Internal),
            1 => Some(FrameKind::Normal),
            2 => Some(FrameKind::External),
            _ => None,
        }
    }

    /// The raw registry byte for this kind.
    pub fn into_raw(self) -> (r: u8)
        ensures
            r == match self {
                FrameKind::Internal => 0u8,
                FrameKind::Normal => 1u8,
                FrameKind::External => 2u8,
            },
    {
        match self {
            FrameKind::Internal => 0,
            FrameKind::Normal => 1,
            FrameKind::External => 2,
        }
    }
}

/// An object placed in a frame.
pub enum Object {
    L2Table(Vec<L2Entry>),
    L1Table(Vec<L1Entry>),
    L0Table(Vec<L0Entry>),
    Page(Box<[u8; L0_FRAME_SIZE]>),
    Thread(Box<Thread>),
    Call(Call),
}

/// The mathematical value of an object placed in a frame: tables are given
/// by the raw bits of their entries and handles by their frame numbers.
pub enum ObjectView {
    L2Table(Seq<u64>),
    L1Table(Seq<u64>),
    L0Table(Seq<u64>),
    Page(Seq<u8>),
    Thread(ThreadView),
    Call(CallView),
}

pub open spec fn entry_bits<E: View<V = u64>>(entries: Seq<E>) -> Seq<u64> {
    entries.map_values(|e: E| e@)
}

impl View for Object {
    type V = ObjectView;

    open spec fn view(&self) -> ObjectView {
        match self {
            Object::L2Table(e) => ObjectView::L2Table(entry_bits(e@)),
            Object::L1Table(e) => ObjectView::L1Table(entry_bits(e@)),
            Object::L0Table(e) => ObjectView::L0Table(entry_bits(e@)),
            Object::Page(b) => ObjectView::Page(b@),
            Object::Thread(t) => ObjectView::Thread(t@),
            Object::Call(c) => ObjectView::Call(c@),
        }
    }
}

pub open spec fn option_view(o: Option<Object>) -> Option<ObjectView> {
    match o {
        Some(o) => Some(o@),
        None => None,
    }
}

/// The state of every frame: its kind, its reference count, the object in
/// it, the base of the virtual window through which frames are reached, and
/// the shared kernel L1 table.
pub struct FramesView {
    pub kinds: Seq<FrameKind>,
    pub counts: Seq<nat>,
    pub objects: Seq<Option<ObjectView>>,
    pub mapping_addr: nat,
    pub kernel_l1_table: Option<nat>,
}

impl FramesView {
    /// A frame can be claimed for `kind` when it has that kind and is unused.
    pub open spec fn claimable(self, i: nat, kind: FrameKind) -> bool {
        &&& i < FRAME_COUNT
        &&& self.kinds[i as int] == kind
        &&& self.counts[i as int] == 0
    }

    /// A frame is live when at least one handle refers to it.
    pub open spec fn live(self, i: nat) -> bool {
        i < FRAME_COUNT && self.counts[i as int] >= 2
    }

    /// A live frame can take one more handle without its count passing half of `u32::MAX`.
    pub open spec fn can_share(self, i: nat) -> bool {
        self.live(i) && self.counts[i as int] < u32::MAX / 2
    }

    /// The state after frame `i` is claimed by its first handle with object `o`.
    pub open spec fn claim(self, i: nat, o: Option<ObjectView>) -> FramesView {
        FramesView {
            counts: self.counts.update(i as int, 2),
            objects: self.objects.update(i as int, o),
            ..self
        }
    }

    /// The state after one more handle to frame `i` is made.
    pub open spec fn share(self, i: nat) -> FramesView {
        FramesView { counts: self.counts.update(i as int, (self.counts[i as int] + 1) as nat), ..self }
    }

    /// The state after one handle to frame `i` goes: the last one returns the
    /// frame to unused and takes its object out.
    pub open spec fn unshare(self, i: nat) -> FramesView {
        if self.counts[i as int] == 2 {
            FramesView {
                counts: self.counts.update(i as int, 0),
                objects: self.objects.update(i as int, None),
                ..self
            }
        } else {
            FramesView { counts: self.counts.update(i as int, (self.counts[i as int] - 1) as nat), ..self }
        }
    }

    /// The state with the object in frame `i` replaced by `o`.
    pub open spec fn put(self, i: nat, o: ObjectView) -> FramesView {
        FramesView { objects: self.objects.update(i as int, Some(o)), ..self }
    }
}

/// Putting an object back where one was taken out is putting it there.
pub proof fn lemma_put_after_take(s: FramesView, i: nat, o: ObjectView)
    requires
        i < s.objects.len(),
    ensures
        (FramesView { objects: s.objects.update(i as int, None), ..s }).put(i, o) == s.put(i, o),
{
    assert(s.objects.update(i as int, None).update(i as int, Some(o)) =~= s.objects.update(
        i as int,
        Some(o),
    ));
}

/// Putting back the object that was taken out restores the state.
pub proof fn lemma_put_back(s: FramesView, i: nat)
    requires
        i < s.objects.len(),
        s.objects[i as int] is Some,
    ensures
        (FramesView { objects: s.objects.update(i as int, None), ..s }).put(i, s.objects[i as int]->0) == s,
{
    assert(s.objects.update(i as int, None).update(i as int, s.objects[i as int]) =~= s.objects);
}

/// The frame registry and the objects placed in frames.
pub struct Frames {
    kinds: Vec<FrameKind>,
    counts: Vec<u32>,
    objects: Vec<Option<Object>>,
    mapping_addr: usize,
    kernel_l1_table: Option<L1TableCap>,
}

impl View for Frames {
    type V = FramesView;

    closed spec fn view(&self) -> FramesView {
        FramesView {
            kinds: self.kinds@,
            counts: self.counts@.map_values(|c: u32| c as nat),
            objects: self.objects@.map_values(|o: Option<Object>| option_view(o)),
            mapping_addr: self.mapping_addr as nat,
            kernel_l1_table: match self.kernel_l1_table {
                Some(t) => Some(t@),
                None => None,
            },
        }
    }
}

impl Frames {
    /// The registry covers every frame.
    pub open spec fn wf(&self) -> bool {
        &&& self.inv()
        &&& self@.kinds.len() == FRAME_COUNT
        &&& self@.counts.len() == FRAME_COUNT
        &&& self@.objects.len() == FRAME_COUNT
    }

    /// A frame at rest is never in the transient state 1, and an unused frame
    /// holds no object.
    pub closed spec fn inv(&self) -> bool {
        &&& self.kinds@.len() == FRAME_COUNT
        &&& self.counts@.len() == FRAME_COUNT
        &&& self.objects@.len() == FRAME_COUNT
        &&& forall|i: int| 0 <= i < FRAME_COUNT ==> #[trigger] self.counts@[i] != 1
        &&& forall|i: int|
            0 <= i < FRAME_COUNT && self.counts@[i] == 0 ==> #[trigger] self.objects@[i] is None
    }

    /// A registry in which every frame is internal and unused, with no
    /// mapping window and no kernel L1 table.
    pub fn new() -> (r: Self)
        ensures
            r.wf(),
            r@.kinds =~= Seq::new(FRAME_COUNT as nat, |i: int| FrameKind::Internal),
            r@.counts =~= Seq::new(FRAME_COUNT as nat, |i: int| 0nat),
            r@.objects =~= Seq::new(FRAME_COUNT as nat, |i: int| None::<ObjectView>),
            r@.mapping_addr == 0,
            r@.kernel_l1_table is None,
    {
        let mut kinds: Vec<FrameKind> = Vec::new();
        let mut counts: Vec<u32> = Vec::new();
        let mut objects: Vec<Option<Object>> = Vec::new();
        let mut i: usize = 0;
        while i < FRAME_COUNT
            invariant
                i <= FRAME_COUNT,
                kinds@.len() == i,
                counts@.len() == i,
                objects@.len() == i,
                forall|j: int| 0 <= j < i ==> kinds@[j] == FrameKind::Internal,
                forall|j: int| 0 <= j < i ==> counts@[j] == 0,
                forall|j: int| 0 <= j < i ==> objects@[j] is None,
            decreases FRAME_COUNT - i,
        {
            kinds.push(FrameKind::Internal);
            counts.push(0);
            objects.push(None);
            i = i + 1;
        }
        let r = Frames { kinds, counts, objects, mapping_addr: 0, kernel_l1_table: None };
        assert(r@.objects =~= Seq::new(FRAME_COUNT as nat, |i: int| None::<ObjectView>));
        r
    }

    /// Installs the base of the virtual window through which frames are reached.
    pub fn set_frame_mapping_addr(&mut self, addr: usize)
        requires
            old(self).wf(),
        ensures
            final(self).wf(),
            final(self)@ == (FramesView { mapping_addr: addr as nat, ..old(self)@ }),
    {
        self.mapping_addr = addr;
    }

    fn set_kind(&mut self, idx: Idx, kind: FrameKind)
        requires
            old(self).wf(),
        ensures
            final(self).wf(),
            final(self)@ == (FramesView {
                kinds: old(self)@.kinds.update(idx@ as int, kind),
                ..old(self)@
            }),
    {
        let i = idx.into_raw();
        self.kinds.set(i, kind);
        assert(self@.counts =~= old(self)@.counts);
        assert(self@.objects =~= old(self)@.objects);
    }

    /// Marks a frame as free memory. Meant for setup, before any handle exists.
    pub fn mark_normal(&mut self, idx: Idx)
        requires
            old(self).wf(),
        ensures
            final(self).wf(),
            final(self)@ == (FramesView {
                kinds: old(self)@.kinds.update(idx@ as int, FrameKind::Normal),
                ..old(self)@
            }),
    {
        self.set_kind(idx, FrameKind::Normal);
    }

    /// Marks a frame as device memory. Meant for setup, before any handle exists.
    pub fn mark_device(&mut self, idx: Idx)
        requires
            old(self).wf(),
        ensures
            final(self).wf(),
            final(self)@ == (FramesView {
                kinds: old(self)@.kinds.update(idx@ as int, FrameKind::External),
                ..old(self)@
            }),
    {
        self.set_kind(idx, FrameKind::External);
    }

    /// The kind of a frame.
    pub fn kind(&self, idx: Idx) -> (r: FrameKind)
        requires
            self.wf(),
        ensures
            r == self@.kinds[idx@ as int],
            idx@ < FRAME_COUNT,
    {
        self.kinds[idx.into_raw()]
    }

    /// The reference count of a frame.
    pub fn ref_count(&self, idx: Idx) -> (r: u32)
        requires
            self.wf(),
        ensures
            r == self@.counts[idx@ as int],
            idx@ < FRAME_COUNT,
    {
        self.counts[idx.into_raw()]
    }

    /// The object in a frame, if any.
    pub fn object(&self, idx: Idx) -> (r: &Option<Object>)
        requires
            self.wf(),
        ensures
            option_view(*r) == self@.objects[idx@ as int],
    {
        &self.objects[idx.into_raw()]
    }

    /// Takes the object out of a live frame, to be put back with `put_object`.
    pub(crate) fn take_object(&mut self, idx: Idx) -> (r: Option<Object>)
        requires
            old(self).wf(),
            old(self)@.live(idx@),
        ensures
            final(self).wf(),
            option_view(r) == old(self)@.objects[idx@ as int],
            final(self)@ == (FramesView {
                objects: old(self)@.objects.update(idx@ as int, None),
                ..old(self)@
            }),
    {
        let i = idx.into_raw();
        let mut o: Option<Object> = None;
        core::mem::swap(&mut o, &mut self.objects[i]);
        assert(self@.objects =~= old(self)@.objects.update(idx@ as int, None));
        assert(self@.counts =~= old(self)@.counts);
        o
    }

    /// Places an object in a live frame.
    pub(crate) fn put_object(&mut self, idx: Idx, o: Object)
        requires
            old(self).wf(),
            old(self)@.live(idx@),
        ensures
            final(self).wf(),
            final(self)@ == old(self)@.put(idx@, o@),
    {
        let i = idx.into_raw();
        self.objects.set(i, Some(o));
        assert(self@.objects =~= old(self)@.objects.update(idx@ as int, Some(o@)));
        assert(self@.counts =~= old(self)@.counts);
    }

    /// Adds one unit to the count of a live frame, for a new handle to it.
    pub(crate) fn share(&mut self, idx: Idx)
        requires
            old(self).wf(),
            old(self)@.can_share(idx@),
        ensures
            final(self).wf(),
            final(self)@ == old(self)@.share(idx@),
    {
        let i = idx.into_raw();
        let c = self.counts[i];
        self.counts.set(i, c + 1);
        let ghost old_view = old(self)@;
        assert(self@.counts =~= old_view.counts.update(i as int, (c + 1) as nat));
        assert(self@.objects =~= old_view.objects);
    }

    /// The shared kernel L1 table, if installed.
    pub fn kernel_l1_table(&self) -> (r: &Option<L1TableCap>)
        ensures
            match *r {
                Some(t) => self@.kernel_l1_table == Some(t@),
                None => self@.kernel_l1_table is None,
            },
    {
        &self.kernel_l1_table
    }

    /// Swaps the kernel L1 slot with `t`.
    pub(crate) fn replace_kernel_l1_table(&mut self, t: Option<L1TableCap>) -> (r: Option<L1TableCap>)
        requires
            old(self).wf(),
        ensures
            final(self).wf(),
            final(self)@ == (FramesView {
                kernel_l1_table: match t {
                    Some(t) => Some(t@),
                    None => None,
                },
                ..old(self)@
            }),
            match r {
                Some(p) => old(self)@.kernel_l1_table == Some(p@),
                None => old(self)@.kernel_l1_table is None,
            },
    {
        let mut t = t;
        core::mem::swap(&mut t, &mut self.kernel_l1_table);
        t
    }
}

/// The kind of frame a handle type may claim.
pub trait ArcPolicy {
    spec fn spec_kind() -> FrameKind;

    fn kind() -> (k: FrameKind)
        ensures
            k == Self::spec_kind(),
    ;
}

/// Handles to firmware or kernel-image frames.
pub struct InternalPolicy;

/// Handles to objects the kernel places in free memory.
pub struct NormalPolicy;

/// Handles to device memory.
pub struct ExternalPolicy;

impl ArcPolicy for InternalPolicy {
    open spec fn spec_kind() -> FrameKind {
        FrameKind::Internal
    }

    fn kind() -> (k: FrameKind) {
        FrameKind::Internal
    }
}

impl ArcPolicy for NormalPolicy {
    open spec fn spec_kind() -> FrameKind {
        FrameKind::Normal
    }

    fn kind() -> (k: FrameKind) {
        FrameKind::Normal
    }
}

impl ArcPolicy for ExternalPolicy {
    open spec fn spec_kind() -> FrameKind {
        FrameKind::External
    }

    fn kind() -> (k: FrameKind) {
        FrameKind::External
    }
}

/// A value that can be placed in a frame.
pub trait Payload: Sized {
    spec fn payload_view(&self) -> ObjectView;

    fn into_object(self) -> (o: Object)
        ensures
            o@ == self.payload_view(),
    ;
}

impl Payload for Vec<L2Entry> {
    open spec fn payload_view(&self) -> ObjectView {
        ObjectView::L2Table(entry_bits(self@))
    }

    fn into_object(self) -> (o: Object) {
        Object::L2Table(self)
    }
}

impl Payload for Vec<L1Entry> {
    open spec fn payload_view(&self) -> ObjectView {
        ObjectView::L1Table(entry_bits(self@))
    }

    fn into_object(self) -> (o: Object) {
        Object::L1Table(self)
    }
}

impl Payload for Vec<L0Entry> {
    open spec fn payload_view(&self) -> ObjectView {
        ObjectView::L0Table(entry_bits(self@))
    }

    fn into_object(self) -> (o: Object) {
        Object::L0Table(self)
    }
}

impl Payload for [u8; L0_FRAME_SIZE] {
    open spec fn payload_view(&self) -> ObjectView {
        ObjectView::Page(self@)
    }

    fn into_object(self) -> (o: Object) {
        Object::Page(Box::new(self))
    }
}

impl Payload for Thread {
    open spec fn payload_view(&self) -> ObjectView {
        ObjectView::Thread(self@)
    }

    fn into_object(self) -> (o: Object) {
        Object::Thread(Box::new(self))
    }
}

impl Payload for Call {
    open spec fn payload_view(&self) -> ObjectView {
        ObjectView::Call(self@)
    }

    fn into_object(self) -> (o: Object) {
        Object::Call(self)
    }
}

/// A counted handle to a `T` placed in a frame of the kind `P` admits.
///
/// The handle holds only the frame index; the count and the object live in
/// the registry. Each handle accounts for one unit of the frame's count and
/// is given back with `drop`.
pub struct Arc<T, P: ArcPolicy> {
    idx: Idx,
    _t: PhantomData<T>,
    _policy: PhantomData<P>,
}

impl<T, P: ArcPolicy> View for Arc<T, P> {
    type V = nat;

    closed spec fn view(&self) -> nat {
        self.idx@
    }
}

pub type InternalArc<T> = Arc<T, InternalPolicy>;

pub type NormalArc<T> = Arc<T, NormalPolicy>;

pub type ExternalArc<T> = Arc<T, ExternalPolicy>;

impl<T: Payload> Arc<T, NormalPolicy> {
    /// Places `t` in frame `idx`, which must be free memory and unused.
    pub fn new(frames: &mut Frames, idx: Idx, t: T) -> (r: Option<Self>)
        requires
            old(frames).wf(),
        ensures
            final(frames).wf(),
            r is Some <==> old(frames)@.claimable(idx@, FrameKind::Normal),
            match r {
                Some(a) => a@ == idx@ && final(frames)@ == old(frames)@.claim(
                    idx@,
                    Some(t.payload_view()),
                ),
                None => final(frames)@ == old(frames)@,
            },
    {
        let o = t.into_object();
        Self::new_with(frames, idx, Some(o))
    }
}

impl<T, P: ArcPolicy> Arc<T, P> {
    /// Adopts frame `idx`, whose contents are already in place, when its kind
    /// is the one `P` admits and it is unused.
    pub fn assume_init(frames: &mut Frames, idx: Idx) -> (r: Option<Self>)
        requires
            old(frames).wf(),
        ensures
            final(frames).wf(),
            r is Some <==> old(frames)@.claimable(idx@, P::spec_kind()),
            match r {
                Some(a) => a@ == idx@ && final(frames)@ == old(frames)@.claim(idx@, None),
                None => final(frames)@ == old(frames)@,
            },
    {
        Self::new_with(frames, idx, None)
    }

    fn new_with(frames: &mut Frames, idx: Idx, o: Option<Object>) -> (r: Option<Self>)
        requires
            old(frames).wf(),
        ensures
            final(frames).wf(),
            r is Some <==> old(frames)@.claimable(idx@, P::spec_kind()),
            match r {
                Some(a) => a@ == idx@ && final(frames)@ == old(frames)@.claim(idx@, option_view(o)),
                None => final(frames)@ == old(frames)@,
            },
    {
        let i = idx.into_raw();
        if frames.kinds[i] != P::kind() {
            return None;
        }
        if frames.counts[i] != 0 {
            return None;
        }
        frames.counts.set(i, 1);
        frames.objects.set(i, o);
        frames.counts.set(i, 2);
        let ghost old_view = old(frames)@;
        assert(frames@.counts =~= old_view.counts.update(i as int, 2));
        assert(frames@.objects =~= old_view.objects.update(i as int, option_view(o)));
        Some(Arc { idx, _t: PhantomData, _policy: PhantomData })
    }

    /// The kind, reference count and virtual address of frame `idx`.
    fn frame(frames: &Frames, idx: Idx) -> (r: (FrameKind, u32, usize))
        requires
            frames.wf(),
            frames@.mapping_addr != 0,
            frames@.mapping_addr + FRAME_COUNT * L0_FRAME_SIZE <= usize::MAX,
        ensures
            r.0 == frames@.kinds[idx@ as int],
            r.1 == frames@.counts[idx@ as int],
            r.2 == frames@.mapping_addr + idx@ * L0_FRAME_SIZE,
    {
        let i = idx.into_raw();
        let addr = frames.mapping_addr + i * L0_FRAME_SIZE;
        (frames.kinds[i], frames.counts[i], addr)
    }

    /// The virtual address at which this handle's object is reached.
    pub fn addr(&self, frames: &Frames) -> (r: usize)
        requires
            frames.wf(),
            frames@.mapping_addr != 0,
            frames@.mapping_addr + FRAME_COUNT * L0_FRAME_SIZE <= usize::MAX,
        ensures
            r == frames@.mapping_addr + self@ * L0_FRAME_SIZE,
    {
        Self::frame(frames, self.idx).2
    }

    /// The frame index of this handle.
    pub fn idx(&self) -> (r: Idx)
        ensures
            r@ == self@,
    {
        self.idx
    }

    /// Gives up the handle as a bare frame index, keeping its unit of the count.
    pub fn into_raw(self) -> (r: Idx)
        ensures
            r@ == self@,
    {
        self.idx
    }

    /// Takes back a handle given up by `into_raw`.
    pub fn from_raw(idx: Idx) -> (r: Self)
        ensures
            r@ == idx@,
    {
        Arc { idx, _t: PhantomData, _policy: PhantomData }
    }

    /// One more handle to the same frame.
    pub fn clone(&self, frames: &mut Frames) -> (r: Self)
        requires
            old(frames).wf(),
            old(frames)@.can_share(self@),
        ensures
            final(frames).wf(),
            r@ == self@,
            final(frames)@ == old(frames)@.share(self@),
    {
        frames.share(self.idx);
        Arc { idx: self.idx, _t: PhantomData, _policy: PhantomData }
    }

    /// Gives the handle back. The last handle returns the frame to unused and
    /// hands out its object, whose own handles the caller then gives back.
    pub fn drop(self, frames: &mut Frames) -> (r: Option<Object>)
        requires
            old(frames).wf(),
            old(frames)@.live(self@),
        ensures
            final(frames).wf(),
            final(frames)@ == old(frames)@.unshare(self@),
            old(frames)@.counts[self@ as int] == 2 ==> option_view(r) == old(frames)@.objects[self@ as int],
            old(frames)@.counts[self@ as int] != 2 ==> r is None,
    {
        let i = self.idx.into_raw();
        let c = frames.counts[i];
        frames.counts.set(i, c - 1);
        let ghost old_view = old(frames)@;
        if c - 1 == 1 {
            let mut o: Option<Object> = None;
            core::mem::swap(&mut o, &mut frames.objects[i]);
            frames.counts.set(i, 0);
            assert(frames@.counts =~= old_view.counts.update(i as int, 0));
            assert(frames@.objects =~= old_view.objects.update(i as int, None));
            o
        } else {
            assert(frames@.counts =~= old_view.counts.update(i as int, (c - 1) as nat));
            assert(frames@.objects =~= old_view.objects);
            None
        }
    }
}

/// An operation on the handles of one frame: `New` claims it with an object
/// (as `Arc::new` or `assume_init` do), the others act on a handle to it.
pub enum HandleOp {
    New(Option<ObjectView>),
    Clone,
    Drop,
    IntoRaw,
    FromRaw,
}

/// The state after `op` on frame `i`.
pub open spec fn handle_step(s: FramesView, i: nat, op: HandleOp) -> FramesView {
    match op {
        HandleOp::New(o) => s.claim(i, o),
        HandleOp::Clone => s.share(i),
        HandleOp::Drop => s.unshare(i),
        HandleOp::IntoRaw => s,
        HandleOp::FromRaw => s,
    }
}

/// How many handles (bare indices from `into_raw` included) to the frame
/// are left after `ops`.
pub open spec fn net_handles(ops: Seq<HandleOp>) -> int
    decreases ops.len(),
{
    if ops.len() == 0 {
        0
    } else {
        net_handles(ops.drop_last()) + match ops.last() {
            HandleOp::New(_) => 1int,
            HandleOp::Clone => 1int,
            HandleOp::Drop => -1int,
            _ => 0int,
        }
    }
}

/// The state after `ops` on frame `i`, in order.
pub open spec fn apply_ops(s: FramesView, i: nat, ops: Seq<HandleOp>) -> FramesView
    decreases ops.len(),
{
    if ops.len() == 0 {
        s
    } else {
        handle_step(apply_ops(s, i, ops.drop_last()), i, ops.last())
    }
}

/// How many of `ops` gave back the last handle, destroying the object.
pub open spec fn destructions(s: FramesView, i: nat, ops: Seq<HandleOp>) -> int
    decreases ops.len(),
{
    if ops.len() == 0 {
        0
    } else {
        destructions(s, i, ops.drop_last()) + if ops.last() is Drop && apply_ops(
            s,
            i,
            ops.drop_last(),
        ).counts[i as int] == 2 {
            1int
        } else {
            0int
        }
    }
}

/// How many lifetimes of the frame `ops` end: drops of the last handle.
pub open spec fn lifetimes_ended(ops: Seq<HandleOp>) -> int
    decreases ops.len(),
{
    if ops.len() == 0 {
        0
    } else {
        lifetimes_ended(ops.drop_last()) + if ops.last() is Drop && net_handles(ops.drop_last())
            == 1 {
            1int
        } else {
            0int
        }
    }
}

/// The object of the latest `New` of `ops`.
pub open spec fn latest_object(ops: Seq<HandleOp>) -> Option<ObjectView>
    decreases ops.len(),
{
    if ops.len() == 0 {
        None
    } else {
        match ops.last() {
            HandleOp::New(o) => o,
            _ => latest_object(ops.drop_last()),
        }
    }
}

/// `ops` claim the frame only while it has no handle, and act on a handle
/// only while one is left.
pub open spec fn ops_valid(ops: Seq<HandleOp>) -> bool {
    forall|k: int|
        0 <= k < ops.len() ==> if ops[k] is New {
            net_handles(#[trigger] ops.take(k)) == 0
        } else {
            net_handles(ops.take(k)) >= 1
        }
}

/// A claimed frame cannot be claimed again, for any kind and object: of two
/// attempts to claim one frame, exactly one succeeds.
pub proof fn lemma_claim_unique(
    s: FramesView,
    i: nat,
    kind: FrameKind,
    o: Option<ObjectView>,
    kind2: FrameKind,
    o2: Option<ObjectView>,
)
    requires
        s.counts.len() == FRAME_COUNT,
        s.claimable(i, kind),
    ensures
        !s.claim(i, o).claimable(i, kind2),
        s.claim(i, o).live(i),
        s.claim(i, o).share(i).live(i),
        !s.claim(i, o).share(i).claimable(i, kind2),
{
}

/// Reference counts balance: after any valid run of `new`, `clone`,
/// `drop`, `into_raw` and `from_raw` on a frame that starts unused, the
/// frame's count is one more than its handles while any is left and the
/// unused sentinel once none is; each `new` finds the frame claimable; the
/// object of the latest `new` stays until its last handle goes; and the
/// objects are destroyed exactly once per lifetime that ended.
pub proof fn lemma_refcount_balance(s: FramesView, i: nat, kind: FrameKind, ops: Seq<HandleOp>)
    requires
        s.counts.len() == FRAME_COUNT,
        s.objects.len() == FRAME_COUNT,
        s.claimable(i, kind),
        s.objects[i as int] is None,
        ops_valid(ops),
    ensures
        net_handles(ops) >= 0,
        forall|k: int|
            0 <= k < ops.len() && ops[k] is New ==> #[trigger] apply_ops(s, i, ops.take(k)).claimable(
                i,
                kind,
            ),
        net_handles(ops) == 0 ==> {
            &&& apply_ops(s, i, ops).counts[i as int] == 0
            &&& apply_ops(s, i, ops).objects[i as int] is None
        },
        net_handles(ops) > 0 ==> {
            &&& apply_ops(s, i, ops).counts[i as int] == net_handles(ops) + 1
            &&& apply_ops(s, i, ops).objects[i as int] == latest_object(ops)
        },
        destructions(s, i, ops) == lifetimes_ended(ops),
        apply_ops(s, i, ops).kinds == s.kinds,
        apply_ops(s, i, ops).counts.len() == FRAME_COUNT,
        apply_ops(s, i, ops).objects.len() == FRAME_COUNT,
    decreases ops.len(),
{
    if ops.len() > 0 {
        let prev = ops.drop_last();
        assert forall|k: int| 0 <= k < prev.len() implies (if prev[k] is New {
            net_handles(#[trigger] prev.take(k)) == 0
        } else {
            net_handles(prev.take(k)) >= 1
        }) by {
            assert(prev.take(k) =~= ops.take(k));
            assert(ops[k] == prev[k]);
        }
        lemma_refcount_balance(s, i, kind, prev);
        assert(ops.take(ops.len() - 1) =~= prev);
        assert forall|k: int|
            0 <= k < ops.len() && ops[k] is New implies #[trigger] apply_ops(s, i, ops.take(k)).claimable(
            i,
            kind,
        ) by {
            if k < prev.len() {
                assert(prev.take(k) =~= ops.take(k));
                assert(prev[k] == ops[k]);
            }
        }
    }
}

} // verus!
