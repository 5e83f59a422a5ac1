//! Capabilities for leaf pages.

use vstd::prelude::*;
use crate::frame::{ExternalArc, Frames, FrameKind, Idx, InternalArc, NormalArc, ObjectView};
use crate::machine::L0_FRAME_SIZE;

verus! {

/// A page of the kernel image, adopted as it is.
pub struct InternalPageCap {
    page: InternalArc<()>,
}

/// A page of free memory holding bytes the kernel copied in.
pub struct NormalPageCap {
    page: NormalArc<[u8; L0_FRAME_SIZE]>,
}

/// A page of device memory, adopted as it is.
pub struct ExternalPageCap {
    page: ExternalArc<()>,
}

impl View for InternalPageCap {
    type V = nat;

    closed spec fn view(&self) -> nat {
        self.page@
    }
}

impl View for NormalPageCap {
    type V = nat;

    closed spec fn view(&self) -> nat {
        self.page@
    }
}

impl View for ExternalPageCap {
    type V = nat;

    closed spec fn view(&self) -> nat {
        self.page@
    }
}

impl InternalPageCap {
    /// Adopts an internal frame; `None` when it is not internal or already in use.
    pub fn assume_init(frames: &mut Frames, frame_number: Idx) -> (r: Option<Self>)
        requires
            old(frames).wf(),
        ensures
            final(frames).wf(),
            r is Some <==> old(frames)@.claimable(frame_number@, FrameKind::Internal),
            match r {
                Some(p) => p@ == frame_number@ && final(frames)@ == old(frames)@.claim(frame_number@, None),
                None => final(frames)@ == old(frames)@,
            },
    {
        let page = InternalArc::assume_init(frames, frame_number)?;
        Some(InternalPageCap { page })
    }

    /// Gives up the capability as its frame number.
    pub fn into_frame_number(self) -> (r: Idx)
        ensures
            r@ == self@,
    {
        self.page.into_raw()
    }
}

impl NormalPageCap {
    /// Claims a free frame and copies `bytes` into it; `None` when the frame is
    /// not free memory or already in use.
    pub fn new(frames: &mut Frames, frame_number: Idx, bytes: [u8; L0_FRAME_SIZE]) -> (r: Option<Self>)
        requires
            old(frames).wf(),
        ensures
            final(frames).wf(),
            r is Some <==> old(frames)@.claimable(frame_number@, FrameKind::Normal),
            match r {
                Some(p) => p@ == frame_number@ && final(frames)@ == old(frames)@.claim(
                    frame_number@,
                    Some(ObjectView::Page(bytes@)),
                ),
                None => final(frames)@ == old(frames)@,
            },
    {
        let page = NormalArc::new(frames, frame_number, bytes)?;
        Some(NormalPageCap { page })
    }

    /// Gives up the capability as its frame number.
    pub fn into_frame_number(self) -> (r: Idx)
        ensures
            r@ == self@,
    {
        self.page.into_raw()
    }
}

impl ExternalPageCap {
    /// Adopts a device frame; `None` when it is not device memory or already in use.
    pub fn assume_init(frames: &mut Frames, frame_number: Idx) -> (r: Option<Self>)
        requires
            old(frames).wf(),
        ensures
            final(frames).wf(),
            r is Some <==> old(frames)@.claimable(frame_number@, FrameKind::External),
            match r {
                Some(p) => p@ == frame_number@ && final(frames)@ == old(frames)@.claim(frame_number@, None),
                None => final(frames)@ == old(frames)@,
            },
    {
        let page = ExternalArc::assume_init(frames, frame_number)?;
        Some(ExternalPageCap { page })
    }

    /// Gives up the capability as its frame number.
    pub fn into_frame_number(self) -> (r: Idx)
        ensures
            r@ == self@,
    {
        self.page.into_raw()
    }
}

/// A capability for a leaf page of any kind.
pub enum L0PageCap {
    Internal(InternalPageCap),
    Normal(NormalPageCap),
    External(ExternalPageCap),
}

impl View for L0PageCap {
    type V = nat;

    open spec fn view(&self) -> nat {
        match self {
            L0PageCap::Internal(p) => p@,
            L0PageCap::Normal(p) => p@,
            L0PageCap::External(p) => p@,
        }
    }
}

impl L0PageCap {
    /// Gives up the capability as its frame number.
    pub fn into_frame_number(self) -> (r: Idx)
        ensures
            r@ == self@,
    {
        match self {
            L0PageCap::Internal(p) => p.into_frame_number(),
            L0PageCap::Normal(p) => p.into_frame_number(),
            L0PageCap::External(p) => p.into_frame_number(),
        }
    }
}

} // verus!
