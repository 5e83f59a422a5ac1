//! Threads, their register contexts and call stacks, and the capabilities
//! for threads and for calls into other address spaces.

use vstd::prelude::*;
use crate::frame::{lemma_put_after_take, lemma_put_back, Frames, FramesView, FrameKind, Idx, NormalArc, Object, ObjectView};
use crate::table::{L2TableCap, SATP_MODE_SV39};
use crate::machine::FRAME_COUNT;

verus! {

/// How many calls a thread's call stack holds.
pub const MAX_DEPTH: usize = 8;

/// The general-purpose registers of a hart, in the order the save and
/// restore code expects.
#[derive(Clone, Copy, Debug)]
pub struct Context {
    pub ra: usize,
    pub pc: usize,
    pub sp: usize,
    pub gp: usize,
    pub tp: usize,
    pub t: [usize; 7],
    pub s: [usize; 12],
    pub a: [usize; 8],
}

impl Default for Context {
    fn default() -> (r: Self)
        ensures
            r.ra == 0 && r.pc == 0 && r.sp == 0 && r.gp == 0 && r.tp == 0,
            forall|i: int| 0 <= i < 7 ==> r.t[i] == 0,
            forall|i: int| 0 <= i < 12 ==> r.s[i] == 0,
            forall|i: int| 0 <= i < 8 ==> r.a[i] == 0,
    {
        Context {
            ra: 0,
            pc: 0,
            sp: 0,
            gp: 0,
            tp: 0,
            t: [0usize; 7],
            s: [0usize; 12],
            a: [0usize; 8],
        }
    }
}

/// Where a call resumes: a program counter, a stack pointer and an address space.
pub struct Call {
    pc: usize,
    sp: usize,
    l2_table: L2TableCap,
}

pub struct CallView {
    pub pc: usize,
    pub sp: usize,
    pub l2_table: nat,
}

impl View for Call {
    type V = CallView;

    closed spec fn view(&self) -> CallView {
        CallView { pc: self.pc, sp: self.sp, l2_table: self.l2_table@ }
    }
}

/// A bounded stack of calls.
pub struct CallStack {
    calls: Vec<Call>,
}

impl View for CallStack {
    type V = Seq<CallView>;

    closed spec fn view(&self) -> Seq<CallView> {
        self.calls@.map_values(|c: Call| c@)
    }
}

impl CallStack {
    pub fn empty() -> (r: Self)
        ensures
            r@ == Seq::<CallView>::empty(),
    {
        let r = CallStack { calls: Vec::new() };
        assert(r@ =~= Seq::<CallView>::empty());
        r
    }

    /// The number of calls on the stack.
    pub fn depth(&self) -> (r: usize)
        ensures
            r == self@.len(),
    {
        self.calls.len()
    }

    /// Pushes `call`, or hands it back when the stack is full.
    pub fn push(&mut self, call: Call) -> (r: Result<(), Call>)
        ensures
            r is Ok <==> old(self)@.len() < MAX_DEPTH,
            match r {
                Ok(()) => final(self)@ == old(self)@.push(call@),
                Err(c) => c == call && final(self)@ == old(self)@,
            },
    {
        if self.calls.len() >= MAX_DEPTH {
            return Err(call);
        }
        self.calls.push(call);
        assert(self@ =~= old(self)@.push(call@));
        Ok(())
    }

    /// Pops the most recent call, or `None` when the stack is empty.
    pub fn pop(&mut self) -> (r: Option<Call>)
        ensures
            r is Some <==> old(self)@.len() > 0,
            match r {
                Some(c) => c@ == old(self)@.last() && final(self)@ == old(self)@.drop_last(),
                None => final(self)@ == old(self)@,
            },
    {
        let r = self.calls.pop();
        proof {
            if r is Some {
                assert(self@ =~= old(self)@.drop_last());
            }
        }
        r
    }
}

/// A thread: its context while parked, its address space, its call stack and
/// the call to make on an exception.
pub struct Thread {
    context: Option<Context>,
    l2_table: L2TableCap,
    call_stack: CallStack,
    exception_call: Option<CallCap>,
}

pub struct ThreadView {
    /// `Some` while the thread is parked, `None` while it runs.
    pub context: Option<Context>,
    pub l2_table: nat,
    pub call_stack: Seq<CallView>,
    pub exception_call: Option<nat>,
}

impl View for Thread {
    type V = ThreadView;

    closed spec fn view(&self) -> ThreadView {
        ThreadView {
            context: self.context,
            l2_table: self.l2_table@,
            call_stack: self.call_stack@,
            exception_call: match self.exception_call {
                Some(c) => Some(c@),
                None => None,
            },
        }
    }
}

/// A capability for a call record.
pub struct CallCap {
    call: NormalArc<Call>,
}

/// A capability for a thread.
pub struct ThreadCap {
    thread: NormalArc<Thread>,
}

impl View for CallCap {
    type V = nat;

    closed spec fn view(&self) -> nat {
        self.call@
    }
}

impl View for ThreadCap {
    type V = nat;

    closed spec fn view(&self) -> nat {
        self.thread@
    }
}

/// Frame `i` is live and holds a thread.
pub open spec fn holds_thread(s: FramesView, i: nat) -> bool {
    s.live(i) && s.objects[i as int] matches Some(ObjectView::Thread(_))
}

/// Frame `i` is live and holds a call.
pub open spec fn holds_call(s: FramesView, i: nat) -> bool {
    s.live(i) && s.objects[i as int] matches Some(ObjectView::Call(_))
}

/// The thread in frame `i`.
pub open spec fn thread_view(s: FramesView, i: nat) -> ThreadView {
    s.objects[i as int]->0->Thread_0
}

/// The call in frame `i`.
pub open spec fn call_view(s: FramesView, i: nat) -> CallView {
    s.objects[i as int]->0->Call_0
}

/// `ctx` resuming at `pc` with stack pointer `sp`.
pub open spec fn redirect(ctx: Context, pc: usize, sp: usize) -> Context {
    Context { pc: pc, sp: sp, ..ctx }
}

/// The state after thread `t` calls into call `c`: the thread's place is
/// pushed, its context continues at the call's target, and it takes on the
/// call's address space, whose table gains a handle.
pub open spec fn call_step(s: FramesView, t: nat, c: nat) -> FramesView {
    let th = thread_view(s, t);
    let cv = call_view(s, c);
    let ctx = th.context->0;
    s.share(cv.l2_table).put(
        t,
        ObjectView::Thread(
            ThreadView {
                context: Some(redirect(ctx, cv.pc, cv.sp)),
                l2_table: cv.l2_table,
                call_stack: th.call_stack.push(
                    CallView { pc: ctx.pc, sp: ctx.sp, l2_table: th.l2_table },
                ),
                exception_call: th.exception_call,
            },
        ),
    )
}

/// The state after thread `t` returns from its latest call: its place is
/// restored and the handle to the address space it left is given back.
pub open spec fn ret_step(s: FramesView, t: nat) -> FramesView {
    let th = thread_view(s, t);
    let top = th.call_stack.last();
    s.put(
        t,
        ObjectView::Thread(
            ThreadView {
                context: Some(redirect(th.context->0, top.pc, top.sp)),
                l2_table: top.l2_table,
                call_stack: th.call_stack.drop_last(),
                exception_call: th.exception_call,
            },
        ),
    ).unshare(th.l2_table)
}

/// Giving back a handle to call `c` keeps what it refers to live until the
/// call itself goes.
pub open spec fn call_release_ok(s: FramesView, c: nat) -> bool {
    &&& holds_call(s, c)
    &&& s.counts[c as int] == 2 ==> s.unshare(c).live(call_view(s, c).l2_table)
}

/// The state after a handle to call `c` is given back: the last one frees
/// the call and gives back its handle to its address space.
pub open spec fn release_call(s: FramesView, c: nat) -> FramesView {
    if s.counts[c as int] == 2 {
        s.unshare(c).unshare(call_view(s, c).l2_table)
    } else {
        s.unshare(c)
    }
}

/// The state after thread `t` is unparked to run: its context is taken out,
/// its address space gains a handle and becomes the hart's, and the table the
/// hart had installed, `installed`, is given back.
pub open spec fn resume_step(s: FramesView, t: nat, installed: Option<nat>) -> FramesView {
    let th = thread_view(s, t);
    let s1 = s.put(t, ObjectView::Thread(ThreadView { context: None, ..th })).share(th.l2_table);
    match installed {
        Some(p) => s1.unshare(p),
        None => s1,
    }
}

/// The state after thread `t` is parked again with context `ctx`.
pub open spec fn park_step(s: FramesView, t: nat, ctx: Context) -> FramesView {
    s.put(t, ObjectView::Thread(ThreadView { context: Some(ctx), ..thread_view(s, t) }))
}

/// `resume` may give back the table the hart had installed.
pub open spec fn resume_ok(s: FramesView, t: nat, installed: Option<nat>) -> bool {
    let th = thread_view(s, t);
    let s1 = s.put(t, ObjectView::Thread(ThreadView { context: None, ..th })).share(th.l2_table);
    &&& holds_thread(s, t)
    &&& s.can_share(th.l2_table)
    &&& installed matches Some(p) ==> s1.live(p) && s1.unshare(p).live(th.l2_table)
}

impl CallCap {
    /// A call to `pc` with stack pointer `sp` in the address space of
    /// `l2_table`, placed in frame `frame_number`. `None` when the frame is not
    /// free memory or already in use; `l2_table` is then given back.
    pub fn new(
        frames: &mut Frames,
        frame_number: Idx,
        pc: usize,
        sp: usize,
        l2_table: L2TableCap,
    ) -> (r: Option<Self>)
        requires
            old(frames).wf(),
            old(frames)@.live(l2_table@),
        ensures
            final(frames).wf(),
            r is Some <==> old(frames)@.claimable(frame_number@, FrameKind::Normal),
            match r {
                Some(c) => c@ == frame_number@ && final(frames)@ == old(frames)@.claim(
                    frame_number@,
                    Some(ObjectView::Call(CallView { pc, sp, l2_table: l2_table@ })),
                ),
                None => final(frames)@ == old(frames)@.unshare(l2_table@),
            },
    {
        if frames.kind(frame_number) != FrameKind::Normal || frames.ref_count(frame_number) != 0 {
            l2_table.drop(frames);
            return None;
        }
        let call = Call { pc, sp, l2_table };
        let call = NormalArc::new(frames, frame_number, call)?;
        Some(CallCap { call })
    }

    /// Gives the handle back; the last one frees the call and gives back its
    /// handle to its address space.
    pub fn drop(self, frames: &mut Frames)
        requires
            old(frames).wf(),
            call_release_ok(old(frames)@, self@),
        ensures
            final(frames).wf(),
            final(frames)@ == release_call(old(frames)@, self@),
    {
        match self.call.drop(frames) {
            Some(Object::Call(call)) => {
                call.l2_table.drop(frames);
            },
            _ => {},
        }
    }

    /// Gives up the capability as its frame number.
    pub fn into_frame_number(self) -> (r: Idx)
        ensures
            r@ == self@,
    {
        self.call.into_raw()
    }
}

impl ThreadCap {
    /// A thread parked at `context` in the address space of `l2_table`, with
    /// an empty call stack and no exception call, placed in frame
    /// `frame_number`. `None` when the frame is not free memory or already in
    /// use; `l2_table` is then given back.
    pub fn new(
        frames: &mut Frames,
        frame_number: Idx,
        context: Context,
        l2_table: L2TableCap,
    ) -> (r: Option<Self>)
        requires
            old(frames).wf(),
            old(frames)@.live(l2_table@),
        ensures
            final(frames).wf(),
            r is Some <==> old(frames)@.claimable(frame_number@, FrameKind::Normal),
            match r {
                Some(t) => t@ == frame_number@ && final(frames)@ == old(frames)@.claim(
                    frame_number@,
                    Some(
                        ObjectView::Thread(
                            ThreadView {
                                context: Some(context),
                                l2_table: l2_table@,
                                call_stack: Seq::empty(),
                                exception_call: None,
                            },
                        ),
                    ),
                ),
                None => final(frames)@ == old(frames)@.unshare(l2_table@),
            },
    {
        if frames.kind(frame_number) != FrameKind::Normal || frames.ref_count(frame_number) != 0 {
            l2_table.drop(frames);
            return None;
        }
        let thread = Thread {
            context: Some(context),
            l2_table,
            call_stack: CallStack::empty(),
            exception_call: None,
        };
        let thread = NormalArc::new(frames, frame_number, thread)?;
        Some(ThreadCap { thread })
    }

    /// Installs `call` as the exception call, giving back the one it replaces.
    pub fn set_exception_call(&self, frames: &mut Frames, call: CallCap)
        requires
            old(frames).wf(),
            holds_thread(old(frames)@, self@),
            thread_view(old(frames)@, self@).exception_call matches Some(p) ==> call_release_ok(
                old(frames)@.put(
                    self@,
                    ObjectView::Thread(
                        ThreadView {
                            exception_call: Some(call@),
                            ..thread_view(old(frames)@, self@)
                        },
                    ),
                ),
                p,
            ),
        ensures
            final(frames).wf(),
            ({
                let s1 = old(frames)@.put(
                    self@,
                    ObjectView::Thread(
                        ThreadView {
                            exception_call: Some(call@),
                            ..thread_view(old(frames)@, self@)
                        },
                    ),
                );
                final(frames)@ == match thread_view(old(frames)@, self@).exception_call {
                    Some(p) => release_call(s1, p),
                    None => s1,
                }
            }),
    {
        let idx = self.thread.idx();
        match frames.take_object(idx) {
            Some(Object::Thread(th)) => {
                let mut th = *th;
                let mut previous = Some(call);
                core::mem::swap(&mut previous, &mut th.exception_call);
                let ghost v = th@;
                frames.put_object(idx, Object::Thread(Box::new(th)));
                proof {
                    lemma_put_after_take(old(frames)@, self@, ObjectView::Thread(v));
                }
                match previous {
                    Some(p) => {
                        p.drop(frames);
                    },
                    None => {},
                }
            },
            _ => {},
        }
    }

    /// Calls into `call`: fails, changing nothing, when the thread is running
    /// or its call stack is full.
    pub fn call(&self, frames: &mut Frames, call: &CallCap) -> (r: Option<()>)
        requires
            old(frames).wf(),
            holds_thread(old(frames)@, self@),
            holds_call(old(frames)@, call@),
            old(frames)@.can_share(call_view(old(frames)@, call@).l2_table),
        ensures
            final(frames).wf(),
            r is Some <==> {
                &&& thread_view(old(frames)@, self@).context is Some
                &&& thread_view(old(frames)@, self@).call_stack.len() < MAX_DEPTH
            },
            r is Some ==> final(frames)@ == call_step(old(frames)@, self@, call@),
            r is None ==> final(frames)@ == old(frames)@,
    {
        let (pc, sp, l2) = match frames.object(call.call.idx()) {
            Some(Object::Call(c)) => (c.pc, c.sp, c.l2_table.frame_number()),
            _ => {
                return None;
            },
        };
        let idx = self.thread.idx();
        let ghost s0 = frames@;
        match frames.take_object(idx) {
            Some(Object::Thread(th)) => {
                let mut th = *th;
                let ghost v0 = th@;
                let ctx = match th.context {
                    Some(ctx) => ctx,
                    None => {
                        frames.put_object(idx, Object::Thread(Box::new(th)));
                        proof {
                            lemma_put_back(s0, self@);
                        }
                        return None;
                    },
                };
                if th.call_stack.depth() >= MAX_DEPTH {
                    frames.put_object(idx, Object::Thread(Box::new(th)));
                    proof {
                        lemma_put_back(s0, self@);
                    }
                    return None;
                }
                frames.share(l2);
                let l2_table = L2TableCap::from_frame_number(l2);
                let mut previous = l2_table;
                core::mem::swap(&mut previous, &mut th.l2_table);
                let pushed = th.call_stack.push(Call { pc: ctx.pc, sp: ctx.sp, l2_table: previous });
                match pushed {
                    Ok(()) => {},
                    Err(_) => {
                        return None;
                    },
                }
                let mut ctx = ctx;
                ctx.pc = pc;
                ctx.sp = sp;
                th.context = Some(ctx);
                let ghost v = th@;
                assert(v == ThreadView {
                    context: Some(redirect(v0.context->0, pc, sp)),
                    l2_table: l2@,
                    call_stack: v0.call_stack.push(
                        CallView { pc: v0.context->0.pc, sp: v0.context->0.sp, l2_table: v0.l2_table },
                    ),
                    exception_call: v0.exception_call,
                });
                frames.put_object(idx, Object::Thread(Box::new(th)));
                proof {
                    lemma_put_after_take(s0.share(l2@), self@, ObjectView::Thread(v));
                }
                Some(())
            },
            _ => {
                None
            },
        }
    }

    /// Calls into the exception call; `None`, changing nothing, when none is
    /// installed, and otherwise as `call`.
    pub fn call_exception(&self, frames: &mut Frames) -> (r: Option<()>)
        requires
            old(frames).wf(),
            holds_thread(old(frames)@, self@),
            thread_view(old(frames)@, self@).exception_call matches Some(c) ==> {
                &&& holds_call(old(frames)@, c)
                &&& old(frames)@.can_share(call_view(old(frames)@, c).l2_table)
            },
        ensures
            final(frames).wf(),
            match thread_view(old(frames)@, self@).exception_call {
                Some(c) => {
                    &&& r is Some <==> {
                        &&& thread_view(old(frames)@, self@).context is Some
                        &&& thread_view(old(frames)@, self@).call_stack.len() < MAX_DEPTH
                    }
                    &&& r is Some ==> final(frames)@ == call_step(old(frames)@, self@, c)
                    &&& r is None ==> final(frames)@ == old(frames)@
                },
                None => r is None && final(frames)@ == old(frames)@,
            },
    {
        let c = match frames.object(self.thread.idx()) {
            Some(Object::Thread(th)) => match &th.exception_call {
                Some(c) => c.call.idx(),
                None => {
                    return None;
                },
            },
            _ => {
                return None;
            },
        };
        let call = CallCap { call: NormalArc::from_raw(c) };
        let r = self.call(frames, &call);
        let _ = call.into_frame_number();
        r
    }

    /// Returns from the latest call: fails, changing nothing, when the thread
    /// is running or its call stack is empty.
    pub fn ret(&mut self, frames: &mut Frames) -> (r: Option<()>)
        requires
            old(frames).wf(),
            holds_thread(old(frames)@, old(self)@),
            old(frames)@.live(thread_view(old(frames)@, old(self)@).l2_table),
        ensures
            final(self)@ == old(self)@,
            final(frames).wf(),
            r is Some <==> {
                &&& thread_view(old(frames)@, old(self)@).context is Some
                &&& thread_view(old(frames)@, old(self)@).call_stack.len() > 0
            },
            r is Some ==> final(frames)@ == ret_step(old(frames)@, old(self)@),
            r is None ==> final(frames)@ == old(frames)@,
    {
        let idx = self.thread.idx();
        let ghost s0 = frames@;
        match frames.take_object(idx) {
            Some(Object::Thread(th)) => {
                let mut th = *th;
                let ghost v0 = th@;
                let ctx = match th.context {
                    Some(ctx) => ctx,
                    None => {
                        frames.put_object(idx, Object::Thread(Box::new(th)));
                        proof {
                            lemma_put_back(s0, self@);
                        }
                        return None;
                    },
                };
                let top = match th.call_stack.pop() {
                    Some(top) => top,
                    None => {
                        frames.put_object(idx, Object::Thread(Box::new(th)));
                        proof {
                            lemma_put_back(s0, self@);
                        }
                        return None;
                    },
                };
                let Call { pc, sp, l2_table } = top;
                let mut ctx = ctx;
                ctx.pc = pc;
                ctx.sp = sp;
                th.context = Some(ctx);
                let mut previous = l2_table;
                core::mem::swap(&mut previous, &mut th.l2_table);
                let ghost v = th@;
                frames.put_object(idx, Object::Thread(Box::new(th)));
                proof {
                    lemma_put_after_take(s0, self@, ObjectView::Thread(v));
                }
                previous.drop(frames);
                Some(())
            },
            _ => {
                None
            },
        }
    }

    /// Unparks the thread to run it: takes its context out and makes its
    /// address space the hart's (see `L2TableCap::activate`). Returns the
    /// context to enter user mode with and the value for `satp`; `None`,
    /// changing nothing, when the thread is already running.
    pub fn resume(&self, frames: &mut Frames, installed: &mut Option<L2TableCap>) -> (r: Option<
        (Context, u64),
    >)
        requires
            old(frames).wf(),
            resume_ok(
                old(frames)@,
                self@,
                match *old(installed) {
                    Some(p) => Some(p@),
                    None => None,
                },
            ),
        ensures
            final(frames).wf(),
            r is Some <==> thread_view(old(frames)@, self@).context is Some,
            match r {
                Some((ctx, satp)) => {
                    &&& ctx == thread_view(old(frames)@, self@).context->0
                    &&& satp == SATP_MODE_SV39 | (thread_view(old(frames)@, self@).l2_table as u64)
                    &&& *final(installed) matches Some(t) && t@ == thread_view(old(frames)@, self@).l2_table
                    &&& final(frames)@ == resume_step(
                        old(frames)@,
                        self@,
                        match *old(installed) {
                            Some(p) => Some(p@),
                            None => None,
                        },
                    )
                },
                None => final(frames)@ == old(frames)@ && *final(installed) == *old(installed),
            },
    {
        let idx = self.thread.idx();
        let ghost s0 = frames@;
        match frames.take_object(idx) {
            Some(Object::Thread(th)) => {
                let mut th = *th;
                let ctx = match th.context {
                    Some(ctx) => ctx,
                    None => {
                        frames.put_object(idx, Object::Thread(Box::new(th)));
                        proof {
                            lemma_put_back(s0, self@);
                        }
                        return None;
                    },
                };
                th.context = None;
                let l2 = th.l2_table.frame_number();
                let ghost v = th@;
                frames.put_object(idx, Object::Thread(Box::new(th)));
                proof {
                    lemma_put_after_take(s0, self@, ObjectView::Thread(v));
                }
                frames.share(l2);
                let l2_table = L2TableCap::from_frame_number(l2);
                let satp = l2_table.activate(frames, installed);
                Some((ctx, satp))
            },
            _ => {
                None
            },
        }
    }

    /// Parks the thread again with `context`, saved when it trapped.
    pub fn park(&self, frames: &mut Frames, context: Context)
        requires
            old(frames).wf(),
            holds_thread(old(frames)@, self@),
        ensures
            final(frames).wf(),
            final(frames)@ == park_step(old(frames)@, self@, context),
    {
        let idx = self.thread.idx();
        let ghost s0 = frames@;
        match frames.take_object(idx) {
            Some(Object::Thread(th)) => {
                let mut th = *th;
                th.context = Some(context);
                let ghost v = th@;
                frames.put_object(idx, Object::Thread(Box::new(th)));
                proof {
                    lemma_put_after_take(s0, self@, ObjectView::Thread(v));
                }
            },
            _ => {},
        }
    }

    /// The parked context, or `None` while the thread runs.
    pub fn context<'a>(&self, frames: &'a Frames) -> (r: Option<&'a Context>)
        requires
            frames.wf(),
            holds_thread(frames@, self@),
        ensures
            match r {
                Some(c) => thread_view(frames@, self@).context == Some(*c),
                None => thread_view(frames@, self@).context is None,
            },
    {
        match frames.object(self.thread.idx()) {
            Some(Object::Thread(th)) => match &th.context {
                Some(c) => Some(c),
                None => None,
            },
            _ => None,
        }
    }

    /// Replaces the parked context; `None`, changing nothing, while the
    /// thread runs.
    pub fn set_context(&self, frames: &mut Frames, context: Context) -> (r: Option<()>)
        requires
            old(frames).wf(),
            holds_thread(old(frames)@, self@),
        ensures
            final(frames).wf(),
            r is Some <==> thread_view(old(frames)@, self@).context is Some,
            r is Some ==> final(frames)@ == park_step(old(frames)@, self@, context),
            r is None ==> final(frames)@ == old(frames)@,
    {
        let parked = match frames.object(self.thread.idx()) {
            Some(Object::Thread(th)) => th.context.is_some(),
            _ => false,
        };
        if !parked {
            return None;
        }
        self.park(frames, context);
        Some(())
    }

    /// The thread's address space.
    pub fn l2_table<'a>(&self, frames: &'a Frames) -> (r: &'a L2TableCap)
        requires
            frames.wf(),
            holds_thread(frames@, self@),
        ensures
            r@ == thread_view(frames@, self@).l2_table,
    {
        match frames.object(self.thread.idx()) {
            Some(Object::Thread(th)) => &th.l2_table,
            _ => vstd::pervasive::unreached(),
        }
    }

    /// Gives up the capability as its frame number.
    pub fn into_frame_number(self) -> (r: Idx)
        ensures
            r@ == self@,
    {
        self.thread.into_raw()
    }
}

/// The state after `n` successive calls of thread `t` into call `c`.
pub open spec fn calls(s: FramesView, t: nat, c: nat, n: nat) -> FramesView
    decreases n,
{
    if n == 0 {
        s
    } else {
        call_step(calls(s, t, c, (n - 1) as nat), t, c)
    }
}

/// Every call of a thread into `c` keeps the thread and the call in place,
/// pushes one entry and keeps it parked.
pub proof fn lemma_calls(s: FramesView, t: nat, c: nat, n: nat)
    requires
        s.counts.len() == FRAME_COUNT,
        s.objects.len() == FRAME_COUNT,
        holds_thread(s, t),
        holds_call(s, c),
        thread_view(s, t).context is Some,
        s.live(call_view(s, c).l2_table),
    ensures
        holds_thread(calls(s, t, c, n), t),
        holds_call(calls(s, t, c, n), c),
        call_view(calls(s, t, c, n), c) == call_view(s, c),
        thread_view(calls(s, t, c, n), t).context is Some,
        thread_view(calls(s, t, c, n), t).call_stack.len() == thread_view(s, t).call_stack.len() + n,
        calls(s, t, c, n).counts[call_view(s, c).l2_table as int] == s.counts[call_view(
            s,
            c,
        ).l2_table as int] + n,
        calls(s, t, c, n).counts.len() == FRAME_COUNT,
        calls(s, t, c, n).objects.len() == FRAME_COUNT,
    decreases n,
{
    if n > 0 {
        lemma_calls(s, t, c, (n - 1) as nat);
    }
}

/// The call stack is bounded: from an empty stack, `MAX_DEPTH` successive
/// calls succeed and leave it full, so that the next call fails; and a
/// return from an empty stack fails.
pub proof fn lemma_call_stack_bound(s: FramesView, t: nat, c: nat)
    requires
        s.counts.len() == FRAME_COUNT,
        s.objects.len() == FRAME_COUNT,
        holds_thread(s, t),
        holds_call(s, c),
        thread_view(s, t).context is Some,
        thread_view(s, t).call_stack.len() == 0,
        s.counts[call_view(s, c).l2_table as int] + MAX_DEPTH < u32::MAX / 2,
        s.live(call_view(s, c).l2_table),
    ensures
        forall|n: nat|
            n < MAX_DEPTH ==> {
                let sn = #[trigger] calls(s, t, c, n);
                &&& holds_thread(sn, t)
                &&& holds_call(sn, c)
                &&& sn.can_share(call_view(sn, c).l2_table)
                &&& thread_view(sn, t).context is Some
                &&& thread_view(sn, t).call_stack.len() < MAX_DEPTH
            },
        thread_view(calls(s, t, c, MAX_DEPTH as nat), t).call_stack.len() == MAX_DEPTH,
        !(thread_view(s, t).call_stack.len() > 0),
{
    assert forall|n: nat| n < MAX_DEPTH implies {
        let sn = #[trigger] calls(s, t, c, n);
        &&& holds_thread(sn, t)
        &&& holds_call(sn, c)
        &&& sn.can_share(call_view(sn, c).l2_table)
        &&& thread_view(sn, t).context is Some
        &&& thread_view(sn, t).call_stack.len() < MAX_DEPTH
    } by {
        lemma_calls(s, t, c, n);
    }
    lemma_calls(s, t, c, MAX_DEPTH as nat);
}

/// A resume and the trap that follows it bring back the thread's context as
/// the trap saved it: running user code that changed only `a0`, the thread
/// is parked again at the same program counter and stack pointer with the
/// new `a0`.
pub proof fn lemma_resume_round_trip(
    s: FramesView,
    t: nat,
    installed: Option<nat>,
    saved: Context,
)
    requires
        s.counts.len() == FRAME_COUNT,
        s.objects.len() == FRAME_COUNT,
        holds_thread(s, t),
        thread_view(s, t).context is Some,
        s.live(thread_view(s, t).l2_table),
        installed matches Some(p) ==> p != t && p < FRAME_COUNT,
        saved.pc == thread_view(s, t).context->0.pc,
        saved.sp == thread_view(s, t).context->0.sp,
    ensures
        holds_thread(resume_step(s, t, installed), t),
        thread_view(resume_step(s, t, installed), t).context is None,
        thread_view(park_step(resume_step(s, t, installed), t, saved), t).context == Some(saved),
        thread_view(park_step(resume_step(s, t, installed), t, saved), t).context->0.pc
            == thread_view(s, t).context->0.pc,
        thread_view(park_step(resume_step(s, t, installed), t, saved), t).context->0.sp
            == thread_view(s, t).context->0.sp,
        thread_view(park_step(resume_step(s, t, installed), t, saved), t).context->0.a[0]
            == saved.a[0],
        thread_view(park_step(resume_step(s, t, installed), t, saved), t).l2_table == thread_view(
            s,
            t,
        ).l2_table,
        thread_view(park_step(resume_step(s, t, installed), t, saved), t).call_stack
            == thread_view(s, t).call_stack,
{
    let th = thread_view(s, t);
    let s1 = s.put(t, ObjectView::Thread(ThreadView { context: None, ..th })).share(th.l2_table);
    assert(s1.objects[t as int] == Some(ObjectView::Thread(ThreadView { context: None, ..th })));
    assert(s1.live(t));
    match installed {
        Some(p) => {
            assert(s1.unshare(p).objects[t as int] == s1.objects[t as int]);
        },
        None => {},
    }
}

} // verus!
