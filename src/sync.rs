//! The single token that serialises access to shared kernel state, and the
//! cells whose contents only its holder may borrow.
//!
//! The hart-local spin on the global holder word stays with the platform
//! code; the decisions of one attempt and of a release are made here.

use vstd::prelude::*;

verus! {

/// The holder value that means nobody holds the token.
pub const INVALID_HART_ID: u64 = 0xffff_ffff_ffff_ffff;

/// Proof that its owner is, for now, the one hart allowed to touch shared
/// kernel state.
#[derive(Debug)]
pub struct Token(());

/// The global word that records which hart holds the token.
pub struct TokenHolder {
    holder: u64,
}

/// Why an attempt to take the token failed.
#[derive(Clone, Copy, Debug, PartialEq, Eq, Structural)]
pub enum AcquireError {
    /// Another hart holds it.
    Held,
    /// The asking hart holds it already.
    Reentrant,
}

impl View for TokenHolder {
    type V = u64;

    closed spec fn view(&self) -> u64 {
        self.holder
    }
}

/// The holder and the result after hart `hart_id` tries to take the token
/// while `holder` holds it.
pub open spec fn acquire_step(holder: u64, hart_id: u64) -> (u64, Result<(), AcquireError>) {
    if holder == INVALID_HART_ID {
        (hart_id, Ok(()))
    } else if holder == hart_id {
        (holder, Err(AcquireError::Reentrant))
    } else {
        (holder, Err(AcquireError::Held))
    }
}

impl TokenHolder {
    /// Nobody holds the token.
    pub fn new() -> (r: Self)
        ensures
            r@ == INVALID_HART_ID,
    {
        TokenHolder { holder: INVALID_HART_ID }
    }

    /// The hart holding the token, or `INVALID_HART_ID`.
    pub fn holder(&self) -> (r: u64)
        ensures
            r == self@,
    {
        self.holder
    }
}

impl Token {
    /// One attempt by hart `hart_id` to take the token: it succeeds exactly
    /// when nobody holds it, and an attempt by the holder itself is reported.
    pub fn acquire(holder: &mut TokenHolder, hart_id: u64) -> (r: Result<Token, AcquireError>)
        requires
            hart_id != INVALID_HART_ID,
        ensures
            final(holder)@ == acquire_step(old(holder)@, hart_id).0,
            match r {
                Ok(_) => acquire_step(old(holder)@, hart_id).1 == Ok::<(), AcquireError>(()),
                Err(e) => acquire_step(old(holder)@, hart_id).1 == Err::<(), AcquireError>(e),
            },
    {
        if holder.holder == INVALID_HART_ID {
            holder.holder = hart_id;
            Ok(Token(()))
        } else if holder.holder == hart_id {
            Err(AcquireError::Reentrant)
        } else {
            Err(AcquireError::Held)
        }
    }

    /// Gives the token back.
    pub fn release(self, holder: &mut TokenHolder)
        ensures
            final(holder)@ == INVALID_HART_ID,
    {
        holder.holder = INVALID_HART_ID;
    }
}

/// A value that only the token holder may borrow.
pub struct TokenCell<T>(T);

impl<T> TokenCell<T> {
    pub closed spec fn value(&self) -> T {
        self.0
    }

    pub fn new(t: T) -> (r: Self)
        ensures
            r.value() == t,
    {
        TokenCell(t)
    }

    /// Borrows the contents for as long as the token is borrowed.
    pub fn borrow<'a>(&'a self, _token: &'a Token) -> (r: &'a T)
        ensures
            *r == self.value(),
    {
        &self.0
    }

    /// Borrows the contents mutably for as long as the token is borrowed mutably.
    pub fn borrow_mut<'a>(&'a mut self, _token: &'a mut Token) -> (r: &'a mut T)
        ensures
            *r == old(self).value(),
            final(self).value() == *final(r),
    {
        &mut self.0
    }
}

/// Only one hart holds the token: while any hart holds it, every attempt
/// fails, and an attempt by the holder itself is told apart as reentrant;
/// once free, the first attempt succeeds and the next by another hart fails.
pub proof fn lemma_token_exclusive(holder: u64, hart_id: u64, other: u64)
    requires
        hart_id != INVALID_HART_ID,
        other != INVALID_HART_ID,
    ensures
        holder != INVALID_HART_ID ==> acquire_step(holder, hart_id).0 == holder
            && acquire_step(holder, hart_id).1 is Err,
        holder == hart_id ==> acquire_step(holder, hart_id).1 == Err::<(), AcquireError>(
            AcquireError::Reentrant,
        ),
        acquire_step(INVALID_HART_ID, hart_id) == (hart_id, Ok::<(), AcquireError>(())),
        other != hart_id ==> acquire_step(acquire_step(INVALID_HART_ID, hart_id).0, other).1
            == Err::<(), AcquireError>(AcquireError::Held),
{
}

} // verus!
