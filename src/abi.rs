//! The user side of the system-call ABI: text travels in `a1` as words of
//! eight bytes, most significant first, padded with spaces.

use vstd::prelude::*;

verus! {

/// The system call that shuts the system down.
pub const SYSCALL_SHUTDOWN: usize = 0x0;

/// The system call that logs the eight bytes of `a1`.
pub const SYSCALL_PRINT: usize = 0x1;

/// The byte that pads the last word of a message.
pub const PAD: u8 = 0x20;

/// The word whose bytes, most significant first, are `b`.
pub open spec fn spec_be_word(b: Seq<u8>) -> u64 {
    ((b[0] as u64) << 56u64) | ((b[1] as u64) << 48u64) | ((b[2] as u64) << 40u64) | ((
    b[3] as u64) << 32u64) | ((b[4] as u64) << 24u64) | ((b[5] as u64) << 16u64) | ((
    b[6] as u64) << 8u64) | (b[7] as u64)
}

/// The eight bytes of `w`, most significant first.
pub open spec fn spec_be_bytes(w: u64) -> Seq<u8> {
    seq![
        ((w >> 56u64) & 0xff) as u8,
        ((w >> 48u64) & 0xff) as u8,
        ((w >> 40u64) & 0xff) as u8,
        ((w >> 32u64) & 0xff) as u8,
        ((w >> 24u64) & 0xff) as u8,
        ((w >> 16u64) & 0xff) as u8,
        ((w >> 8u64) & 0xff) as u8,
        (w & 0xff) as u8,
    ]
}

/// Bytes `8 * k` to `8 * k + 7` of `msg`, padded past its end.
pub open spec fn padded_chunk(msg: Seq<u8>, k: int) -> Seq<u8> {
    Seq::new(8, |j: int| if 8 * k + j < msg.len() { msg[8 * k + j] } else { PAD })
}

/// The eight bytes of `w`, most significant first.
pub fn be_bytes(w: u64) -> (r: [u8; 8])
    ensures
        r@ == spec_be_bytes(w),
{
    let r = [
        ((w >> 56u64) & 0xff) as u8,
        ((w >> 48u64) & 0xff) as u8,
        ((w >> 40u64) & 0xff) as u8,
        ((w >> 32u64) & 0xff) as u8,
        ((w >> 24u64) & 0xff) as u8,
        ((w >> 16u64) & 0xff) as u8,
        ((w >> 8u64) & 0xff) as u8,
        (w & 0xff) as u8,
    ];
    assert(r@ =~= spec_be_bytes(w));
    r
}

/// The word whose bytes, most significant first, are `b`.
pub fn be_word(b: [u8; 8]) -> (r: u64)
    ensures
        r == spec_be_word(b@),
{
    ((b[0] as u64) << 56u64) | ((b[1] as u64) << 48u64) | ((b[2] as u64) << 40u64) | ((
    b[3] as u64) << 32u64) | ((b[4] as u64) << 24u64) | ((b[5] as u64) << 16u64) | ((
    b[6] as u64) << 8u64) | (b[7] as u64)
}

/// A word's bytes give the word back.
pub proof fn lemma_be_round_trip(b: Seq<u8>)
    requires
        b.len() == 8,
    ensures
        spec_be_bytes(spec_be_word(b)) == b,
{
    let (b0, b1, b2, b3, b4, b5, b6, b7) = (
        b[0] as u64,
        b[1] as u64,
        b[2] as u64,
        b[3] as u64,
        b[4] as u64,
        b[5] as u64,
        b[6] as u64,
        b[7] as u64,
    );
    let w = (b0 << 56u64) | (b1 << 48u64) | (b2 << 40u64) | (b3 << 32u64) | (b4 << 24u64) | (b5
        << 16u64) | (b6 << 8u64) | b7;
    assert(((w >> 56u64) & 0xff) == b0 && ((w >> 48u64) & 0xff) == b1 && ((w >> 40u64) & 0xff)
        == b2 && ((w >> 32u64) & 0xff) == b3 && ((w >> 24u64) & 0xff) == b4 && ((w >> 16u64)
        & 0xff) == b5 && ((w >> 8u64) & 0xff) == b6 && (w & 0xff) == b7) by (bit_vector)
        requires
            b0 < 256 && b1 < 256 && b2 < 256 && b3 < 256 && b4 < 256 && b5 < 256 && b6 < 256 && b7
                < 256,
            w == (b0 << 56u64) | (b1 << 48u64) | (b2 << 40u64) | (b3 << 32u64) | (b4 << 24u64) | (
            b5 << 16u64) | (b6 << 8u64) | b7,
    ;
    assert(spec_be_bytes(spec_be_word(b)) =~= b);
}

/// The words that carry `msg`: one per eight bytes, the last padded with
/// spaces.
pub fn pack_message(msg: &[u8]) -> (r: Vec<u64>)
    ensures
        r@.len() == (msg@.len() + 7) / 8,
        forall|k: int| 0 <= k < r@.len() ==> #[trigger] r@[k] == spec_be_word(padded_chunk(msg@, k)),
{
    let mut words: Vec<u64> = Vec::new();
    let mut k: usize = 0;
    while k < msg.len()
        invariant
            k <= msg@.len(),
            k < msg@.len() ==> k % 8 == 0,
            words@.len() == (k + 7) / 8,
            forall|i: int| 0 <= i < words@.len() ==> #[trigger] words@[i] == spec_be_word(padded_chunk(msg@, i)),
        decreases msg@.len() - k,
    {
        let mut chunk: [u8; 8] = [PAD; 8];
        let mut j: usize = 0;
        while j < 8
            invariant
                k < msg@.len(),
                k % 8 == 0,
                j <= 8,
                chunk@.len() == 8,
                forall|i: int| 0 <= i < j ==> #[trigger] chunk@[i] == padded_chunk(msg@, k as int / 8)[i],
                forall|i: int| j <= i < 8 ==> #[trigger] chunk@[i] == PAD,
            decreases 8 - j,
        {
            if k + j < msg.len() {
                chunk[j] = msg[k + j];
            }
            j = j + 1;
        }
        assert(chunk@ =~= padded_chunk(msg@, k as int / 8));
        words.push(be_word(chunk));
        if msg.len() - k > 8 {
            k = k + 8;
        } else {
            k = msg.len();
        }
    }
    words
}

} // verus!
