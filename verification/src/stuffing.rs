//! Consistent overhead byte stuffing (COBS): the step that takes every zero
//! byte out of a frame, so that a zero can mark where the frame ends.
//!
//! The work is done by the `cobs` crate; this module says what its functions
//! compute and proves that the two directions undo each other.

use vstd::prelude::*;

verus! {

/// How many non-zero bytes `s` starts with.
pub open spec fn run(s: Seq<u8>) -> nat
    decreases s.len(),
{
    if s.len() == 0 || s[0] == 0 {
        0
    } else {
        1 + run(s.skip(1))
    }
}

/// `s` without the zero bytes it starts with.
pub open spec fn after_zeros(s: Seq<u8>) -> Seq<u8>
    decreases s.len(),
{
    if s.len() > 0 && s[0] == 0 {
        after_zeros(s.skip(1))
    } else {
        s
    }
}

/// No byte of `s` is zero.
pub open spec fn zero_free(s: Seq<u8>) -> bool {
    forall|i: int| 0 <= i < s.len() ==> s[i] != 0
}

/// The stuffed form of `s`: each block is a run of at most 254 non-zero bytes
/// behind a byte that counts one more than the run. A block of fewer than 254
/// bytes also stands for the zero byte that ended the run, if one did.
pub open spec fn stuffed(s: Seq<u8>) -> Seq<u8>
    decreases s.len(),
{
    let k = run(s) as int;
    if k >= 254 {
        seq![255u8] + s.take(254) + if s.len() <= 254 {
            Seq::<u8>::empty()
        } else {
            stuffed(s.skip(254))
        }
    } else if k >= s.len() {
        seq![(k + 1) as u8] + s
    } else {
        seq![(k + 1) as u8] + s.take(k) + stuffed(s.skip(k + 1))
    }
}

/// The bytes that the blocks of `e` stand for, or nothing where a block is cut
/// short.
pub open spec fn unstuffed(e: Seq<u8>) -> Option<Seq<u8>>
    decreases e.len(),
{
    if e.len() == 0 {
        Some(Seq::<u8>::empty())
    } else if e[0] == 0 || e[0] > e.len() {
        None
    } else {
        let rest = e.skip(e[0] as int);
        let zero = if e[0] < 255 && rest.len() > 0 {
            seq![0u8]
        } else {
            Seq::<u8>::empty()
        };
        match unstuffed(rest) {
            Some(tail) => Some(e.subrange(1, e[0] as int) + zero + tail),
            None => None,
        }
    }
}

/// What decoding `source` gives: the message up to the first zero byte, where
/// zero bytes before the message do not count.
pub open spec fn decoded(source: Seq<u8>) -> Option<Seq<u8>> {
    let message = after_zeros(source);
    if message.len() == 0 {
        None
    } else {
        unstuffed(message.take(run(message) as int))
    }
}

/// The longest stuffed form that a message of `len` bytes can have.
pub open spec fn max_stuffed_len(len: nat) -> nat {
    len + (len + 253) / 254
}

/// The error with which the `cobs` crate refuses a message.
#[verifier::external_type_specification]
#[verifier::external_body]
pub struct ExDecodeError(cobs::DecodeError);

/// `cobs::max_encoding_length`: the message's length and one byte for every
/// 254 bytes begun.
pub assume_specification[ cobs::max_encoding_length ](source_len: usize) -> (r: usize)
    requires
        max_stuffed_len(source_len as nat) <= usize::MAX,
    ensures
        r == max_stuffed_len(source_len as nat),
;

/// `cobs::encode`: writes the stuffed form of `source` to the front of `dest`
/// and returns its length. `cobs::encode` panics where `dest` is too short,
/// and gives nothing at all for an empty message.
#[verifier::external_body]
pub(crate) fn stuff_into(source: &[u8], dest: &mut Vec<u8>) -> (n: usize)
    requires
        source@.len() > 0,
        stuffed(source@).len() <= old(dest)@.len(),
    ensures
        n == stuffed(source@).len(),
        final(dest)@.len() == old(dest)@.len(),
        final(dest)@.take(n as int) == stuffed(source@),
{
    cobs::encode(source, dest)
}

/// `cobs::decode`: writes the decoded message to the front of `dest` and
/// returns its length, or refuses it.
#[verifier::external_body]
pub(crate) fn unstuff_into(source: &[u8], dest: &mut Vec<u8>) -> (r: Result<
    usize,
    cobs::DecodeError,
>)
    requires
        source@.len() <= old(dest)@.len(),
    ensures
        final(dest)@.len() == old(dest)@.len(),
        match r {
            Ok(n) => n <= old(dest)@.len() && decoded(source@) == Some(
                final(dest)@.take(n as int),
            ),
            Err(_) => decoded(source@) is None,
        },
{
    cobs::decode(source, dest)
}

/// `cobs::decode_in_place`: decodes the first `end` bytes of `buf` where they
/// stand. The message goes to the front; what lies behind `end` stays.
#[verifier::external_body]
pub(crate) fn unstuff_in_place(buf: &mut Vec<u8>, end: usize) -> (r: Result<
    usize,
    cobs::DecodeError,
>)
    requires
        0 < end <= old(buf)@.len(),
        zero_free(old(buf)@.take(end as int)),
    ensures
        final(buf)@.len() == old(buf)@.len(),
        final(buf)@.skip(end as int) == old(buf)@.skip(end as int),
        match r {
            Ok(n) => n <= end && unstuffed(old(buf)@.take(end as int)) == Some(
                final(buf)@.take(n as int),
            ),
            Err(_) => unstuffed(old(buf)@.take(end as int)) is None,
        },
{
    cobs::decode_in_place(&mut buf[..end])
}

pub(crate) proof fn lemma_run(s: Seq<u8>)
    ensures
        run(s) <= s.len(),
        zero_free(s.take(run(s) as int)),
        run(s) < s.len() ==> s[run(s) as int] == 0,
    decreases s.len(),
{
    if s.len() > 0 && s[0] != 0 {
        let t = s.skip(1);
        lemma_run(t);
        assert forall|i: int| 0 <= i < run(s) implies s.take(run(s) as int)[i] != 0 by {
            if i > 0 {
                assert(t.take(run(t) as int)[i - 1] == s[i]);
            }
        }
    }
}

/// A zero-free message followed by a zero byte is as long as its run.
pub(crate) proof fn lemma_run_of(body: Seq<u8>, rest: Seq<u8>)
    requires
        zero_free(body),
    ensures
        run(body) == body.len(),
        run(body + seq![0u8] + rest) == body.len(),
    decreases body.len(),
{
    let whole = body + seq![0u8] + rest;
    if body.len() > 0 {
        let t = body.skip(1);
        assert(forall|i: int| 0 <= i < t.len() ==> t[i] == body[i + 1]);
        lemma_run_of(t, rest);
        assert(whole.skip(1) =~= t + seq![0u8] + rest);
        assert(whole[0] == body[0]);
    } else {
        assert(whole[0] == 0);
    }
}

/// Stuffing leaves no zero byte, and unstuffing gives the message back.
pub proof fn law_unstuffed_stuffed(s: Seq<u8>)
    ensures
        zero_free(stuffed(s)),
        stuffed(s).len() > 0,
        unstuffed(stuffed(s)) == Some(s),
    decreases s.len(),
{
    lemma_run(s);
    let k = run(s) as int;
    let e = stuffed(s);
    if k >= 254 {
        let rest = s.skip(254);
        let tail = if s.len() <= 254 {
            Seq::<u8>::empty()
        } else {
            stuffed(rest)
        };
        assert(s.take(k).take(254) =~= s.take(254));
        assert forall|i: int| 0 <= i < 254 implies s[i] != 0 by {
            assert(s.take(k)[i] != 0);
        }
        if s.len() > 254 {
            law_unstuffed_stuffed(rest);
        } else {
            assert(rest =~= Seq::<u8>::empty());
            assert(unstuffed(tail) == Some(rest));
        }
        assert(e =~= seq![255u8] + s.take(254) + tail);
        assert(e.skip(255) =~= tail);
        assert(e.subrange(1, 255) =~= s.take(254));
        assert(s =~= s.take(254) + Seq::<u8>::empty() + rest);
    } else if k >= s.len() {
        assert(s.take(k) =~= s);
        assert(e.skip(k + 1) =~= Seq::<u8>::empty());
        assert(e.subrange(1, k + 1) =~= s);
        assert(s =~= s + Seq::<u8>::empty() + Seq::<u8>::empty());
        assert(unstuffed(e.skip(k + 1)) == Some(Seq::<u8>::empty()));
    } else {
        let rest = s.skip(k + 1);
        law_unstuffed_stuffed(rest);
        assert(e.skip(k + 1) =~= stuffed(rest));
        assert(e.subrange(1, k + 1) =~= s.take(k));
        assert(s =~= s.take(k) + seq![0u8] + rest);
    }
}

/// The stuffed form of a message is no longer than `max_stuffed_len` says.
pub proof fn law_stuffed_len(s: Seq<u8>)
    requires
        s.len() > 0,
    ensures
        stuffed(s).len() <= max_stuffed_len(s.len()),
    decreases s.len(),
{
    lemma_run(s);
    let k = run(s) as int;
    if k >= 254 {
        if s.len() > 254 {
            law_stuffed_len(s.skip(254));
        }
    } else if k < s.len() {
        if s.len() > k + 1 {
            law_stuffed_len(s.skip(k + 1));
        } else {
            assert(s.skip(k + 1) =~= Seq::<u8>::empty());
            assert(stuffed(Seq::<u8>::empty()).len() == 1);
        }
    }
}

/// Decoding takes the stuffed form back to the message.
pub proof fn law_decoded_stuffed(s: Seq<u8>)
    ensures
        decoded(stuffed(s)) == Some(s),
{
    law_unstuffed_stuffed(s);
    let e = stuffed(s);
    lemma_run_of(e, Seq::<u8>::empty());
    assert(after_zeros(e) == e);
    assert(e.take(e.len() as int) =~= e);
}

/// Position `j` of a stuffed message holds the count byte of a block.
pub open spec fn is_count(e: Seq<u8>, j: int) -> bool
    decreases e.len(),
{
    if e.len() == 0 || e[0] == 0 || e[0] > e.len() {
        false
    } else {
        j == 0 || is_count(e.skip(e[0] as int), j - e[0])
    }
}

/// Changing a byte that is no count byte changes one byte of the message, and
/// nothing else. Returns where.
pub(crate) proof fn lemma_changed_byte(e: Seq<u8>, j: int, v: u8) -> (i: int)
    requires
        unstuffed(e) is Some,
        0 <= j < e.len(),
        !is_count(e, j),
    ensures
        0 <= i < unstuffed(e)->0.len(),
        unstuffed(e)->0[i] == e[j],
        unstuffed(e.update(j, v)) == Some(unstuffed(e)->0.update(i, v)),
    decreases e.len(),
{
    let c = e[0] as int;
    let rest = e.skip(c);
    let changed = e.update(j, v);
    let zero = if c < 255 && rest.len() > 0 {
        seq![0u8]
    } else {
        Seq::<u8>::empty()
    };
    let head = e.subrange(1, c);
    if j < c {
        assert(changed.skip(c) =~= rest);
        assert(changed.subrange(1, c) =~= head.update(j - 1, v));
        let i = j - 1;
        assert(unstuffed(e)->0.update(i, v) =~= head.update(i, v) + zero + unstuffed(rest)->0);
        i
    } else {
        let k = lemma_changed_byte(rest, j - c, v);
        assert(changed.skip(c) =~= rest.update(j - c, v));
        assert(changed.subrange(1, c) =~= head);
        let i = head.len() as int + zero.len() as int + k;
        assert(unstuffed(e)->0.update(i, v) =~= head + zero + unstuffed(rest)->0.update(k, v));
        i
    }
}

} // verus!
