//! The stored form of a proposal.
//!
//! A record is a flat byte string:
//!
//! ```text
//! id            8 bytes, little endian
//! approve       4 bytes, little endian
//! reject        4 bytes, little endian
//! is_active     1 byte, 0 or 1
//! owner         4 bytes of length, then the identity
//! description   4 bytes of length, then UTF-8
//! voters        4 bytes of count, then each identity with 4 bytes of length
//! ```
//!
//! [`encode_record`] and [`decode_record`] define the format;
//! [`Proposal::to_bytes`] and [`Proposal::from_bytes`] implement it, and
//! [`lemma_decode_encode`] shows that a record of at most
//! [`MAX_RECORD_SIZE`] bytes decodes to the proposal it was made from.

use vstd::prelude::*;
use vstd::bytes::*;
use vstd::slice::*;
use vstd::string::*;
use vstd::utf8::*;
use crate::identity::{identity_views, Identity};
use crate::proposal::{Proposal, ProposalView};

verus! {

/// The largest record, in bytes, that the table accepts.
pub const MAX_RECORD_SIZE: usize = 5000;

/// The byte that stands for a flag.
pub open spec fn flag_byte(flag: bool) -> u8 {
    if flag {
        1u8
    } else {
        0u8
    }
}

/// A byte string behind its length.
pub open spec fn framed(item: Seq<u8>) -> Seq<u8> {
    spec_u32_to_le_bytes(item.len() as u32) + item
}

/// Byte strings one after the other, each behind its length.
pub open spec fn framed_all(items: Seq<Seq<u8>>) -> Seq<u8>
    decreases items.len(),
{
    if items.len() == 0 {
        Seq::empty()
    } else {
        framed_all(items.drop_last()) + framed(items.last())
    }
}

/// The stored form of a proposal.
pub open spec fn encode_record(p: ProposalView) -> Seq<u8> {
    spec_u64_to_le_bytes(p.id) + (spec_u32_to_le_bytes(p.approve) + (spec_u32_to_le_bytes(p.reject)
        + (seq![flag_byte(p.is_active)] + (framed(p.owner) + (framed(encode_utf8(p.description))
        + (spec_u32_to_le_bytes(p.voted.len() as u32) + framed_all(p.voted)))))))
}

/// Whether a proposal is small enough to be stored.
pub open spec fn storable(p: ProposalView) -> bool {
    encode_record(p).len() <= MAX_RECORD_SIZE
}

/// Reads a 64-bit number from the front of `s`; gives it with what follows.
pub open spec fn take_u64(s: Seq<u8>) -> Option<(u64, Seq<u8>)> {
    if s.len() >= 8 {
        Some((spec_u64_from_le_bytes(s.take(8)), s.skip(8)))
    } else {
        None
    }
}

/// Reads a 32-bit number from the front of `s`; gives it with what follows.
pub open spec fn take_u32(s: Seq<u8>) -> Option<(u32, Seq<u8>)> {
    if s.len() >= 4 {
        Some((spec_u32_from_le_bytes(s.take(4)), s.skip(4)))
    } else {
        None
    }
}

/// Reads a flag from the front of `s`; any byte but 0 and 1 is refused.
pub open spec fn take_flag(s: Seq<u8>) -> Option<(bool, Seq<u8>)> {
    if s.len() >= 1 && s[0] <= 1 {
        Some((s[0] == 1, s.skip(1)))
    } else {
        None
    }
}

/// Reads a byte string that stands behind its length.
pub open spec fn take_framed(s: Seq<u8>) -> Option<(Seq<u8>, Seq<u8>)> {
    match take_u32(s) {
        Some((len, rest)) => if rest.len() >= len {
            Some((rest.take(len as int), rest.skip(len as int)))
        } else {
            None
        },
        None => None,
    }
}

/// Reads `count` byte strings, each behind its length.
pub open spec fn take_framed_all(s: Seq<u8>, count: nat) -> Option<(Seq<Seq<u8>>, Seq<u8>)>
    decreases count,
{
    if count == 0 {
        Some((Seq::empty(), s))
    } else {
        match take_framed_all(s, (count - 1) as nat) {
            Some((items, rest)) => match take_framed(rest) {
                Some((item, after)) => Some((items.push(item), after)),
                None => None,
            },
            None => None,
        }
    }
}

/// The proposal that a record holds, if the bytes are a record: every field
/// is present, the description is UTF-8 and nothing follows the last voter.
pub open spec fn decode_record(s: Seq<u8>) -> Option<ProposalView> {
    match take_u64(s) {
        None => None,
        Some((id, s)) => match take_u32(s) {
            None => None,
            Some((approve, s)) => match take_u32(s) {
                None => None,
                Some((reject, s)) => match take_flag(s) {
                    None => None,
                    Some((is_active, s)) => match take_framed(s) {
                        None => None,
                        Some((owner, s)) => match take_framed(s) {
                            None => None,
                            Some((text, s)) => match take_u32(s) {
                                None => None,
                                Some((count, s)) => match take_framed_all(s, count as nat) {
                                    None => None,
                                    Some((voted, s)) => if s.len() == 0 && valid_utf8(text) {
                                        Some(
                                            ProposalView {
                                                id,
                                                description: decode_utf8(text),
                                                approve,
                                                reject,
                                                is_active,
                                                voted,
                                                owner,
                                            },
                                        )
                                    } else {
                                        None
                                    },
                                },
                            },
                        },
                    },
                },
            },
        },
    }
}

/// A framed item is four bytes longer than the item.
pub proof fn lemma_framed_len(item: Seq<u8>)
    ensures
        framed(item).len() == item.len() + 4,
{
    lemma_auto_spec_u32_to_from_le_bytes();
}

/// Framing more items never gives fewer bytes.
pub proof fn lemma_framed_all_prefix(items: Seq<Seq<u8>>, n: int)
    requires
        0 <= n <= items.len(),
    ensures
        framed_all(items.take(n)).len() <= framed_all(items).len(),
    decreases items.len(),
{
    if n == items.len() {
        assert(items.take(n) =~= items);
    } else {
        assert(items.take(n) =~= items.drop_last().take(n));
        lemma_framed_all_prefix(items.drop_last(), n);
    }
}

/// Every framed item costs its own length and four bytes more.
pub proof fn lemma_framed_all_len(items: Seq<Seq<u8>>, j: int)
    requires
        0 <= j < items.len(),
    ensures
        framed_all(items).len() >= 4 * items.len(),
        framed_all(items).len() >= items[j].len() + 4,
    decreases items.len(),
{
    lemma_framed_len(items.last());
    if items.len() > 1 {
        if j < items.len() - 1 {
            lemma_framed_all_len(items.drop_last(), j);
        } else {
            lemma_framed_all_len(items.drop_last(), 0);
        }
    } else {
        assert(framed_all(items.drop_last()) =~= Seq::<u8>::empty());
    }
}

/// The length of a record: 29 bytes of fixed fields and lengths, then the
/// owner, the description and the framed voters.
pub proof fn lemma_record_len(p: ProposalView)
    ensures
        encode_record(p).len() == 29 + p.owner.len() + encode_utf8(p.description).len()
            + framed_all(p.voted).len(),
        encode_record(p).len() >= 29 + p.owner.len() + encode_utf8(p.description).len() + 4
            * p.voted.len(),
{
    lemma_auto_spec_u32_to_from_le_bytes();
    lemma_auto_spec_u64_to_from_le_bytes();
    if p.voted.len() > 0 {
        lemma_framed_all_len(p.voted, 0);
    }
}

proof fn lemma_take_u64(v: u64, rest: Seq<u8>)
    ensures
        take_u64(spec_u64_to_le_bytes(v) + rest) == Some((v, rest)),
{
    lemma_auto_spec_u64_to_from_le_bytes();
    let s = spec_u64_to_le_bytes(v) + rest;
    assert(s.take(8) =~= spec_u64_to_le_bytes(v));
    assert(s.skip(8) =~= rest);
}

proof fn lemma_take_u32(v: u32, rest: Seq<u8>)
    ensures
        take_u32(spec_u32_to_le_bytes(v) + rest) == Some((v, rest)),
{
    lemma_auto_spec_u32_to_from_le_bytes();
    let s = spec_u32_to_le_bytes(v) + rest;
    assert(s.take(4) =~= spec_u32_to_le_bytes(v));
    assert(s.skip(4) =~= rest);
}

proof fn lemma_take_flag(flag: bool, rest: Seq<u8>)
    ensures
        take_flag(seq![flag_byte(flag)] + rest) == Some((flag, rest)),
{
    let s = seq![flag_byte(flag)] + rest;
    assert(s.skip(1) =~= rest);
}

proof fn lemma_take_framed(item: Seq<u8>, rest: Seq<u8>)
    requires
        item.len() <= u32::MAX,
    ensures
        take_framed(framed(item) + rest) == Some((item, rest)),
{
    let s = framed(item) + rest;
    assert(s =~= spec_u32_to_le_bytes(item.len() as u32) + (item + rest));
    lemma_take_u32(item.len() as u32, item + rest);
    assert((item + rest).take(item.len() as int) =~= item);
    assert((item + rest).skip(item.len() as int) =~= rest);
}

proof fn lemma_take_framed_all(items: Seq<Seq<u8>>, rest: Seq<u8>)
    requires
        forall|j: int| 0 <= j < items.len() ==> (#[trigger] items[j]).len() <= u32::MAX,
    ensures
        take_framed_all(framed_all(items) + rest, items.len()) == Some((items, rest)),
    decreases items.len(),
{
    if items.len() == 0 {
        assert(framed_all(items) + rest =~= rest);
        assert(items =~= Seq::<Seq<u8>>::empty());
    } else {
        let init = items.drop_last();
        let last = items.last();
        let s = framed_all(items) + rest;
        assert(s =~= framed_all(init) + (framed(last) + rest));
        lemma_take_framed_all(init, framed(last) + rest);
        lemma_take_framed(last, rest);
        assert(init.push(last) =~= items);
    }
}

/// Once the reading of framed items has failed, it fails for every larger
/// count.
pub proof fn lemma_take_framed_all_fails(s: Seq<u8>, reached: nat, count: nat)
    requires
        take_framed_all(s, reached) is None,
        reached <= count,
    ensures
        take_framed_all(s, count) is None,
    decreases count,
{
    if count > reached {
        lemma_take_framed_all_fails(s, reached, (count - 1) as nat);
    }
}

/// Reading back what was written: a proposal that is small enough to be
/// stored is the one that its record decodes to.
pub proof fn lemma_decode_encode(p: ProposalView)
    requires
        storable(p),
    ensures
        decode_record(encode_record(p)) == Some(p),
{
    lemma_record_len(p);
    let text = encode_utf8(p.description);
    let t7 = framed_all(p.voted);
    let t6 = spec_u32_to_le_bytes(p.voted.len() as u32) + t7;
    let t5 = framed(text) + t6;
    let t4 = framed(p.owner) + t5;
    let t3 = seq![flag_byte(p.is_active)] + t4;
    let t2 = spec_u32_to_le_bytes(p.reject) + t3;
    let t1 = spec_u32_to_le_bytes(p.approve) + t2;
    assert forall|j: int| 0 <= j < p.voted.len() implies (#[trigger] p.voted[j]).len()
        <= u32::MAX by {
        lemma_framed_all_len(p.voted, j);
    }
    lemma_take_u64(p.id, t1);
    lemma_take_u32(p.approve, t2);
    lemma_take_u32(p.reject, t3);
    lemma_take_flag(p.is_active, t4);
    lemma_take_framed(p.owner, t5);
    lemma_take_framed(text, t6);
    lemma_take_u32(p.voted.len() as u32, t7);
    assert(t7 =~= t7 + Seq::<u8>::empty());
    lemma_take_framed_all(p.voted, Seq::<u8>::empty());
    encode_utf8_valid_utf8(p.description);
    encode_utf8_decode_utf8(p.description);
}

/// Appends `src` to `out`.
fn append(out: &mut Vec<u8>, src: &[u8])
    ensures
        final(out)@ == old(out)@ + src@,
{
    let mut i: usize = 0;
    while i < src.len()
        invariant
            i <= src.len(),
            out@ == old(out)@ + src@.take(i as int),
        decreases src.len() - i,
    {
        out.push(src[i]);
        assert(src@.take(i + 1) =~= src@.take(i as int).push(src@[i as int]));
        i = i + 1;
    }
    assert(src@.take(src.len() as int) =~= src@);
}

/// Appends `item` to `out`, behind its length.
fn append_framed(out: &mut Vec<u8>, item: &[u8])
    requires
        item@.len() <= u32::MAX,
    ensures
        final(out)@ == old(out)@ + framed(item@),
{
    let len: u32 = item.len() as u32;
    let prefix = u32_to_le_bytes(len);
    append(out, prefix.as_slice());
    append(out, item);
    assert(out@ =~= old(out)@ + framed(item@));
}

/// Reads a 64-bit number at `pos`.
fn read_u64(bytes: &[u8], pos: usize) -> (r: Option<(u64, usize)>)
    requires
        pos <= bytes@.len(),
    ensures
        r is Some <==> take_u64(bytes@.skip(pos as int)) is Some,
        r matches Some((v, next)) ==> pos <= next <= bytes@.len() && take_u64(
            bytes@.skip(pos as int),
        ) == Some((v, bytes@.skip(next as int))),
{
    if bytes.len() - pos < 8 {
        return None;
    }
    let v: u64 = u64_from_le_bytes(slice_subrange(bytes, pos, pos + 8));
    assert(bytes@.skip(pos as int).take(8) =~= bytes@.subrange(pos as int, pos + 8));
    assert(bytes@.skip(pos as int).skip(8) =~= bytes@.skip(pos + 8));
    Some((v, pos + 8))
}

/// Reads a 32-bit number at `pos`.
fn read_u32(bytes: &[u8], pos: usize) -> (r: Option<(u32, usize)>)
    requires
        pos <= bytes@.len(),
    ensures
        r is Some <==> take_u32(bytes@.skip(pos as int)) is Some,
        r matches Some((v, next)) ==> pos <= next <= bytes@.len() && take_u32(
            bytes@.skip(pos as int),
        ) == Some((v, bytes@.skip(next as int))),
{
    if bytes.len() - pos < 4 {
        return None;
    }
    let v: u32 = u32_from_le_bytes(slice_subrange(bytes, pos, pos + 4));
    assert(bytes@.skip(pos as int).take(4) =~= bytes@.subrange(pos as int, pos + 4));
    assert(bytes@.skip(pos as int).skip(4) =~= bytes@.skip(pos + 4));
    Some((v, pos + 4))
}

/// Reads a flag at `pos`.
fn read_flag(bytes: &[u8], pos: usize) -> (r: Option<(bool, usize)>)
    requires
        pos <= bytes@.len(),
    ensures
        r is Some <==> take_flag(bytes@.skip(pos as int)) is Some,
        r matches Some((v, next)) ==> pos <= next <= bytes@.len() && take_flag(
            bytes@.skip(pos as int),
        ) == Some((v, bytes@.skip(next as int))),
{
    if bytes.len() - pos < 1 {
        return None;
    }
    let b: u8 = bytes[pos];
    assert(bytes@.skip(pos as int)[0] == b);
    if b > 1 {
        return None;
    }
    assert(bytes@.skip(pos as int).skip(1) =~= bytes@.skip(pos + 1));
    Some((b == 1, pos + 1))
}

/// Reads a byte string that stands behind its length at `pos`.
fn read_framed(bytes: &[u8], pos: usize) -> (r: Option<(Vec<u8>, usize)>)
    requires
        pos <= bytes@.len(),
    ensures
        r is Some <==> take_framed(bytes@.skip(pos as int)) is Some,
        r matches Some((v, next)) ==> pos <= next <= bytes@.len() && take_framed(
            bytes@.skip(pos as int),
        ) == Some((v@, bytes@.skip(next as int))),
{
    let (len, start) = match read_u32(bytes, pos) {
        Some(x) => x,
        None => {
            return None;
        },
    };
    let len: usize = len as usize;
    if bytes.len() - start < len {
        return None;
    }
    let item = slice_to_vec(slice_subrange(bytes, start, start + len));
    assert(bytes@.skip(start as int).take(len as int) =~= bytes@.subrange(
        start as int,
        start + len,
    ));
    assert(bytes@.skip(start as int).skip(len as int) =~= bytes@.skip(start + len));
    Some((item, start + len))
}

/// `String::from_utf8` of std: the text that `bytes` hold, if they are
/// UTF-8. The contract takes from the documentation of std that the call
/// succeeds exactly on valid UTF-8 and that the string then consists of the
/// characters that the bytes encode.
#[verifier::external_body]
fn string_from_utf8(bytes: Vec<u8>) -> (r: Option<String>)
    ensures
        r is Some <==> valid_utf8(bytes@),
        r matches Some(text) ==> text@ == decode_utf8(bytes@),
{
    match String::from_utf8(bytes) {
        Ok(text) => Some(text),
        Err(_) => None,
    }
}

impl Proposal {
    /// The record of the proposal, or `None` if it would be longer than
    /// [`MAX_RECORD_SIZE`] bytes.
    pub fn to_bytes(&self) -> (r: Option<Vec<u8>>)
        ensures
            r is Some <==> storable(self@),
            r matches Some(bytes) ==> bytes@ == encode_record(self@),
    {
        let text = self.description.as_str().as_bytes();
        proof {
            lemma_record_len(self@);
        }
        if self.owner.bytes.len() > MAX_RECORD_SIZE || text.len() > MAX_RECORD_SIZE
            || self.voted.len() > MAX_RECORD_SIZE {
            return None;
        }
        let mut out = u64_to_le_bytes(self.id);
        append(&mut out, u32_to_le_bytes(self.approve).as_slice());
        append(&mut out, u32_to_le_bytes(self.reject).as_slice());
        out.push(if self.is_active { 1u8 } else { 0u8 });
        append_framed(&mut out, self.owner.bytes.as_slice());
        append_framed(&mut out, text);
        let count: u32 = self.voted.len() as u32;
        append(&mut out, u32_to_le_bytes(count).as_slice());
        let ghost head = out@;
        let ghost voters = identity_views(self.voted@);
        assert(framed_all(voters.take(0)) =~= Seq::<u8>::empty());
        assert(encode_record(self@) =~= head + framed_all(voters));
        let mut i: usize = 0;
        while i < self.voted.len()
            invariant
                i <= self.voted.len(),
                voters == identity_views(self.voted@),
                encode_record(self@) == head + framed_all(voters),
                out@ == head + framed_all(voters.take(i as int)),
            decreases self.voted.len() - i,
        {
            proof {
                lemma_framed_all_prefix(voters, i as int);
            }
            if out.len() > MAX_RECORD_SIZE {
                return None;
            }
            let voter = &self.voted[i];
            if voter.bytes.len() > MAX_RECORD_SIZE {
                proof {
                    lemma_framed_all_len(voters, i as int);
                }
                return None;
            }
            append_framed(&mut out, voter.bytes.as_slice());
            assert(voters.take(i + 1).drop_last() =~= voters.take(i as int));
            assert(voters.take(i + 1).last() == voter@);
            i = i + 1;
        }
        assert(voters.take(i as int) =~= voters);
        if out.len() > MAX_RECORD_SIZE {
            return None;
        }
        Some(out)
    }

    /// The proposal that `bytes` hold, or `None` if they are not a record.
    pub fn from_bytes(bytes: &[u8]) -> (r: Option<Proposal>)
        ensures
            r is Some <==> decode_record(bytes@) is Some,
            r matches Some(p) ==> decode_record(bytes@) == Some(p@),
    {
        assert(bytes@.skip(0) =~= bytes@);
        let (id, pos) = match read_u64(bytes, 0) {
            Some(x) => x,
            None => {
                return None;
            },
        };
        let (approve, pos) = match read_u32(bytes, pos) {
            Some(x) => x,
            None => {
                return None;
            },
        };
        let (reject, pos) = match read_u32(bytes, pos) {
            Some(x) => x,
            None => {
                return None;
            },
        };
        let (is_active, pos) = match read_flag(bytes, pos) {
            Some(x) => x,
            None => {
                return None;
            },
        };
        let (owner, pos) = match read_framed(bytes, pos) {
            Some(x) => x,
            None => {
                return None;
            },
        };
        let (text, pos) = match read_framed(bytes, pos) {
            Some(x) => x,
            None => {
                return None;
            },
        };
        let (count, start) = match read_u32(bytes, pos) {
            Some(x) => x,
            None => {
                return None;
            },
        };
        let ghost tail = bytes@.skip(start as int);
        let mut voted: Vec<Identity> = Vec::new();
        let mut pos: usize = start;
        let mut i: u32 = 0;
        assert(identity_views(voted@) =~= Seq::<Seq<u8>>::empty());
        while i < count
            invariant
                i <= count,
                start <= pos <= bytes@.len(),
                take_framed_all(tail, count as nat) is None ==> decode_record(bytes@) is None,
                take_framed_all(tail, i as nat) == Some(
                    (identity_views(voted@), bytes@.skip(pos as int)),
                ),
            decreases count - i,
        {
            let (voter, next) = match read_framed(bytes, pos) {
                Some(x) => x,
                None => {
                    proof {
                        assert(take_framed_all(tail, (i + 1) as nat) is None);
                        lemma_take_framed_all_fails(tail, (i + 1) as nat, count as nat);
                    }
                    return None;
                },
            };
            let ghost before = identity_views(voted@);
            voted.push(Identity::new(voter));
            assert(identity_views(voted@) =~= before.push(voter@));
            pos = next;
            i = i + 1;
        }
        if pos != bytes.len() {
            return None;
        }
        let description = match string_from_utf8(text) {
            Some(x) => x,
            None => {
                return None;
            },
        };
        Some(
            Proposal {
                id,
                description,
                approve,
                reject,
                is_active,
                voted,
                owner: Identity::new(owner),
            },
        )
    }
}

} // verus!
