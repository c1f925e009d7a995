//! The content digest from which a transaction's identifier is taken.
//!
//! A 64-bit running value takes in the variant's tag and then each field, its
//! length first, so that no two field lists run together into the same words.

use vstd::prelude::*;
use vstd::wrapping::u64_specs::wrapping_mul;
use crate::error::Variant;

verus! {

/// The value that every digest starts from.
pub const DIGEST_BASIS: u64 = 0xcbf2_9ce4_8422_2325u64;

/// The multiplier of one step.
pub const DIGEST_PRIME: u64 = 0x0000_0100_0000_01b3u64;

/// One step of the digest: the word is folded in, then the value is spread.
pub open spec fn mix(h: u64, w: u64) -> u64 {
    wrapping_mul(h ^ w, DIGEST_PRIME)
}

/// The digest after the bytes of `s` went in, first to last.
pub open spec fn absorb(h: u64, s: Seq<u8>) -> u64
    decreases s.len(),
{
    if s.len() == 0 {
        h
    } else {
        mix(absorb(h, s.drop_last()), s.last() as u64)
    }
}

/// The digest after a field went in: its length, then its bytes.
pub open spec fn absorb_field(h: u64, s: Seq<u8>) -> u64 {
    absorb(mix(h, s.len() as u64), s)
}

/// The digest of a deployment's fields.
pub open spec fn deploy_digest(owner: Seq<u8>, deployment: Seq<u8>, fee: Seq<u8>) -> u64 {
    let h = mix(DIGEST_BASIS, Variant::Deploy.spec_tag() as u64);
    absorb_field(absorb_field(absorb_field(h, owner), deployment), fee)
}

/// The digest of an execution's fields. An absent fee and an empty one
/// differ.
pub open spec fn execute_digest(execution: Seq<u8>, fee: Option<Seq<u8>>) -> u64 {
    let h = absorb_field(mix(DIGEST_BASIS, Variant::Execute.spec_tag() as u64), execution);
    match fee {
        None => mix(h, 0),
        Some(f) => absorb_field(mix(h, 1), f),
    }
}

/// The digest of a fee transaction's one field.
pub open spec fn fee_digest(fee: Seq<u8>) -> u64 {
    absorb_field(mix(DIGEST_BASIS, Variant::Fee.spec_tag() as u64), fee)
}

/// One step of the digest.
pub fn mix_word(h: u64, w: u64) -> (r: u64)
    ensures
        r == mix(h, w),
{
    (h ^ w).wrapping_mul(DIGEST_PRIME)
}

/// Takes the bytes into the digest, first to last.
pub fn absorb_bytes(h: u64, bytes: &[u8]) -> (r: u64)
    ensures
        r == absorb(h, bytes@),
{
    let mut acc: u64 = h;
    let mut i: usize = 0;
    while i < bytes.len()
        invariant
            i <= bytes@.len(),
            acc == absorb(h, bytes@.take(i as int)),
        decreases bytes@.len() - i,
    {
        assert(bytes@.take(i + 1).drop_last() =~= bytes@.take(i as int));
        acc = mix_word(acc, bytes[i] as u64);
        i = i + 1;
    }
    assert(bytes@.take(i as int) =~= bytes@);
    acc
}

/// Takes a field into the digest: its length, then its bytes.
pub fn absorb_field_bytes(h: u64, bytes: &[u8]) -> (r: u64)
    ensures
        r == absorb_field(h, bytes@),
{
    absorb_bytes(mix_word(h, bytes.len() as u64), bytes)
}

/// The identifier that a deployment with these fields has.
pub fn compute_deploy_digest(owner: &[u8], deployment: &[u8], fee: &[u8]) -> (r: u64)
    ensures
        r == deploy_digest(owner@, deployment@, fee@),
{
    let h: u64 = mix_word(DIGEST_BASIS, Variant::Deploy.tag() as u64);
    absorb_field_bytes(absorb_field_bytes(absorb_field_bytes(h, owner), deployment), fee)
}

/// The identifier that an execution with these fields has.
pub fn compute_execute_digest(execution: &[u8], fee: Option<&[u8]>) -> (r: u64)
    ensures
        r == execute_digest(
            execution@,
            match fee {
                None => None,
                Some(f) => Some(f@),
            },
        ),
{
    let h: u64 = absorb_field_bytes(
        mix_word(DIGEST_BASIS, Variant::Execute.tag() as u64),
        execution,
    );
    match fee {
        None => mix_word(h, 0),
        Some(f) => absorb_field_bytes(mix_word(h, 1), f),
    }
}

/// The identifier that a fee transaction with this fee has.
pub fn compute_fee_digest(fee: &[u8]) -> (r: u64)
    ensures
        r == fee_digest(fee@),
{
    absorb_field_bytes(mix_word(DIGEST_BASIS, Variant::Fee.tag() as u64), fee)
}

} // verus!
