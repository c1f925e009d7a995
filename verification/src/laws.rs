//! What holds of encoding and decoding together.

use vstd::prelude::*;
use vstd::bytes::{
    lemma_auto_spec_u32_to_from_le_bytes, lemma_auto_spec_u64_to_from_le_bytes,
    spec_u32_from_le_bytes, spec_u32_to_le_bytes, spec_u64_from_le_bytes, spec_u64_to_le_bytes,
};
use crate::error::{CodecError, Field, Variant};
use crate::stream::read_at;
use crate::transaction::{deployment_model, execution_model, fee_model, TransactionModel};
use crate::wire::{
    frame, framable, header, parse_field, parse_id, parse_raw, put_header, spec_decode,
    spec_encode, wire, MAX_FIELD_LEN, VERSION,
};

verus! {

/// The transaction with another identifier stored on it.
pub open spec fn with_id(t: TransactionModel, id: u64) -> TransactionModel {
    match t {
        TransactionModel::Deploy { owner, deployment, fee, .. } => TransactionModel::Deploy {
            id,
            owner,
            deployment,
            fee,
        },
        TransactionModel::Execute { execution, fee, .. } => TransactionModel::Execute {
            id,
            execution,
            fee,
        },
        TransactionModel::Fee { fee, .. } => TransactionModel::Fee { id, fee },
    }
}

/// The byte with bit `k` inverted.
pub open spec fn flip_bit(b: u8, k: u8) -> u8 {
    b ^ (1u8 << k)
}

/// A framed sub-object that lies whole in the input at `pos` is read back as
/// it was written if the ceiling allows all of it, and stopped by the
/// ceiling otherwise.
pub proof fn lemma_parse_frame(
    input: Seq<u8>,
    pos: nat,
    payload: Seq<u8>,
    limit: nat,
    variant: Variant,
    field: Field,
)
    requires
        payload.len() <= MAX_FIELD_LEN,
        pos + 4 + payload.len() <= input.len(),
        input.subrange(pos as int, (pos + 4 + payload.len()) as int) == frame(payload),
    ensures
        parse_field(input, pos, limit, variant, field) == (if pos + 4 + payload.len() <= limit {
            Ok((payload, pos + 4 + payload.len()))
        } else {
            Err(CodecError::SizeLimitExceeded)
        }),
{
    lemma_auto_spec_u32_to_from_le_bytes();
    let n = payload.len();
    let whole = input.subrange(pos as int, (pos + 4 + n) as int);
    let prefix = spec_u32_to_le_bytes(n as u32);
    assert(prefix.len() == 4);
    assert(input.subrange(pos as int, (pos + 4) as int) =~= whole.subrange(0, 4));
    assert(whole.subrange(0, 4) =~= prefix);
    assert(spec_u32_from_le_bytes(prefix) == n as u32);
    assert(input.subrange((pos + 4) as int, (pos + 4 + n) as int) =~= whole.subrange(
        4,
        4 + n as int,
    ));
    assert(whole.subrange(4, 4 + n as int) =~= payload);
}

/// The header of `wire(t)` is read back as it was written.
pub proof fn lemma_parse_header(t: TransactionModel, input: Seq<u8>, limit: nat)
    requires
        input.len() >= 10,
        input.subrange(0, 10) == header(t),
    ensures
        input[0] == VERSION,
        input[1] == t.variant().spec_tag(),
        read_at(input, 0, 1, limit) == (if 1 <= limit {
            Ok(seq![VERSION])
        } else {
            Err(CodecError::SizeLimitExceeded)
        }),
        read_at(input, 1, 1, limit) == (if 2 <= limit {
            Ok(seq![t.variant().spec_tag()])
        } else {
            Err(CodecError::SizeLimitExceeded)
        }),
        parse_id(input, 2, limit, t.variant()) == (if 10 <= limit {
            Ok((t.id(), 10nat))
        } else {
            Err(CodecError::SizeLimitExceeded)
        }),
{
    lemma_auto_spec_u64_to_from_le_bytes();
    let h = input.subrange(0, 10);
    let id_bytes = spec_u64_to_le_bytes(t.id());
    assert(id_bytes.len() == 8);
    assert(h[0] == VERSION);
    assert(h[1] == t.variant().spec_tag());
    assert(input[0] == h[0]);
    assert(input[1] == h[1]);
    assert(input.subrange(0, 1) =~= seq![VERSION]);
    assert(input.subrange(1, 2) =~= seq![t.variant().spec_tag()]);
    assert(input.subrange(2, 10) =~= h.subrange(2, 10));
    assert(h.subrange(2, 10) =~= id_bytes);
}

/// The length of the canonical bytes.
pub open spec fn wire_len(t: TransactionModel) -> nat {
    match t {
        TransactionModel::Deploy { owner, deployment, fee, .. } => 10 + (4 + owner.len()) + (4
            + deployment.len()) + (4 + fee.len()),
        TransactionModel::Execute { execution, fee, .. } => 10 + (4 + execution.len()) + 1 + (
        match fee {
            None => 0,
            Some(f) => 4 + f.len(),
        }),
        TransactionModel::Fee { fee, .. } => 10 + (4 + fee.len()),
    }
}

pub proof fn lemma_wire_len(t: TransactionModel)
    ensures
        wire(t).len() == wire_len(t),
        wire(t).len() >= 10,
        wire(t).subrange(0, 10) == header(t),
{
    lemma_auto_spec_u32_to_from_le_bytes();
    lemma_auto_spec_u64_to_from_le_bytes();
    assert(header(t).len() == 10);
    assert(wire(t).subrange(0, 10) =~= header(t));
}

/// Under a ceiling, a transaction whose sub-objects fit their prefixes is
/// encoded as its canonical bytes if they are few enough, and not at all
/// otherwise.
pub proof fn lemma_encode_is_wire(t: TransactionModel, limit: nat)
    requires
        framable(t),
    ensures
        spec_encode(t, limit) == (if wire(t).len() <= limit {
            Ok(wire(t))
        } else {
            Err(CodecError::SizeLimitExceeded)
        }),
{
    lemma_auto_spec_u32_to_from_le_bytes();
    lemma_auto_spec_u64_to_from_le_bytes();
    lemma_wire_len(t);
    let empty = Seq::<u8>::empty();
    assert(empty + seq![VERSION] + seq![t.variant().spec_tag()] =~= seq![
        VERSION,
        t.variant().spec_tag(),
    ]);
    if wire(t).len() <= limit {
        assert(put_header(t, limit) == Ok::<Seq<u8>, CodecError>(header(t)));
        match t {
            TransactionModel::Deploy { owner, deployment, fee, .. } => {
                assert(header(t) + spec_u32_to_le_bytes(owner.len() as u32) + owner =~= header(t)
                    + frame(owner));
                assert(header(t) + frame(owner) + spec_u32_to_le_bytes(deployment.len() as u32)
                    + deployment =~= header(t) + frame(owner) + frame(deployment));
                assert(header(t) + frame(owner) + frame(deployment) + spec_u32_to_le_bytes(
                    fee.len() as u32,
                ) + fee =~= wire(t));
            },
            TransactionModel::Execute { execution, fee, .. } => {
                assert(header(t) + spec_u32_to_le_bytes(execution.len() as u32) + execution
                    =~= header(t) + frame(execution));
                match fee {
                    None => {},
                    Some(f) => {
                        assert(header(t) + frame(execution) + seq![1u8] + spec_u32_to_le_bytes(
                            f.len() as u32,
                        ) + f =~= wire(t));
                    },
                }
            },
            TransactionModel::Fee { fee, .. } => {
                assert(header(t) + spec_u32_to_le_bytes(fee.len() as u32) + fee =~= wire(t));
            },
        }
    } else {
        match t {
            TransactionModel::Deploy { owner, deployment, fee, .. } => {},
            TransactionModel::Execute { execution, fee, .. } => {},
            TransactionModel::Fee { fee, .. } => {},
        }
    }
}

/// Only a transaction whose sub-objects fit their prefixes is encoded.
pub proof fn lemma_encoded_is_framable(t: TransactionModel, limit: nat)
    requires
        spec_encode(t, limit) is Ok,
    ensures
        framable(t),
{
}

/// The canonical bytes, with whatever follows them, are parsed back into
/// the fields and the stored identifier if the ceiling allows all of them,
/// and stopped by the ceiling otherwise.
pub proof fn lemma_parse_wire(t: TransactionModel, rest: Seq<u8>, limit: nat)
    requires
        framable(t),
    ensures
        parse_raw(wire(t) + rest, limit) == (if wire(t).len() <= limit {
            Ok((t, wire(t).len()))
        } else {
            Err(CodecError::SizeLimitExceeded)
        }),
{
    lemma_auto_spec_u32_to_from_le_bytes();
    lemma_wire_len(t);
    let input = wire(t) + rest;
    assert(input.subrange(0, 10) =~= wire(t).subrange(0, 10));
    lemma_parse_header(t, input, limit);
    match t {
        TransactionModel::Deploy { id, owner, deployment, fee } => {
            let after_first: int = 14int + owner.len();
            let after_second: int = after_first + 4 + deployment.len();
            let after_third: int = after_second + 4 + fee.len();
            assert(input.subrange(10, after_first) =~= frame(owner));
            assert(input.subrange(after_first, after_second) =~= frame(deployment));
            assert(input.subrange(after_second, after_third) =~= frame(fee));
            lemma_parse_frame(input, 10, owner, limit, Variant::Deploy, Field::Owner);
            lemma_parse_frame(
                input,
                after_first as nat,
                deployment,
                limit,
                Variant::Deploy,
                Field::Deployment,
            );
            lemma_parse_frame(input, after_second as nat, fee, limit, Variant::Deploy, Field::Fee);
        },
        TransactionModel::Execute { id, execution, fee } => {
            let after_first: int = 14int + execution.len();
            assert(input.subrange(10, after_first) =~= frame(execution));
            lemma_parse_frame(input, 10, execution, limit, Variant::Execute, Field::Execution);
            match fee {
                None => {
                    assert(input.subrange(after_first, after_first + 1) =~= seq![0u8]);
                },
                Some(f) => {
                    let after_second: int = after_first + 1 + 4 + f.len();
                    assert(input.subrange(after_first, after_first + 1) =~= seq![1u8]);
                    assert(input.subrange(after_first + 1, after_second) =~= frame(f));
                    lemma_parse_frame(
                        input,
                        (after_first + 1) as nat,
                        f,
                        limit,
                        Variant::Execute,
                        Field::Fee,
                    );
                },
            }
        },
        TransactionModel::Fee { id, fee } => {
            let after_first: int = 14int + fee.len();
            assert(input.subrange(10, after_first) =~= frame(fee));
            lemma_parse_frame(input, 10, fee, limit, Variant::Fee, Field::Fee);
        },
    }
}

/// Decoding inverts encoding: the bytes that encoding gives for a
/// transaction made by a constructor decode to that transaction.
pub proof fn round_trip(t: TransactionModel, limit: nat)
    requires
        t.valid(),
        spec_encode(t, limit) is Ok,
    ensures
        spec_decode(spec_encode(t, limit)->Ok_0, limit) == Ok::<TransactionModel, CodecError>(t),
{
    lemma_encoded_is_framable(t, limit);
    lemma_encode_is_wire(t, limit);
    lemma_parse_wire(t, Seq::empty(), limit);
    assert(wire(t) + Seq::<u8>::empty() =~= wire(t));
}

/// Decoding reads the transaction and nothing after it: the bytes that
/// follow an encoding in the input change nothing.
pub proof fn round_trip_before_other_bytes(t: TransactionModel, rest: Seq<u8>, limit: nat)
    requires
        t.valid(),
        spec_encode(t, limit) is Ok,
    ensures
        spec_decode(spec_encode(t, limit)->Ok_0 + rest, limit) == Ok::<
            TransactionModel,
            CodecError,
        >(t),
        parse_raw(spec_encode(t, limit)->Ok_0 + rest, limit)->Ok_0.1 == spec_encode(
            t,
            limit,
        )->Ok_0.len(),
{
    lemma_encoded_is_framable(t, limit);
    lemma_encode_is_wire(t, limit);
    lemma_parse_wire(t, rest, limit);
}

/// Encoding what was decoded from an encoding gives the same bytes again.
pub proof fn canonical_form(t: TransactionModel, limit: nat)
    requires
        t.valid(),
        spec_encode(t, limit) is Ok,
    ensures
        spec_decode(spec_encode(t, limit)->Ok_0, limit) is Ok,
        spec_encode(spec_decode(spec_encode(t, limit)->Ok_0, limit)->Ok_0, limit) == spec_encode(
            t,
            limit,
        ),
{
    round_trip(t, limit);
}

/// What a constructor gives is valid: it stores the digest of its fields.
pub proof fn constructed_is_valid(
    owner: Seq<u8>,
    deployment: Seq<u8>,
    execution: Seq<u8>,
    fee: Seq<u8>,
    optional_fee: Option<Seq<u8>>,
)
    ensures
        deployment_model(owner, deployment, fee) is Ok ==> deployment_model(
            owner,
            deployment,
            fee,
        )->Ok_0.valid(),
        execution_model(execution, optional_fee) is Ok ==> execution_model(
            execution,
            optional_fee,
        )->Ok_0.valid(),
        fee_model(fee) is Ok ==> fee_model(fee)->Ok_0.valid(),
{
}

/// Whatever decoding returns is a transaction that its constructor gives:
/// the stored identifier is the digest of the fields.
pub proof fn decoded_is_valid(input: Seq<u8>, limit: nat)
    requires
        spec_decode(input, limit) is Ok,
    ensures
        spec_decode(input, limit)->Ok_0.valid(),
{
}

/// A sub-object that was read lies in the input as its frame.
pub proof fn lemma_parsed_field_is_frame(
    input: Seq<u8>,
    pos: nat,
    limit: nat,
    variant: Variant,
    field: Field,
)
    requires
        parse_field(input, pos, limit, variant, field) is Ok,
    ensures
        ({
            let (payload, end) = parse_field(input, pos, limit, variant, field)->Ok_0;
            &&& payload.len() <= MAX_FIELD_LEN
            &&& end == pos + 4 + payload.len()
            &&& end <= input.len()
            &&& end <= limit
            &&& input.subrange(pos as int, end as int) == frame(payload)
        }),
{
    lemma_auto_spec_u32_to_from_le_bytes();
    let prefix = input.subrange(pos as int, (pos + 4) as int);
    let n = spec_u32_from_le_bytes(prefix);
    let payload = input.subrange((pos + 4) as int, (pos + 4 + n) as int);
    assert(spec_u32_to_le_bytes(n) == prefix);
    assert(input.subrange(pos as int, (pos + 4 + n) as int) =~= prefix + payload);
}

/// One transaction, one byte sequence: the bytes that decoding read are the
/// canonical bytes of what it read, so no other bytes stand for the same
/// transaction.
pub proof fn accepted_bytes_are_canonical(input: Seq<u8>, limit: nat)
    requires
        parse_raw(input, limit) is Ok,
    ensures
        ({
            let (raw, end) = parse_raw(input, limit)->Ok_0;
            &&& framable(raw)
            &&& end <= input.len()
            &&& end <= limit
            &&& input.subrange(0, end as int) == wire(raw)
        }),
{
    lemma_auto_spec_u32_to_from_le_bytes();
    lemma_auto_spec_u64_to_from_le_bytes();
    let (raw, end) = parse_raw(input, limit)->Ok_0;
    let id_bytes = input.subrange(2, 10);
    assert(spec_u64_to_le_bytes(spec_u64_from_le_bytes(id_bytes)) == id_bytes);
    assert(input.subrange(0, 10) =~= seq![input[0], input[1]] + id_bytes);
    match raw {
        TransactionModel::Deploy { id, owner, deployment, fee } => {
            lemma_parsed_field_is_frame(input, 10, limit, Variant::Deploy, Field::Owner);
            let after_first = 14 + owner.len();
            lemma_parsed_field_is_frame(input, after_first, limit, Variant::Deploy, Field::Deployment);
            let after_second = after_first + 4 + deployment.len();
            lemma_parsed_field_is_frame(input, after_second, limit, Variant::Deploy, Field::Fee);
            assert(input.subrange(0, end as int) =~= input.subrange(0, 10) + input.subrange(
                10,
                after_first as int,
            ) + input.subrange(after_first as int, after_second as int) + input.subrange(after_second as int, end as int));
        },
        TransactionModel::Execute { id, execution, fee } => {
            lemma_parsed_field_is_frame(input, 10, limit, Variant::Execute, Field::Execution);
            let after_first = 14 + execution.len();
            assert(input.subrange(after_first as int, (after_first + 1) as int) =~= seq![input[after_first as int]]);
            match fee {
                None => {
                    assert(input.subrange(0, end as int) =~= input.subrange(0, 10)
                        + input.subrange(10, after_first as int) + seq![0u8]);
                },
                Some(f) => {
                    lemma_parsed_field_is_frame(
                        input,
                        after_first + 1,
                        limit,
                        Variant::Execute,
                        Field::Fee,
                    );
                    assert(input.subrange(0, end as int) =~= input.subrange(0, 10)
                        + input.subrange(10, after_first as int) + seq![1u8] + input.subrange(
                        (after_first + 1) as int,
                        end as int,
                    ));
                },
            }
        },
        TransactionModel::Fee { id, fee } => {
            lemma_parsed_field_is_frame(input, 10, limit, Variant::Fee, Field::Fee);
            assert(input.subrange(0, end as int) =~= input.subrange(0, 10) + input.subrange(
                10,
                end as int,
            ));
        },
    }
}

/// Encoding what decoding returned gives back the bytes that were read.
pub proof fn decode_then_encode(input: Seq<u8>, limit: nat)
    requires
        spec_decode(input, limit) is Ok,
    ensures
        parse_raw(input, limit) is Ok,
        spec_encode(spec_decode(input, limit)->Ok_0, limit) == Ok::<Seq<u8>, CodecError>(
            input.subrange(0, parse_raw(input, limit)->Ok_0.1 as int),
        ),
{
    accepted_bytes_are_canonical(input, limit);
    let (raw, end) = parse_raw(input, limit)->Ok_0;
    let t = spec_decode(input, limit)->Ok_0;
    assert(t == raw);
    lemma_encode_is_wire(t, limit);
}

/// An encoding whose identifier field was changed, and nothing else, is
/// turned down for its identifier: decoding never gives another
/// transaction for it.
pub proof fn identity_enforcement(t: TransactionModel, tampered: Seq<u8>, limit: nat)
    requires
        t.valid(),
        spec_encode(t, limit) is Ok,
        tampered.len() == wire(t).len(),
        forall|i: int| 0 <= i < tampered.len() && !(2 <= i < 10) ==> tampered[i] == wire(t)[i],
        exists|i: int| 2 <= i < 10 && tampered[i] != wire(t)[i],
    ensures
        spec_decode(tampered, limit) == Err::<TransactionModel, CodecError>(
            CodecError::IdentifierMismatch,
        ),
{
    lemma_auto_spec_u32_to_from_le_bytes();
    lemma_auto_spec_u64_to_from_le_bytes();
    lemma_encoded_is_framable(t, limit);
    lemma_encode_is_wire(t, limit);
    lemma_wire_len(t);
    let field = tampered.subrange(2, 10);
    let forged = spec_u64_from_le_bytes(field);
    let u = with_id(t, forged);
    assert(spec_u64_to_le_bytes(forged) == field);
    lemma_wire_len(u);
    assert(wire(t).subrange(0, 10) == header(t));
    assert(wire(u).subrange(0, 10) == header(u));
    assert forall|i: int| 0 <= i < tampered.len() implies tampered[i] == wire(u)[i] by {
        if i < 2 {
            assert(wire(u)[i] == header(u)[i]);
            assert(wire(t)[i] == header(t)[i]);
        } else if i < 10 {
            assert(wire(u)[i] == header(u)[i]);
            assert(header(u)[i] == field[i - 2]);
        } else {
        }
    }
    assert(tampered =~= wire(u));
    let j = choose|i: int| 2 <= i < 10 && tampered[i] != wire(t)[i];
    assert(wire(t)[j] == header(t)[j]);
    assert(header(t)[j] == spec_u64_to_le_bytes(t.id())[j - 2]);
    assert(field[j - 2] == tampered[j]);
    assert(forged != t.id());
    lemma_parse_wire(u, Seq::empty(), limit);
    assert(wire(u) + Seq::<u8>::empty() =~= wire(u));
}

/// Inverting one bit of the identifier field of an encoding makes decoding
/// fail for the identifier.
pub proof fn identity_enforcement_bit_flip(t: TransactionModel, i: int, k: u8, limit: nat)
    requires
        t.valid(),
        spec_encode(t, limit) is Ok,
        2 <= i < 10,
        k < 8,
    ensures
        wire(t).len() >= 10,
        spec_decode(wire(t).update(i, flip_bit(wire(t)[i], k)), limit) == Err::<
            TransactionModel,
            CodecError,
        >(CodecError::IdentifierMismatch),
{
    lemma_wire_len(t);
    let b = wire(t)[i];
    assert(b ^ (1u8 << k) != b) by (bit_vector)
        requires
            k < 8,
    ;
    let tampered = wire(t).update(i, flip_bit(b, k));
    assert(tampered[i] != wire(t)[i]);
    identity_enforcement(t, tampered, limit);
}

/// A tag byte of 3 or more is turned down, whatever follows it.
pub proof fn tag_rejection(input: Seq<u8>, limit: nat)
    requires
        input.len() >= 2,
        limit >= 2,
        input[0] == VERSION,
        input[1] >= 3,
    ensures
        spec_decode(input, limit) == Err::<TransactionModel, CodecError>(
            CodecError::InvalidVariant,
        ),
{
}

/// A version byte other than 1 is turned down, whatever follows it.
pub proof fn version_rejection(input: Seq<u8>, limit: nat)
    requires
        input.len() >= 1,
        limit >= 1,
        input[0] != 1,
    ensures
        spec_decode(input, limit) == Err::<TransactionModel, CodecError>(
            CodecError::InvalidVersion,
        ),
{
}

/// In an execution whose identifier and execution were read, a presence
/// byte other than 0 and 1 is turned down, whatever follows it.
pub proof fn fee_presence_rejection(input: Seq<u8>, limit: nat)
    requires
        input.len() >= 2,
        input[0] == VERSION,
        input[1] == Variant::Execute.spec_tag(),
        parse_field(input, 10, limit, Variant::Execute, Field::Execution) is Ok,
        ({
            let at = parse_field(input, 10, limit, Variant::Execute, Field::Execution)->Ok_0.1;
            at < input.len() && at < limit && input[at as int] != 0 && input[at as int] != 1
        }),
    ensures
        spec_decode(input, limit) == Err::<TransactionModel, CodecError>(
            CodecError::InvalidFeeVariant,
        ),
{
}

/// Encoding never gives more bytes than the ceiling, and never anything but
/// the canonical bytes.
pub proof fn encoding_is_bounded(t: TransactionModel, limit: nat)
    requires
        spec_encode(t, limit) is Ok,
    ensures
        spec_encode(t, limit)->Ok_0 == wire(t),
        wire(t).len() <= limit,
{
    lemma_encoded_is_framable(t, limit);
    lemma_encode_is_wire(t, limit);
}

/// A transaction whose canonical bytes outnumber the ceiling is not
/// encoded; one whose execution alone does is among them.
pub proof fn size_enforced_on_encode(t: TransactionModel, limit: nat)
    requires
        wire(t).len() > limit,
    ensures
        spec_encode(t, limit) is Err,
        framable(t) ==> spec_encode(t, limit) == Err::<Seq<u8>, CodecError>(
            CodecError::SizeLimitExceeded,
        ),
{
    if spec_encode(t, limit) is Ok {
        encoding_is_bounded(t, limit);
    }
    if framable(t) {
        lemma_encode_is_wire(t, limit);
    }
}

/// An execution whose bytes alone outnumber the ceiling is not encoded.
pub proof fn oversized_execution_is_not_encoded(t: TransactionModel, limit: nat)
    requires
        t is Execute,
        t->execution.len() > limit,
    ensures
        spec_encode(t, limit) is Err,
{
    lemma_wire_len(t);
    size_enforced_on_encode(t, limit);
}

/// Canonical bytes that outnumber the ceiling are turned down for their
/// size.
pub proof fn size_enforced_on_decode(t: TransactionModel, limit: nat)
    requires
        framable(t),
        wire(t).len() > limit,
    ensures
        spec_decode(wire(t), limit) == Err::<TransactionModel, CodecError>(
            CodecError::SizeLimitExceeded,
        ),
{
    lemma_parse_wire(t, Seq::empty(), limit);
    assert(wire(t) + Seq::<u8>::empty() =~= wire(t));
}

/// Decoding reads no byte beyond the ceiling.
pub proof fn decoding_is_bounded(input: Seq<u8>, limit: nat)
    requires
        parse_raw(input, limit) is Ok,
    ensures
        parse_raw(input, limit)->Ok_0.1 <= limit,
        parse_raw(input, limit)->Ok_0.1 <= input.len(),
{
}

/// Decoding never looks past the ceiling: the bytes beyond it change
/// nothing, so a caller need not hold them.
pub proof fn decoding_ignores_bytes_past_the_ceiling(input: Seq<u8>, limit: nat)
    requires
        input.len() > limit,
    ensures
        spec_decode(input.subrange(0, limit as int), limit) == spec_decode(input, limit),
{
    let cut = input.subrange(0, limit as int);
    assert forall|pos: nat, n: nat| #[trigger]
        read_at(cut, pos, n, limit) == read_at(input, pos, n, limit) by {
        if pos + n <= limit {
            assert(cut.subrange(pos as int, (pos + n) as int) =~= input.subrange(
                pos as int,
                (pos + n) as int,
            ));
        }
    }
    assert(parse_raw(cut, limit) == parse_raw(input, limit));
}

} // verus!
