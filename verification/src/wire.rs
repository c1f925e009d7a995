//! The wire format, as functions on byte sequences.
//!
//! ```text
//! version   1 byte, always 1
//! tag       1 byte: 0 deploy, 1 execute, 2 fee
//! id        8 bytes, low byte first
//! deploy:   owner, deployment, fee
//! execute:  execution, presence byte (0 or 1), fee if the byte is 1
//! fee:      fee
//! ```
//! A sub-object is written as its length in 4 bytes, low byte first, and then
//! its bytes.

use vstd::prelude::*;
use vstd::bytes::{
    spec_u32_from_le_bytes, spec_u32_to_le_bytes, spec_u64_from_le_bytes, spec_u64_to_le_bytes,
};
use crate::error::{in_field, CodecError, Field, Variant};
use crate::stream::{read_at, write_after};
use crate::transaction::TransactionModel;

verus! {

/// The one supported version.
pub const VERSION: u8 = 1u8;

/// The longest sub-object that a length prefix can announce.
pub const MAX_FIELD_LEN: usize = 0xffff_ffffusize;

/// The bytes in a stream, or the failure that ended it.
pub type Written = Result<Seq<u8>, CodecError>;

/// A sub-object on the wire: its length, then its bytes.
pub open spec fn frame(payload: Seq<u8>) -> Seq<u8> {
    spec_u32_to_le_bytes(payload.len() as u32) + payload
}

/// The bytes before the variant's fields: version, tag and identifier.
pub open spec fn header(t: TransactionModel) -> Seq<u8> {
    seq![VERSION, t.variant().spec_tag()] + spec_u64_to_le_bytes(t.id())
}

/// The canonical bytes of a transaction, with no ceiling applied.
pub open spec fn wire(t: TransactionModel) -> Seq<u8> {
    match t {
        TransactionModel::Deploy { owner, deployment, fee, .. } => header(t) + frame(owner)
            + frame(deployment) + frame(fee),
        TransactionModel::Execute { execution, fee, .. } => match fee {
            None => header(t) + frame(execution) + seq![0u8],
            Some(f) => header(t) + frame(execution) + seq![1u8] + frame(f),
        },
        TransactionModel::Fee { fee, .. } => header(t) + frame(fee),
    }
}

/// Every sub-object is short enough for its length prefix.
pub open spec fn framable(t: TransactionModel) -> bool {
    match t {
        TransactionModel::Deploy { owner, deployment, fee, .. } => owner.len() <= MAX_FIELD_LEN
            && deployment.len() <= MAX_FIELD_LEN && fee.len() <= MAX_FIELD_LEN,
        TransactionModel::Execute { execution, fee, .. } => execution.len() <= MAX_FIELD_LEN && (
        match fee {
            None => true,
            Some(f) => f.len() <= MAX_FIELD_LEN,
        }),
        TransactionModel::Fee { fee, .. } => fee.len() <= MAX_FIELD_LEN,
    }
}

/// One more write on a stream that may have failed already.
pub open spec fn put(acc: Written, bytes: Seq<u8>, limit: nat) -> Written {
    match acc {
        Err(e) => Err(e),
        Ok(w) => write_after(w, bytes, limit),
    }
}

/// One more sub-object on a stream that may have failed already. One that
/// is too long for its prefix fails before a byte of it is written.
pub open spec fn put_field(
    acc: Written,
    payload: Seq<u8>,
    variant: Variant,
    field: Field,
    limit: nat,
) -> Written {
    match acc {
        Err(e) => Err(e),
        Ok(w) => if payload.len() > MAX_FIELD_LEN {
            Err(CodecError::SubObjectEncode { variant, field })
        } else {
            put(put(Ok(w), spec_u32_to_le_bytes(payload.len() as u32), limit), payload, limit)
        },
    }
}

/// The writes of the header, on a fresh stream.
pub open spec fn put_header(t: TransactionModel, limit: nat) -> Written {
    put(
        put(put(Ok(Seq::<u8>::empty()), seq![VERSION], limit), seq![t.variant().spec_tag()], limit),
        spec_u64_to_le_bytes(t.id()),
        limit,
    )
}

/// What encoding gives under a ceiling of `limit` bytes: the writes in
/// their order, ended by the first that fails.
pub open spec fn spec_encode(t: TransactionModel, limit: nat) -> Written {
    let h = put_header(t, limit);
    match t {
        TransactionModel::Deploy { owner, deployment, fee, .. } => put_field(
            put_field(
                put_field(h, owner, Variant::Deploy, Field::Owner, limit),
                deployment,
                Variant::Deploy,
                Field::Deployment,
                limit,
            ),
            fee,
            Variant::Deploy,
            Field::Fee,
            limit,
        ),
        TransactionModel::Execute { execution, fee, .. } => {
            let e = put_field(h, execution, Variant::Execute, Field::Execution, limit);
            match fee {
                None => put(e, seq![0u8], limit),
                Some(f) => put_field(
                    put(e, seq![1u8], limit),
                    f,
                    Variant::Execute,
                    Field::Fee,
                    limit,
                ),
            }
        },
        TransactionModel::Fee { fee, .. } => put_field(h, fee, Variant::Fee, Field::Fee, limit),
    }
}

/// The identifier at `pos`, and where it ends.
pub open spec fn parse_id(input: Seq<u8>, pos: nat, limit: nat, variant: Variant) -> Result<
    (u64, nat),
    CodecError,
> {
    match read_at(input, pos, 8, limit) {
        Err(e) => Err(in_field(e, variant, Field::Identifier)),
        Ok(b) => Ok((spec_u64_from_le_bytes(b), pos + 8)),
    }
}

/// The sub-object at `pos`, and where it ends.
pub open spec fn parse_field(
    input: Seq<u8>,
    pos: nat,
    limit: nat,
    variant: Variant,
    field: Field,
) -> Result<(Seq<u8>, nat), CodecError> {
    match read_at(input, pos, 4, limit) {
        Err(e) => Err(in_field(e, variant, field)),
        Ok(prefix) => {
            let n = spec_u32_from_le_bytes(prefix) as nat;
            match read_at(input, pos + 4, n, limit) {
                Err(e) => Err(in_field(e, variant, field)),
                Ok(payload) => Ok((payload, pos + 4 + n)),
            }
        },
    }
}

/// The presence byte at `pos` and the fee that it announces.
pub open spec fn parse_optional_fee(input: Seq<u8>, pos: nat, limit: nat) -> Result<
    (Option<Seq<u8>>, nat),
    CodecError,
> {
    match read_at(input, pos, 1, limit) {
        Err(e) => Err(e),
        Ok(b) => if b[0] == 0 {
            Ok((None, pos + 1))
        } else if b[0] == 1 {
            match parse_field(input, pos + 1, limit, Variant::Execute, Field::Fee) {
                Err(e) => Err(e),
                Ok((fee, end)) => Ok((Some(fee), end)),
            }
        } else {
            Err(CodecError::InvalidFeeVariant)
        },
    }
}

/// The fields of a deployment, read after the tag.
pub open spec fn parse_deploy(input: Seq<u8>, limit: nat) -> Result<
    (TransactionModel, nat),
    CodecError,
> {
    match parse_id(input, 2, limit, Variant::Deploy) {
        Err(e) => Err(e),
        Ok((id, after_id)) => match parse_field(
            input,
            after_id,
            limit,
            Variant::Deploy,
            Field::Owner,
        ) {
            Err(e) => Err(e),
            Ok((owner, after_first)) => match parse_field(
                input,
                after_first,
                limit,
                Variant::Deploy,
                Field::Deployment,
            ) {
                Err(e) => Err(e),
                Ok((deployment, after_second)) => match parse_field(
                    input,
                    after_second,
                    limit,
                    Variant::Deploy,
                    Field::Fee,
                ) {
                    Err(e) => Err(e),
                    Ok((fee, after_third)) => Ok(
                        (TransactionModel::Deploy { id, owner, deployment, fee }, after_third),
                    ),
                },
            },
        },
    }
}

/// The fields of an execution, read after the tag.
pub open spec fn parse_execute(input: Seq<u8>, limit: nat) -> Result<
    (TransactionModel, nat),
    CodecError,
> {
    match parse_id(input, 2, limit, Variant::Execute) {
        Err(e) => Err(e),
        Ok((id, after_id)) => match parse_field(
            input,
            after_id,
            limit,
            Variant::Execute,
            Field::Execution,
        ) {
            Err(e) => Err(e),
            Ok((execution, after_first)) => match parse_optional_fee(input, after_first, limit) {
                Err(e) => Err(e),
                Ok((fee, after_second)) => Ok(
                    (TransactionModel::Execute { id, execution, fee }, after_second),
                ),
            },
        },
    }
}

/// The fields of a fee transaction, read after the tag.
pub open spec fn parse_fee(input: Seq<u8>, limit: nat) -> Result<
    (TransactionModel, nat),
    CodecError,
> {
    match parse_id(input, 2, limit, Variant::Fee) {
        Err(e) => Err(e),
        Ok((id, after_id)) => match parse_field(input, after_id, limit, Variant::Fee, Field::Fee) {
            Err(e) => Err(e),
            Ok((fee, after_first)) => Ok((TransactionModel::Fee { id, fee }, after_first)),
        },
    }
}

/// The fields as the stream holds them, the identifier taken on trust, and
/// the number of bytes read.
pub open spec fn parse_raw(input: Seq<u8>, limit: nat) -> Result<
    (TransactionModel, nat),
    CodecError,
> {
    match read_at(input, 0, 1, limit) {
        Err(e) => Err(e),
        Ok(v) => if v[0] != VERSION {
            Err(CodecError::InvalidVersion)
        } else {
            match read_at(input, 1, 1, limit) {
                Err(e) => Err(e),
                Ok(t) => if t[0] == 0 {
                    parse_deploy(input, limit)
                } else if t[0] == 1 {
                    parse_execute(input, limit)
                } else if t[0] == 2 {
                    parse_fee(input, limit)
                } else {
                    Err(CodecError::InvalidVariant)
                },
            }
        },
    }
}

/// The last step of decoding: the variant's constructor is run on the fields
/// read, and the identifier that it computes is held against the one read.
pub open spec fn verify_identity(raw: TransactionModel) -> Result<TransactionModel, CodecError> {
    match raw.rebuilt() {
        Err(e) => Err(CodecError::InvalidTransaction(e)),
        Ok(t) => if t.id() == raw.id() {
            Ok(t)
        } else {
            Err(CodecError::IdentifierMismatch)
        },
    }
}

/// What decoding gives under a ceiling of `limit` bytes. Bytes after the
/// transaction are not read.
pub open spec fn spec_decode(input: Seq<u8>, limit: nat) -> Result<TransactionModel, CodecError> {
    match parse_raw(input, limit) {
        Err(e) => Err(e),
        Ok((raw, _)) => verify_identity(raw),
    }
}

} // verus!
