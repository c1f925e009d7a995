//! Encoding and decoding through the bounded streams.

use vstd::prelude::*;
use vstd::bytes::{u32_from_le_bytes, u32_to_le_bytes, u64_from_le_bytes, u64_to_le_bytes};
use vstd::slice::slice_to_vec;
use crate::error::{in_field, CodecError, ConstructionError, Field, Variant};
use crate::stream::{BoundedReader, BoundedWriter};
use crate::transaction::{
    Deployment, Execution, Fee, Owner, Transaction, TransactionID, TransactionModel,
    MAX_TRANSACTION_SIZE,
};
use crate::wire::{
    parse_deploy, parse_execute, parse_fee, parse_field, parse_id, parse_optional_fee, put_field,
    put_header, spec_decode, spec_encode, verify_identity, Written, MAX_FIELD_LEN, VERSION,
};

verus! {

/// A decoder's result as contracts speak of it.
pub open spec fn decoded_model(r: Result<Transaction, CodecError>) -> Result<
    TransactionModel,
    CodecError,
> {
    match r {
        Ok(t) => Ok(t@),
        Err(e) => Err(e),
    }
}

/// An encoder's result as contracts speak of it.
pub open spec fn encoded_model(r: Result<Vec<u8>, CodecError>) -> Written {
    match r {
        Ok(bytes) => Ok(bytes@),
        Err(e) => Err(e),
    }
}

/// The stream after a step that gave `r`.
pub open spec fn stream_after(r: Result<(), CodecError>, writer: BoundedWriter) -> Written {
    match r {
        Ok(_) => Ok(writer.written()),
        Err(e) => Err(e),
    }
}

fn lift(e: CodecError, variant: Variant, field: Field) -> (r: CodecError)
    ensures
        r == in_field(e, variant, field),
{
    match e {
        CodecError::UnexpectedEnd => CodecError::SubObjectDecode { variant, field },
        _ => e,
    }
}

fn read_id(reader: &mut BoundedReader, variant: Variant) -> (r: Result<TransactionID, CodecError>)
    requires
        old(reader).wf(),
    ensures
        final(reader).wf(),
        final(reader).input() == old(reader).input(),
        final(reader).limit() == old(reader).limit(),
        match r {
            Ok(id) => parse_id(
                old(reader).input(),
                old(reader).consumed(),
                old(reader).limit(),
                variant,
            ) == Ok::<(u64, nat), CodecError>((id.value, final(reader).consumed())),
            Err(e) => parse_id(
                old(reader).input(),
                old(reader).consumed(),
                old(reader).limit(),
                variant,
            ) == Err::<(u64, nat), CodecError>(e),
        },
{
    match reader.read(8) {
        Err(e) => Err(lift(e, variant, Field::Identifier)),
        Ok(bytes) => Ok(TransactionID { value: u64_from_le_bytes(bytes) }),
    }
}

fn read_field(reader: &mut BoundedReader, variant: Variant, field: Field) -> (r: Result<
    Vec<u8>,
    CodecError,
>)
    requires
        old(reader).wf(),
    ensures
        final(reader).wf(),
        final(reader).input() == old(reader).input(),
        final(reader).limit() == old(reader).limit(),
        match r {
            Ok(payload) => parse_field(
                old(reader).input(),
                old(reader).consumed(),
                old(reader).limit(),
                variant,
                field,
            ) == Ok::<(Seq<u8>, nat), CodecError>((payload@, final(reader).consumed())),
            Err(e) => parse_field(
                old(reader).input(),
                old(reader).consumed(),
                old(reader).limit(),
                variant,
                field,
            ) == Err::<(Seq<u8>, nat), CodecError>(e),
        },
{
    let prefix = match reader.read(4) {
        Err(e) => { return Err(lift(e, variant, field)); },
        Ok(bytes) => bytes,
    };
    let n: u32 = u32_from_le_bytes(prefix);
    match reader.read(n as usize) {
        Err(e) => Err(lift(e, variant, field)),
        Ok(bytes) => Ok(slice_to_vec(bytes)),
    }
}

fn read_optional_fee(reader: &mut BoundedReader) -> (r: Result<Option<Fee>, CodecError>)
    requires
        old(reader).wf(),
    ensures
        final(reader).wf(),
        final(reader).input() == old(reader).input(),
        final(reader).limit() == old(reader).limit(),
        match r {
            Ok(fee) => parse_optional_fee(
                old(reader).input(),
                old(reader).consumed(),
                old(reader).limit(),
            ) == Ok::<(Option<Seq<u8>>, nat), CodecError>(
                (
                    match fee {
                        None => None,
                        Some(f) => Some(f.bytes@),
                    },
                    final(reader).consumed(),
                ),
            ),
            Err(e) => parse_optional_fee(
                old(reader).input(),
                old(reader).consumed(),
                old(reader).limit(),
            ) == Err::<(Option<Seq<u8>>, nat), CodecError>(e),
        },
{
    let presence: u8 = match reader.read_u8() {
        Err(e) => { return Err(e); },
        Ok(b) => b,
    };
    if presence == 0 {
        Ok(None)
    } else if presence == 1 {
        match read_field(reader, Variant::Execute, Field::Fee) {
            Err(e) => Err(e),
            Ok(bytes) => Ok(Some(Fee { bytes })),
        }
    } else {
        Err(CodecError::InvalidFeeVariant)
    }
}

/// The terminal step of decoding: a transaction leaves only if the
/// identifier that its constructor computed is the one read from the stream.
pub fn check_identity(id: TransactionID, built: Result<Transaction, ConstructionError>) -> (r:
    Result<Transaction, CodecError>)
    ensures
        decoded_model(r) == (match built {
            Err(e) => Err(CodecError::InvalidTransaction(e)),
            Ok(t) => if t@.id() == id.value {
                Ok(t@)
            } else {
                Err(CodecError::IdentifierMismatch)
            },
        }),
{
    match built {
        Err(e) => Err(CodecError::InvalidTransaction(e)),
        Ok(t) => {
            if t.id().value == id.value {
                Ok(t)
            } else {
                Err(CodecError::IdentifierMismatch)
            }
        },
    }
}

fn read_deploy(reader: &mut BoundedReader) -> (r: Result<Transaction, CodecError>)
    requires
        old(reader).wf(),
        old(reader).consumed() == 2,
    ensures
        decoded_model(r) == (match parse_deploy(old(reader).input(), old(reader).limit()) {
            Err(e) => Err(e),
            Ok((raw, _)) => verify_identity(raw),
        }),
{
    let id = match read_id(reader, Variant::Deploy) {
        Err(e) => { return Err(e); },
        Ok(id) => id,
    };
    let owner = match read_field(reader, Variant::Deploy, Field::Owner) {
        Err(e) => { return Err(e); },
        Ok(bytes) => Owner { bytes },
    };
    let deployment = match read_field(reader, Variant::Deploy, Field::Deployment) {
        Err(e) => { return Err(e); },
        Ok(bytes) => Deployment { bytes },
    };
    let fee = match read_field(reader, Variant::Deploy, Field::Fee) {
        Err(e) => { return Err(e); },
        Ok(bytes) => Fee { bytes },
    };
    check_identity(id, Transaction::from_deployment(owner, deployment, fee))
}

fn read_execute(reader: &mut BoundedReader) -> (r: Result<Transaction, CodecError>)
    requires
        old(reader).wf(),
        old(reader).consumed() == 2,
    ensures
        decoded_model(r) == (match parse_execute(old(reader).input(), old(reader).limit()) {
            Err(e) => Err(e),
            Ok((raw, _)) => verify_identity(raw),
        }),
{
    let id = match read_id(reader, Variant::Execute) {
        Err(e) => { return Err(e); },
        Ok(id) => id,
    };
    let execution = match read_field(reader, Variant::Execute, Field::Execution) {
        Err(e) => { return Err(e); },
        Ok(bytes) => Execution { bytes },
    };
    let fee = match read_optional_fee(reader) {
        Err(e) => { return Err(e); },
        Ok(fee) => fee,
    };
    check_identity(id, Transaction::from_execution(execution, fee))
}

fn read_fee(reader: &mut BoundedReader) -> (r: Result<Transaction, CodecError>)
    requires
        old(reader).wf(),
        old(reader).consumed() == 2,
    ensures
        decoded_model(r) == (match parse_fee(old(reader).input(), old(reader).limit()) {
            Err(e) => Err(e),
            Ok((raw, _)) => verify_identity(raw),
        }),
{
    let id = match read_id(reader, Variant::Fee) {
        Err(e) => { return Err(e); },
        Ok(id) => id,
    };
    let fee = match read_field(reader, Variant::Fee, Field::Fee) {
        Err(e) => { return Err(e); },
        Ok(bytes) => Fee { bytes },
    };
    check_identity(id, Transaction::from_fee(fee))
}

fn write_field(writer: &mut BoundedWriter, payload: &Vec<u8>, variant: Variant, field: Field) -> (r:
    Result<(), CodecError>)
    ensures
        final(writer).limit() == old(writer).limit(),
        stream_after(r, *final(writer)) == put_field(
            Ok(old(writer).written()),
            payload@,
            variant,
            field,
            old(writer).limit(),
        ),
{
    if payload.len() > MAX_FIELD_LEN {
        return Err(CodecError::SubObjectEncode { variant, field });
    }
    let prefix = u32_to_le_bytes(payload.len() as u32);
    match writer.write(prefix.as_slice()) {
        Err(e) => { return Err(e); },
        Ok(_) => {},
    }
    writer.write(payload.as_slice())
}

fn write_header(writer: &mut BoundedWriter, variant: Variant, id: TransactionID) -> (r: Result<
    (),
    CodecError,
>)
    requires
        old(writer).written() == Seq::<u8>::empty(),
    ensures
        final(writer).limit() == old(writer).limit(),
        forall|t: TransactionModel|
            t.variant() == variant && t.id() == id.value ==> stream_after(r, *final(writer))
                == #[trigger] put_header(t, old(writer).limit()),
{
    match writer.write_u8(VERSION) {
        Err(e) => { return Err(e); },
        Ok(_) => {},
    }
    match writer.write_u8(variant.tag()) {
        Err(e) => { return Err(e); },
        Ok(_) => {},
    }
    let id_bytes = u64_to_le_bytes(id.value);
    writer.write(id_bytes.as_slice())
}

impl Transaction {
    /// Decodes a transaction from the front of `bytes`, reading at most
    /// `MAX_TRANSACTION_SIZE` of them.
    pub fn read_le(bytes: &[u8]) -> (r: Result<Transaction, CodecError>)
        ensures
            decoded_model(r) == spec_decode(bytes@, MAX_TRANSACTION_SIZE as nat),
    {
        Transaction::read_le_bounded(bytes, MAX_TRANSACTION_SIZE)
    }

    /// Decodes a transaction from the front of `bytes`, reading at most
    /// `limit` of them.
    pub fn read_le_bounded(bytes: &[u8], limit: usize) -> (r: Result<Transaction, CodecError>)
        ensures
            decoded_model(r) == spec_decode(bytes@, limit as nat),
    {
        let mut reader = BoundedReader::new(bytes, limit);
        let version: u8 = match reader.read_u8() {
            Err(e) => { return Err(e); },
            Ok(b) => b,
        };
        if version != VERSION {
            return Err(CodecError::InvalidVersion);
        }
        let tag: u8 = match reader.read_u8() {
            Err(e) => { return Err(e); },
            Ok(b) => b,
        };
        if tag == 0 {
            read_deploy(&mut reader)
        } else if tag == 1 {
            read_execute(&mut reader)
        } else if tag == 2 {
            read_fee(&mut reader)
        } else {
            Err(CodecError::InvalidVariant)
        }
    }

    /// Encodes the transaction in at most `MAX_TRANSACTION_SIZE` bytes.
    pub fn write_le(&self) -> (r: Result<Vec<u8>, CodecError>)
        ensures
            encoded_model(r) == spec_encode(self@, MAX_TRANSACTION_SIZE as nat),
    {
        self.write_le_bounded(MAX_TRANSACTION_SIZE)
    }

    /// Encodes the transaction in at most `limit` bytes. The identifier is
    /// written as stored.
    pub fn write_le_bounded(&self, limit: usize) -> (r: Result<Vec<u8>, CodecError>)
        ensures
            encoded_model(r) == spec_encode(self@, limit as nat),
    {
        let mut writer = BoundedWriter::new(limit);
        match write_header(&mut writer, self.variant(), self.id()) {
            Err(e) => { return Err(e); },
            Ok(_) => {},
        }
        match self {
            Transaction::Deploy(_, owner, deployment, fee) => {
                match write_field(&mut writer, &owner.bytes, Variant::Deploy, Field::Owner) {
                    Err(e) => { return Err(e); },
                    Ok(_) => {},
                }
                match write_field(
                    &mut writer,
                    &deployment.bytes,
                    Variant::Deploy,
                    Field::Deployment,
                ) {
                    Err(e) => { return Err(e); },
                    Ok(_) => {},
                }
                match write_field(&mut writer, &fee.bytes, Variant::Deploy, Field::Fee) {
                    Err(e) => { return Err(e); },
                    Ok(_) => {},
                }
            },
            Transaction::Execute(_, execution, fee) => {
                match write_field(
                    &mut writer,
                    &execution.bytes,
                    Variant::Execute,
                    Field::Execution,
                ) {
                    Err(e) => { return Err(e); },
                    Ok(_) => {},
                }
                match fee {
                    None => {
                        match writer.write_u8(0) {
                            Err(e) => { return Err(e); },
                            Ok(_) => {},
                        }
                    },
                    Some(f) => {
                        match writer.write_u8(1) {
                            Err(e) => { return Err(e); },
                            Ok(_) => {},
                        }
                        match write_field(&mut writer, &f.bytes, Variant::Execute, Field::Fee) {
                            Err(e) => { return Err(e); },
                            Ok(_) => {},
                        }
                    },
                }
            },
            Transaction::Fee(_, fee) => {
                match write_field(&mut writer, &fee.bytes, Variant::Fee, Field::Fee) {
                    Err(e) => { return Err(e); },
                    Ok(_) => {},
                }
            },
        }
        Ok(writer.into_bytes())
    }
}

} // verus!
