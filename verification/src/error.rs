//! The errors of the codec. Each one ends the call that met it.

use vstd::prelude::*;

verus! {

/// The three shapes of a transaction, as the tag byte selects them.
#[derive(Clone, Copy, Debug, PartialEq, Eq, Structural)]
pub enum Variant {
    Deploy,
    Execute,
    Fee,
}

/// The sub-objects of a transaction, to say where a failure arose.
#[derive(Clone, Copy, Debug, PartialEq, Eq, Structural)]
pub enum Field {
    Identifier,
    Owner,
    Deployment,
    Execution,
    Fee,
}

/// Why a constructor turned its fields down.
#[derive(Clone, Copy, Debug, PartialEq, Eq, Structural)]
pub enum ConstructionError {
    /// A deployment that publishes nothing.
    EmptyDeployment,
    /// An execution without a call.
    EmptyExecution,
    /// A fee transaction whose fee holds nothing.
    EmptyFee,
}

/// Why an encoding or a decoding ended without a result.
#[derive(Clone, Copy, Debug, PartialEq, Eq, Structural)]
pub enum CodecError {
    /// The version byte is not the supported one.
    InvalidVersion,
    /// The tag byte selects no variant.
    InvalidVariant,
    /// The fee-presence byte of an execution is neither 0 nor 1.
    InvalidFeeVariant,
    /// The bounded stream was asked to pass more bytes than its ceiling.
    SizeLimitExceeded,
    /// The identifier in the stream is not the one the fields give.
    IdentifierMismatch,
    /// The input ended inside the version, tag or fee-presence byte.
    UnexpectedEnd,
    /// The input ended inside a sub-object.
    SubObjectDecode { variant: Variant, field: Field },
    /// A sub-object is too long for its length prefix.
    SubObjectEncode { variant: Variant, field: Field },
    /// The fields were read, and the variant's constructor turned them down.
    InvalidTransaction(ConstructionError),
}

impl Variant {
    /// The tag byte that stands for the variant.
    pub open spec fn spec_tag(self) -> u8 {
        match self {
            Variant::Deploy => 0u8,
            Variant::Execute => 1u8,
            Variant::Fee => 2u8,
        }
    }

    /// The tag byte that stands for the variant.
    pub fn tag(self) -> (r: u8)
        ensures
            r == self.spec_tag(),
    {
        match self {
            Variant::Deploy => 0u8,
            Variant::Execute => 1u8,
            Variant::Fee => 2u8,
        }
    }
}

impl ConstructionError {
    /// The constructor's message.
    pub fn message(self) -> (r: &'static str)
        ensures
            r@ == self.spec_message(),
    {
        match self {
            ConstructionError::EmptyDeployment => "empty deployment",
            ConstructionError::EmptyExecution => "empty execution",
            ConstructionError::EmptyFee => "empty fee",
        }
    }

    /// The constructor's message, as contracts speak of it.
    pub open spec fn spec_message(self) -> Seq<char> {
        match self {
            ConstructionError::EmptyDeployment => "empty deployment"@,
            ConstructionError::EmptyExecution => "empty execution"@,
            ConstructionError::EmptyFee => "empty fee"@,
        }
    }
}

impl CodecError {
    /// What went wrong, in words.
    pub fn message(self) -> (r: &'static str)
        ensures
            r@ == self.spec_message(),
    {
        match self {
            CodecError::InvalidVersion => "Invalid transaction version",
            CodecError::InvalidVariant => "Invalid transaction variant",
            CodecError::InvalidFeeVariant => "Invalid fee variant",
            CodecError::SizeLimitExceeded => "Transaction size limit exceeded",
            CodecError::IdentifierMismatch => "Transaction ID mismatch",
            CodecError::UnexpectedEnd => "Unexpected end of input",
            CodecError::SubObjectDecode { .. } => "Failed to read a transaction field",
            CodecError::SubObjectEncode { .. } => "Failed to write a transaction field",
            CodecError::InvalidTransaction(e) => e.message(),
        }
    }

    /// The message, as contracts speak of it.
    pub open spec fn spec_message(self) -> Seq<char> {
        match self {
            CodecError::InvalidVersion => "Invalid transaction version"@,
            CodecError::InvalidVariant => "Invalid transaction variant"@,
            CodecError::InvalidFeeVariant => "Invalid fee variant"@,
            CodecError::SizeLimitExceeded => "Transaction size limit exceeded"@,
            CodecError::IdentifierMismatch => "Transaction ID mismatch"@,
            CodecError::UnexpectedEnd => "Unexpected end of input"@,
            CodecError::SubObjectDecode { .. } => "Failed to read a transaction field"@,
            CodecError::SubObjectEncode { .. } => "Failed to write a transaction field"@,
            CodecError::InvalidTransaction(e) => e.spec_message(),
        }
    }
}

/// A failure of the stream as it shows from inside a sub-object: the ceiling
/// passes through unchanged, a short input becomes the sub-object's own
/// failure.
pub open spec fn in_field(e: CodecError, variant: Variant, field: Field) -> CodecError {
    if e == CodecError::UnexpectedEnd {
        CodecError::SubObjectDecode { variant, field }
    } else {
        e
    }
}

} // verus!
