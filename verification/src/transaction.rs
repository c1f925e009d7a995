//! The transaction, its sub-objects and its three constructors.

use vstd::prelude::*;
use crate::digest::{
    compute_deploy_digest, compute_execute_digest, compute_fee_digest, deploy_digest,
    execute_digest, fee_digest,
};
use crate::error::{ConstructionError, Variant};

verus! {

/// The most bytes that the encoding of one transaction may take.
pub const MAX_TRANSACTION_SIZE: usize = 128_000usize;

/// The identifier of a transaction: the digest of its variant and fields.
#[derive(Clone, Copy, Debug, PartialEq, Eq, Structural)]
pub struct TransactionID {
    pub value: u64,
}

/// The witness that authorises a deployment, in its own serialised form.
#[derive(Clone, Debug, PartialEq, Eq)]
pub struct Owner {
    pub bytes: Vec<u8>,
}

/// A program to publish, in its own serialised form.
#[derive(Clone, Debug, PartialEq, Eq)]
pub struct Deployment {
    pub bytes: Vec<u8>,
}

/// The calls of an execution with their proofs, in their own serialised form.
#[derive(Clone, Debug, PartialEq, Eq)]
pub struct Execution {
    pub bytes: Vec<u8>,
}

/// A fee transition, in its own serialised form.
#[derive(Clone, Debug, PartialEq, Eq)]
pub struct Fee {
    pub bytes: Vec<u8>,
}

/// A ledger transaction: the stored identifier and the variant's fields.
#[derive(Clone, Debug, PartialEq, Eq)]
pub enum Transaction {
    /// Publishes a program. The fee is mandatory.
    Deploy(TransactionID, Owner, Deployment, Fee),
    /// Calls a published program. The fee may be absent.
    Execute(TransactionID, Execution, Option<Fee>),
    /// Pays a fee and nothing else.
    Fee(TransactionID, Fee),
}

/// A transaction as contracts speak of it: the stored identifier and the
/// fields' bytes.
#[allow(inconsistent_fields)]
pub ghost enum TransactionModel {
    Deploy { id: u64, owner: Seq<u8>, deployment: Seq<u8>, fee: Seq<u8> },
    Execute { id: u64, execution: Seq<u8>, fee: Option<Seq<u8>> },
    Fee { id: u64, fee: Seq<u8> },
}

/// What `from_deployment` gives.
pub open spec fn deployment_model(owner: Seq<u8>, deployment: Seq<u8>, fee: Seq<u8>) -> Result<
    TransactionModel,
    ConstructionError,
> {
    if deployment.len() == 0 {
        Err(ConstructionError::EmptyDeployment)
    } else {
        Ok(
            TransactionModel::Deploy {
                id: deploy_digest(owner, deployment, fee),
                owner,
                deployment,
                fee,
            },
        )
    }
}

/// What `from_execution` gives.
pub open spec fn execution_model(execution: Seq<u8>, fee: Option<Seq<u8>>) -> Result<
    TransactionModel,
    ConstructionError,
> {
    if execution.len() == 0 {
        Err(ConstructionError::EmptyExecution)
    } else {
        Ok(TransactionModel::Execute { id: execute_digest(execution, fee), execution, fee })
    }
}

/// What `from_fee` gives.
pub open spec fn fee_model(fee: Seq<u8>) -> Result<TransactionModel, ConstructionError> {
    if fee.len() == 0 {
        Err(ConstructionError::EmptyFee)
    } else {
        Ok(TransactionModel::Fee { id: fee_digest(fee), fee })
    }
}

impl TransactionModel {
    /// The identifier as stored.
    pub open spec fn id(self) -> u64 {
        match self {
            TransactionModel::Deploy { id, .. } => id,
            TransactionModel::Execute { id, .. } => id,
            TransactionModel::Fee { id, .. } => id,
        }
    }

    /// Which of the three shapes it has.
    pub open spec fn variant(self) -> Variant {
        match self {
            TransactionModel::Deploy { .. } => Variant::Deploy,
            TransactionModel::Execute { .. } => Variant::Execute,
            TransactionModel::Fee { .. } => Variant::Fee,
        }
    }

    /// What the variant's constructor makes of the fields, whatever
    /// identifier is stored beside them.
    pub open spec fn rebuilt(self) -> Result<TransactionModel, ConstructionError> {
        match self {
            TransactionModel::Deploy { owner, deployment, fee, .. } => deployment_model(
                owner,
                deployment,
                fee,
            ),
            TransactionModel::Execute { execution, fee, .. } => execution_model(execution, fee),
            TransactionModel::Fee { fee, .. } => fee_model(fee),
        }
    }

    /// The transaction is one that its constructor gives.
    pub open spec fn valid(self) -> bool {
        self.rebuilt() == Ok::<TransactionModel, ConstructionError>(self)
    }
}

impl View for Transaction {
    type V = TransactionModel;

    open spec fn view(&self) -> TransactionModel {
        match self {
            Transaction::Deploy(id, owner, deployment, fee) => TransactionModel::Deploy {
                id: id.value,
                owner: owner.bytes@,
                deployment: deployment.bytes@,
                fee: fee.bytes@,
            },
            Transaction::Execute(id, execution, fee) => TransactionModel::Execute {
                id: id.value,
                execution: execution.bytes@,
                fee: match fee {
                    None => None,
                    Some(f) => Some(f.bytes@),
                },
            },
            Transaction::Fee(id, fee) => TransactionModel::Fee { id: id.value, fee: fee.bytes@ },
        }
    }
}

/// A constructor's result as contracts speak of it.
pub open spec fn built_model(r: Result<Transaction, ConstructionError>) -> Result<
    TransactionModel,
    ConstructionError,
> {
    match r {
        Ok(t) => Ok(t@),
        Err(e) => Err(e),
    }
}

impl Transaction {
    /// A deployment transaction. An empty deployment is turned down.
    pub fn from_deployment(owner: Owner, deployment: Deployment, fee: Fee) -> (r: Result<
        Transaction,
        ConstructionError,
    >)
        ensures
            built_model(r) == deployment_model(owner.bytes@, deployment.bytes@, fee.bytes@),
    {
        if deployment.bytes.len() == 0 {
            return Err(ConstructionError::EmptyDeployment);
        }
        let value: u64 = compute_deploy_digest(
            owner.bytes.as_slice(),
            deployment.bytes.as_slice(),
            fee.bytes.as_slice(),
        );
        Ok(Transaction::Deploy(TransactionID { value }, owner, deployment, fee))
    }

    /// An execution transaction, with or without a fee. An empty execution
    /// is turned down.
    pub fn from_execution(execution: Execution, fee: Option<Fee>) -> (r: Result<
        Transaction,
        ConstructionError,
    >)
        ensures
            built_model(r) == execution_model(
                execution.bytes@,
                match fee {
                    None => None,
                    Some(f) => Some(f.bytes@),
                },
            ),
    {
        if execution.bytes.len() == 0 {
            return Err(ConstructionError::EmptyExecution);
        }
        let value: u64 = match &fee {
            None => compute_execute_digest(execution.bytes.as_slice(), None),
            Some(f) => compute_execute_digest(execution.bytes.as_slice(), Some(f.bytes.as_slice())),
        };
        Ok(Transaction::Execute(TransactionID { value }, execution, fee))
    }

    /// A fee transaction. An empty fee is turned down.
    pub fn from_fee(fee: Fee) -> (r: Result<Transaction, ConstructionError>)
        ensures
            built_model(r) == fee_model(fee.bytes@),
    {
        if fee.bytes.len() == 0 {
            return Err(ConstructionError::EmptyFee);
        }
        let value: u64 = compute_fee_digest(fee.bytes.as_slice());
        Ok(Transaction::Fee(TransactionID { value }, fee))
    }

    /// The identifier as stored on the value.
    pub fn id(&self) -> (r: TransactionID)
        ensures
            r.value == self@.id(),
    {
        match self {
            Transaction::Deploy(id, _, _, _) => *id,
            Transaction::Execute(id, _, _) => *id,
            Transaction::Fee(id, _) => *id,
        }
    }

    /// Which of the three shapes it has.
    pub fn variant(&self) -> (r: Variant)
        ensures
            r == self@.variant(),
    {
        match self {
            Transaction::Deploy(_, _, _, _) => Variant::Deploy,
            Transaction::Execute(_, _, _) => Variant::Execute,
            Transaction::Fee(_, _) => Variant::Fee,
        }
    }
}

} // verus!
