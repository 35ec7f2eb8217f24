//! Error types shared by the modules of the library.
use vstd::prelude::*;

verus! {

/// Errors of the core data model.
#[derive(Debug)]
pub enum CoreError {
    InvalidObject(String),
    InvalidAddress(String),
    InvalidType(String),
    SerializationError(String),
    InvalidBalance(String),
}

/// Errors of the protocol layer (proposals, certificates, abilities).
#[derive(Debug)]
pub enum ProtocolError {
    InvalidTransaction(String),
    InvalidSignature(String),
    InvalidCertificate(String),
    ObjectNotFound(String),
    VersionMismatch { expected: u64, actual: u64 },
    InsufficientGas { required: u64, available: u64 },
    TransactionExpired,
    SystemError(String),
    InvalidProposal(String),
    InvalidAbilities(String),
    TooManyTypeArguments,
    TypeArgumentTooDeep,
}

/// Errors of transaction execution.
#[derive(Debug)]
pub enum ExecutionError {
    ValidationError(String),
    ExecutionError(String),
    GasError(String),
    StorageError(String),
}

/// Errors of the state layer.
#[derive(Debug)]
pub enum StateError {
    StorageError(String),
    SerializationError(String),
    InvalidState(String),
    CheckpointError(String),
}

/// Errors of the mempool.
#[derive(Debug)]
pub enum MempoolError {
    DuplicateTransaction,
    MempoolFull,
    InvalidTransaction(String),
    TransactionExpired,
}

/// Errors of the authority layer.
#[derive(Debug)]
pub enum AuthorityError {
    InvalidSignature,
    InvalidEpoch { expected: u64, actual: u64 },
    InvalidStake(String),
    CheckpointError(String),
    StoreError(String),
    TooManyValidators,
    InsufficientValidatorStake,
    NoNextEpochCommittee,
    ExceedGasLimit,
    InvalidCheckpoint(String),
    CheckpointNotFound(u64),
}

/// Errors of the cryptographic layer.
#[derive(Debug)]
pub enum CryptoError {
    InvalidKey(String),
    InvalidSignature(String),
    InvalidScheme(String),
    SerializationError(String),
}

} // verus!
