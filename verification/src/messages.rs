//! The messages that nodes exchange: consensus traffic, requests and the
//! responses to them.
use vstd::prelude::*;
use crate::certificate::TransactionCertificate;
use crate::object::ObjectID;
use crate::protocol::{SignedTransaction, TransactionDigest};
use crate::types::SequenceNumber;

verus! {

/// Network message
#[derive(Debug)]
pub enum NetworkMessage {
    /// Consensus traffic
    Consensus(ConsensusMessage),
    /// A request
    Request(RequestMessage),
    /// A response
    Response(ResponseMessage),
}

/// Consensus message
#[derive(Debug)]
pub enum ConsensusMessage {
    /// A proposal
    Proposal { round: u64, transactions: Vec<TransactionDigest> },
    /// A vote
    Vote { round: u64, proposal: TransactionDigest, signature: Vec<u8> },
    /// A timeout
    Timeout { round: u64, signature: Vec<u8> },
}

/// Request message
#[derive(Debug)]
pub enum RequestMessage {
    /// Submit a transaction
    SubmitTransaction(SignedTransaction),
    /// Submit a certificate
    SubmitCertificate(TransactionCertificate),
    /// Ask about a transaction
    TransactionInfo(TransactionInfoRequest),
    /// Synchronise an object
    SyncObject { id: ObjectID, version: Option<SequenceNumber> },
}

/// Response message
#[derive(Debug)]
pub enum ResponseMessage {
    /// Information on a transaction
    TransactionInfo(TransactionInfoResponse),
    /// An object's contents
    ObjectSync { id: ObjectID, version: SequenceNumber, data: Vec<u8> },
    /// An error
    Error { code: u32, message: String },
}

/// Transaction info request
#[derive(Debug, Clone, Copy)]
pub struct TransactionInfoRequest {
    pub digest: TransactionDigest,
    pub request_type: TransactionInfoRequestType,
}

/// Transaction info request type
#[derive(Debug, Clone, Copy, PartialEq, Eq, Structural)]
pub enum TransactionInfoRequestType {
    /// Only the status
    Status,
    /// Everything
    Full,
}

/// Transaction info response
#[derive(Debug)]
pub struct TransactionInfoResponse {
    pub digest: TransactionDigest,
    pub status: TransactionStatus,
    pub certificate: Option<TransactionCertificate>,
    pub effects: Option<TransactionEffects>,
}

/// Transaction status
#[derive(Debug)]
pub enum TransactionStatus {
    /// Pending
    Pending,
    /// Processed
    Processed { success: bool, error_message: Option<String> },
    /// Confirmed
    Confirmed,
}

/// Transaction effects, as reported to clients
#[derive(Debug)]
pub struct TransactionEffects {
    /// Created objects
    pub created: Vec<ObjectID>,
    /// Modified objects
    pub modified: Vec<ObjectID>,
    /// Deleted objects
    pub deleted: Vec<ObjectID>,
    /// Gas used
    pub gas_used: u64,
    /// Execution status
    pub status: ExecutionStatus,
}

/// Execution status
#[derive(Debug)]
pub enum ExecutionStatus {
    /// Success
    Success,
    /// Failure
    Failure { error: String },
}

} // verus!
