//! Core logic of the Swift Network blockchain node: the object model, gas
//! metering, execution effects, the state accumulator and checkpoints,
//! consensus safety rules and DAG, the mempool, epochs and committees.
pub mod errors;
pub mod hashing;
pub mod accumulator;
pub mod types;
pub mod object;
pub mod object_table;
pub mod gas;
pub mod abilities;
pub mod effects;
pub mod crypto;
pub mod encoding;
pub mod protocol;
pub mod certificate;
pub mod mempool;
pub mod consensus;
pub mod narwhal;
pub mod epoch;
pub mod sequenced;
pub mod checkpoint;
pub mod authority_checkpoint;
pub mod validation;
pub mod execution;
pub mod authority;
pub mod messages;
pub mod framework;
pub mod quorum_driver;
