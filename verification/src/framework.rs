//! Smart contracts: a published module with its address and state object.
use vstd::prelude::*;
use crate::object::{Object, ObjectID};

verus! {

/// Framework error types
#[derive(Debug)]
pub enum FrameworkError {
    ContractError(String),
    AbilityError(String),
    ExecutionError(String),
}

/// Framework configuration
#[derive(Debug, Clone, Copy)]
pub struct FrameworkConfig {
    /// Maximum type argument depth
    pub max_type_argument_depth: u8,
    /// Maximum function parameters
    pub max_function_parameters: u8,
    /// Maximum generic instantiation length
    pub max_generic_instantiation_length: u8,
    /// Maximum published modules per address
    pub max_modules_per_address: u16,
    /// Maximum dependency depth
    pub max_dependency_depth: u16,
}

impl Default for FrameworkConfig {
    fn default() -> (c: FrameworkConfig)
        ensures
            c.max_type_argument_depth == 32,
            c.max_function_parameters == 128,
            c.max_generic_instantiation_length == 32,
            c.max_modules_per_address == 256,
            c.max_dependency_depth == 256,
    {
        FrameworkConfig {
            max_type_argument_depth: 32,
            max_function_parameters: 128,
            max_generic_instantiation_length: 32,
            max_modules_per_address: 256,
            max_dependency_depth: 256,
        }
    }
}

/// Move contract
#[derive(Debug)]
pub struct MoveContract {
    /// Contract address
    address: ObjectID,
    /// Contract module
    module: Vec<u8>,
    /// Contract state
    state: Object,
}

impl MoveContract {
    /// The contract's address.
    pub closed spec fn spec_address(&self) -> ObjectID {
        self.address
    }

    /// The contract's module bytes.
    pub closed spec fn spec_module(&self) -> Seq<u8> {
        self.module@
    }

    /// The contract's state object.
    pub closed spec fn spec_state(&self) -> Object {
        self.state
    }

    /// Create new contract
    pub fn new(address: ObjectID, module: Vec<u8>, state: Object) -> (c: MoveContract)
        ensures
            c.spec_address() == address,
            c.spec_module() == module@,
            c.spec_state() == state,
    {
        MoveContract { address, module, state }
    }

    /// Get contract address
    pub fn address(&self) -> (a: ObjectID)
        ensures
            a == self.spec_address(),
    {
        self.address
    }

    /// Get contract module
    pub fn module(&self) -> (m: &[u8])
        ensures
            m@ == self.spec_module(),
    {
        self.module.as_slice()
    }

    /// Get contract state
    pub fn state(&self) -> (s: &Object)
        ensures
            *s == self.spec_state(),
    {
        &self.state
    }
}

} // verus!
