//! Execution effects: what a transaction did to the object store.
use vstd::prelude::*;
use crate::object::{Object, ObjectID};
use crate::object_table::ObjectTable;

verus! {

/// An event emitted during execution.
#[derive(Debug, Clone)]
pub struct Event {
    /// Event type
    pub type_: String,
    /// Emission time
    pub timestamp: u64,
}

impl Event {
    /// The event type
    pub fn type_str(&self) -> (s: &str)
        ensures
            s@ == self.type_@,
    {
        self.type_.as_str()
    }

    /// The emission time
    pub fn timestamp(&self) -> (t: u64)
        ensures
            t == self.timestamp,
    {
        self.timestamp
    }
}

/// Execution status
#[derive(Debug, Clone)]
pub enum ExecutionStatus {
    /// Success
    Success,
    /// Failure with error message
    Failure { error: String },
}

/// Execution effects
#[derive(Debug)]
pub struct ExecutionEffects {
    /// Transaction digest
    pub transaction_digest: [u8; 32],
    /// Execution status
    pub status: ExecutionStatus,
    /// Gas used
    pub gas_used: u64,
    /// Modified objects
    pub modified_objects: ObjectTable,
    /// Created objects
    pub created_objects: ObjectTable,
    /// Deleted objects
    pub deleted_objects: Vec<ObjectID>,
    /// Events
    pub events: Vec<Event>,
    /// Dependencies
    pub dependencies: Vec<[u8; 32]>,
}

impl ExecutionEffects {
    /// Create new execution effects: successful, no gas used, nothing changed.
    pub fn new(transaction_digest: [u8; 32]) -> (e: ExecutionEffects)
        ensures
            e.transaction_digest == transaction_digest,
            e.status is Success,
            e.gas_used == 0,
            e.modified_objects@ == Map::<Seq<u8>, crate::object::ObjectView>::empty(),
            e.created_objects@ == Map::<Seq<u8>, crate::object::ObjectView>::empty(),
            e.deleted_objects@ == Seq::<ObjectID>::empty(),
            e.events@ == Seq::<Event>::empty(),
            e.dependencies@ == Seq::<[u8; 32]>::empty(),
    {
        ExecutionEffects {
            transaction_digest,
            status: ExecutionStatus::Success,
            gas_used: 0,
            modified_objects: ObjectTable::new(),
            created_objects: ObjectTable::new(),
            deleted_objects: Vec::new(),
            events: Vec::new(),
            dependencies: Vec::new(),
        }
    }

    /// Set status
    pub fn set_status(&mut self, status: ExecutionStatus)
        ensures
            *final(self) == (ExecutionEffects { status: status, ..*old(self) }),
    {
        self.status = status;
    }

    /// Add modified object, replacing one with the same id.
    pub fn add_modified_object(&mut self, object: Object)
        ensures
            final(self).modified_objects@ == old(self).modified_objects@.insert(
                object@.id,
                object@,
            ),
            final(self).modified_objects@.dom().finite(),
            final(self).transaction_digest == old(self).transaction_digest,
            final(self).status == old(self).status,
            final(self).gas_used == old(self).gas_used,
            final(self).created_objects == old(self).created_objects,
            final(self).deleted_objects == old(self).deleted_objects,
            final(self).events == old(self).events,
            final(self).dependencies == old(self).dependencies,
    {
        self.modified_objects.insert(object);
    }

    /// Add created object, replacing one with the same id.
    pub fn add_created_object(&mut self, object: Object)
        ensures
            final(self).created_objects@ == old(self).created_objects@.insert(
                object@.id,
                object@,
            ),
            final(self).created_objects@.dom().finite(),
            final(self).transaction_digest == old(self).transaction_digest,
            final(self).status == old(self).status,
            final(self).gas_used == old(self).gas_used,
            final(self).modified_objects == old(self).modified_objects,
            final(self).deleted_objects == old(self).deleted_objects,
            final(self).events == old(self).events,
            final(self).dependencies == old(self).dependencies,
    {
        self.created_objects.insert(object);
    }

    /// Add deleted object
    pub fn add_deleted_object(&mut self, id: ObjectID)
        ensures
            *final(self) == (ExecutionEffects {
                deleted_objects: final(self).deleted_objects,
                ..*old(self)
            }),
            final(self).deleted_objects@ == old(self).deleted_objects@.push(id),
    {
        self.deleted_objects.push(id);
    }

    /// Add event
    pub fn add_event(&mut self, event: Event)
        ensures
            *final(self) == (ExecutionEffects { events: final(self).events, ..*old(self) }),
            final(self).events@ == old(self).events@.push(event),
    {
        self.events.push(event);
    }

    /// Add dependency
    pub fn add_dependency(&mut self, dependency: [u8; 32])
        ensures
            *final(self) == (ExecutionEffects {
                dependencies: final(self).dependencies,
                ..*old(self)
            }),
            final(self).dependencies@ == old(self).dependencies@.push(dependency),
    {
        self.dependencies.push(dependency);
    }

    /// Set gas used
    pub fn set_gas_used(&mut self, gas_used: u64)
        ensures
            *final(self) == (ExecutionEffects { gas_used: gas_used, ..*old(self) }),
    {
        self.gas_used = gas_used;
    }

    /// Check if successful
    pub fn is_success(&self) -> (r: bool)
        ensures
            r == (self.status is Success),
    {
        matches!(self.status, ExecutionStatus::Success)
    }
}

} // verus!
