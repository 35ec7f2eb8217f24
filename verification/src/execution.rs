//! Transaction execution around the virtual machine: the context that a run
//! fills in, the validation and metering set up before it, and the effects
//! assembled after it.
use vstd::prelude::*;
use crate::effects::{Event, ExecutionEffects, ExecutionStatus};
use crate::errors::ExecutionError;
use crate::gas::{GasSchedule, GasStatus, GasStatusView, GasUnit};
use crate::hashing::spec_sha256;
use crate::object::{Object, ObjectID, ObjectView};
use crate::protocol::{SignedTransaction, enc_signed};
use crate::validation::{TransactionValidator, transaction_valid, validation_message};

verus! {

/// The map that a list of objects stands for: each under its own id, a later
/// object replacing an earlier one with the same id.
pub open spec fn objects_map(s: Seq<Object>) -> Map<Seq<u8>, ObjectView>
    decreases s.len(),
{
    if s.len() == 0 {
        Map::empty()
    } else {
        objects_map(s.drop_last()).insert(s.last()@.id, s.last()@)
    }
}

/// The message an execution error carries.
pub open spec fn error_message(e: ExecutionError) -> String {
    match e {
        ExecutionError::ValidationError(m) => m,
        ExecutionError::ExecutionError(m) => m,
        ExecutionError::GasError(m) => m,
        ExecutionError::StorageError(m) => m,
    }
}

impl ExecutionError {
    /// The message the error carries.
    pub fn into_message(self) -> (m: String)
        ensures
            m == error_message(self),
    {
        match self {
            ExecutionError::ValidationError(m) => m,
            ExecutionError::ExecutionError(m) => m,
            ExecutionError::GasError(m) => m,
            ExecutionError::StorageError(m) => m,
        }
    }
}

/// Execution context
pub struct ExecutionContext {
    /// Gas status
    gas_status: GasStatus,
    /// Modified objects
    modified_objects: Vec<Object>,
    /// Created objects
    created_objects: Vec<Object>,
    /// Deleted objects
    deleted_objects: Vec<ObjectID>,
    /// Events
    events: Vec<Event>,
}

impl ExecutionContext {
    /// The gas meter.
    pub closed spec fn spec_gas(&self) -> GasStatus {
        self.gas_status
    }

    /// The objects modified so far, in order.
    pub closed spec fn spec_modified(&self) -> Seq<Object> {
        self.modified_objects@
    }

    /// The objects created so far, in order.
    pub closed spec fn spec_created(&self) -> Seq<Object> {
        self.created_objects@
    }

    /// The objects deleted so far, in order.
    pub closed spec fn spec_deleted(&self) -> Seq<ObjectID> {
        self.deleted_objects@
    }

    /// The events emitted so far, in order.
    pub closed spec fn spec_events(&self) -> Seq<Event> {
        self.events@
    }

    /// Create new execution context: a fresh meter with the limit, nothing
    /// recorded.
    pub fn new(gas_schedule: GasSchedule, gas_limit: u64) -> (c: ExecutionContext)
        ensures
            c.spec_gas()@ == (GasStatusView { schedule: gas_schedule, limit: gas_limit, used: 0 }),
            c.spec_modified().len() == 0,
            c.spec_created().len() == 0,
            c.spec_deleted().len() == 0,
            c.spec_events().len() == 0,
    {
        ExecutionContext {
            gas_status: GasStatus::new(gas_schedule, GasUnit::new(gas_limit)),
            modified_objects: Vec::new(),
            created_objects: Vec::new(),
            deleted_objects: Vec::new(),
            events: Vec::new(),
        }
    }

    /// Get gas status
    pub fn gas_status(&self) -> (g: &GasStatus)
        ensures
            *g == self.spec_gas(),
    {
        &self.gas_status
    }

    /// Get gas status mut
    pub fn gas_status_mut(&mut self) -> (g: &mut GasStatus)
        ensures
            *g == old(self).spec_gas(),
            final(self).spec_gas() == *final(g),
            final(self).spec_modified() == old(self).spec_modified(),
            final(self).spec_created() == old(self).spec_created(),
            final(self).spec_deleted() == old(self).spec_deleted(),
            final(self).spec_events() == old(self).spec_events(),
    {
        &mut self.gas_status
    }

    /// Add modified object
    pub fn add_modified_object(&mut self, object: Object)
        ensures
            final(self).spec_modified() == old(self).spec_modified().push(object),
            final(self).spec_gas() == old(self).spec_gas(),
            final(self).spec_created() == old(self).spec_created(),
            final(self).spec_deleted() == old(self).spec_deleted(),
            final(self).spec_events() == old(self).spec_events(),
    {
        self.modified_objects.push(object);
    }

    /// Add created object
    pub fn add_created_object(&mut self, object: Object)
        ensures
            final(self).spec_created() == old(self).spec_created().push(object),
            final(self).spec_gas() == old(self).spec_gas(),
            final(self).spec_modified() == old(self).spec_modified(),
            final(self).spec_deleted() == old(self).spec_deleted(),
            final(self).spec_events() == old(self).spec_events(),
    {
        self.created_objects.push(object);
    }

    /// Add deleted object
    pub fn add_deleted_object(&mut self, id: ObjectID)
        ensures
            final(self).spec_deleted() == old(self).spec_deleted().push(id),
            final(self).spec_gas() == old(self).spec_gas(),
            final(self).spec_modified() == old(self).spec_modified(),
            final(self).spec_created() == old(self).spec_created(),
            final(self).spec_events() == old(self).spec_events(),
    {
        self.deleted_objects.push(id);
    }

    /// Add event
    pub fn add_event(&mut self, event: Event)
        ensures
            final(self).spec_events() == old(self).spec_events().push(event),
            final(self).spec_gas() == old(self).spec_gas(),
            final(self).spec_modified() == old(self).spec_modified(),
            final(self).spec_created() == old(self).spec_created(),
            final(self).spec_deleted() == old(self).spec_deleted(),
    {
        self.events.push(event);
    }
}

/// The effects of a run: what `Executor::finish` returns, field by field.
pub open spec fn effects_of_run(
    e: ExecutionEffects,
    transaction: SignedTransaction,
    outcome: Result<(), ExecutionError>,
    context: ExecutionContext,
) -> bool {
    &&& e.transaction_digest@ == spec_sha256(enc_signed(transaction))
    &&& e.status == match outcome {
        Ok(()) => ExecutionStatus::Success,
        Err(err) => ExecutionStatus::Failure { error: error_message(err) },
    }
    &&& e.gas_used == context.spec_gas()@.used
    &&& e.modified_objects@ == objects_map(context.spec_modified())
    &&& e.created_objects@ == objects_map(context.spec_created())
    &&& e.deleted_objects@ == context.spec_deleted()
    &&& e.events@ == context.spec_events()
    &&& e.dependencies@.len() == 0
}

/// Transaction executor: validation and metering around the virtual
/// machine, which runs outside the library.
pub struct Executor {
    /// Validator
    validator: TransactionValidator,
}

impl Executor {
    /// The validator.
    pub closed spec fn spec_validator(&self) -> TransactionValidator {
        self.validator
    }

    /// Create new executor
    pub fn new() -> (e: Executor)
        ensures
            e.spec_validator().spec_max_gas_budget() == 1_000_000,
            e.spec_validator().spec_max_transaction_size() == 128 * 1024,
            e.spec_validator().spec_max_input_objects() == 2048,
            e.spec_validator().spec_max_created_objects() == 1024,
    {
        Executor { validator: TransactionValidator::new() }
    }

    /// Before a run: validate the transaction, passing on the validator's
    /// error (the message of the first check it fails), and give it a
    /// context metered by the default schedule up to its gas budget.
    pub fn prepare(&self, transaction: &SignedTransaction) -> (r: Result<ExecutionContext, ExecutionError>)
        ensures
            r is Ok <==> transaction_valid(self.spec_validator(), *transaction),
            r matches Err(e) ==> e matches ExecutionError::ValidationError(m) && validation_message(
                self.spec_validator(),
                *transaction,
            ) == Some(m@),
            r matches Ok(c) ==> c.spec_gas()@.limit == transaction.data.gas_budget && c.spec_gas()@.used == 0
                && c.spec_gas()@.schedule.computation_cost.0 == 1 && c.spec_gas()@.schedule.storage_cost.0
                == 10 && c.spec_gas()@.schedule.event_cost.0 == 5
                && c.spec_gas()@.schedule.cross_contract_call_cost.0 == 20 && c.spec_modified().len() == 0
                && c.spec_created().len() == 0 && c.spec_deleted().len() == 0 && c.spec_events().len() == 0,
    {
        if let Err(e) = self.validator.validate_transaction(transaction) {
            return Err(e);
        }
        Ok(ExecutionContext::new(GasSchedule::default(), transaction.gas_budget()))
    }

    /// After a run: the effects, with the run's outcome as status, the gas
    /// the context metered, and everything the context recorded.
    pub fn finish(
        &self,
        transaction: &SignedTransaction,
        outcome: Result<(), ExecutionError>,
        context: ExecutionContext,
    ) -> (e: ExecutionEffects)
        ensures
            effects_of_run(e, *transaction, outcome, context),
    {
        let ghost ctx = context;
        let status = match outcome {
            Ok(()) => ExecutionStatus::Success,
            Err(err) => ExecutionStatus::Failure { error: err.into_message() },
        };
        let digest = transaction.digest();
        let mut effects = ExecutionEffects::new(digest.0);
        effects.status = status;
        effects.gas_used = context.gas_status.gas_used().value();
        let ExecutionContext { gas_status, modified_objects, created_objects, deleted_objects, events } =
            context;
        let ghost fixed_status = effects.status;
        let ghost fixed_gas = effects.gas_used;
        let n = modified_objects.len();
        let mut rest = modified_objects;
        let mut i: usize = 0;
        while i < n
            invariant
                n == ctx.spec_modified().len(),
                i <= n,
                rest@ == ctx.spec_modified().skip(i as int),
                effects.modified_objects@ == objects_map(ctx.spec_modified().take(i as int)),
                effects.created_objects@ == Map::<Seq<u8>, ObjectView>::empty(),
                effects.deleted_objects@.len() == 0,
                effects.events@.len() == 0,
                effects.dependencies@.len() == 0,
                effects.status == fixed_status,
                effects.gas_used == fixed_gas,
                effects.transaction_digest@ == spec_sha256(enc_signed(*transaction)),
            decreases n - i,
        {
            let object = rest.remove(0);
            assert(object == ctx.spec_modified()[i as int]);
            assert(rest@ == ctx.spec_modified().skip(i + 1));
            effects.add_modified_object(object);
            assert(ctx.spec_modified().take(i + 1).drop_last() == ctx.spec_modified().take(i as int));
            i = i + 1;
        }
        assert(ctx.spec_modified().take(n as int) == ctx.spec_modified());
        let m = created_objects.len();
        let mut rest = created_objects;
        let mut j: usize = 0;
        while j < m
            invariant
                m == ctx.spec_created().len(),
                j <= m,
                rest@ == ctx.spec_created().skip(j as int),
                effects.modified_objects@ == objects_map(ctx.spec_modified()),
                effects.created_objects@ == objects_map(ctx.spec_created().take(j as int)),
                effects.deleted_objects@.len() == 0,
                effects.events@.len() == 0,
                effects.dependencies@.len() == 0,
                effects.status == fixed_status,
                effects.gas_used == fixed_gas,
                effects.transaction_digest@ == spec_sha256(enc_signed(*transaction)),
            decreases m - j,
        {
            let object = rest.remove(0);
            assert(object == ctx.spec_created()[j as int]);
            assert(rest@ == ctx.spec_created().skip(j + 1));
            effects.add_created_object(object);
            assert(ctx.spec_created().take(j + 1).drop_last() == ctx.spec_created().take(j as int));
            j = j + 1;
        }
        assert(ctx.spec_created().take(m as int) == ctx.spec_created());
        effects.deleted_objects = deleted_objects;
        effects.events = events;
        effects
    }
}

} // verus!
