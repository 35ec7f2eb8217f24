//! Gas metering.
use vstd::prelude::*;
use vstd::std_specs::cmp::PartialOrdSpecImpl;
use core::cmp::Ordering;
use crate::errors::ExecutionError;

verus! {

/// Gas unit
#[derive(Debug, Clone, Copy, PartialEq, Eq, Structural, Ord)]
pub struct GasUnit(pub u64);

/// Gas amounts are ordered by their value.
impl PartialOrd for GasUnit {
    fn partial_cmp(&self, other: &Self) -> (r: Option<Ordering>) {
        if self.0 < other.0 {
            Some(Ordering::Less)
        } else if self.0 == other.0 {
            Some(Ordering::Equal)
        } else {
            Some(Ordering::Greater)
        }
    }
}

impl PartialOrdSpecImpl for GasUnit {
    open spec fn obeys_partial_cmp_spec() -> bool {
        true
    }

    open spec fn partial_cmp_spec(&self, other: &GasUnit) -> Option<Ordering> {
        if self.0 < other.0 {
            Some(Ordering::Less)
        } else if self.0 == other.0 {
            Some(Ordering::Equal)
        } else {
            Some(Ordering::Greater)
        }
    }
}

impl GasUnit {
    /// Create new gas unit
    pub fn new(value: u64) -> (g: GasUnit)
        ensures
            g.0 == value,
    {
        GasUnit(value)
    }

    /// Get value
    pub fn value(&self) -> (v: u64)
        ensures
            v == self.0,
    {
        self.0
    }
}

impl core::ops::Add for GasUnit {
    type Output = GasUnit;

    fn add(self, other: GasUnit) -> (r: GasUnit) {
        GasUnit(self.0 + other.0)
    }
}

impl vstd::std_specs::ops::AddSpecImpl for GasUnit {
    open spec fn obeys_add_spec() -> bool {
        true
    }

    /// The sum must fit in a `u64`.
    open spec fn add_req(self, rhs: GasUnit) -> bool {
        self.0 + rhs.0 <= u64::MAX
    }

    open spec fn add_spec(self, rhs: GasUnit) -> GasUnit {
        GasUnit((self.0 + rhs.0) as u64)
    }
}

impl core::ops::Sub for GasUnit {
    type Output = GasUnit;

    fn sub(self, other: GasUnit) -> (r: GasUnit) {
        GasUnit(self.0 - other.0)
    }
}

impl vstd::std_specs::ops::SubSpecImpl for GasUnit {
    open spec fn obeys_sub_spec() -> bool {
        true
    }

    /// The difference may not go below zero.
    open spec fn sub_req(self, rhs: GasUnit) -> bool {
        rhs.0 <= self.0
    }

    open spec fn sub_spec(self, rhs: GasUnit) -> GasUnit {
        GasUnit((self.0 - rhs.0) as u64)
    }
}

/// Gas schedule
#[derive(Debug, Clone, Copy)]
pub struct GasSchedule {
    /// Base computation cost
    pub computation_cost: GasUnit,
    /// Base storage cost
    pub storage_cost: GasUnit,
    /// Event emission cost
    pub event_cost: GasUnit,
    /// Cross-contract call cost
    pub cross_contract_call_cost: GasUnit,
}

impl Default for GasSchedule {
    fn default() -> (s: GasSchedule)
        ensures
            s.computation_cost.0 == 1,
            s.storage_cost.0 == 10,
            s.event_cost.0 == 5,
            s.cross_contract_call_cost.0 == 20,
    {
        GasSchedule {
            computation_cost: GasUnit::new(1),
            storage_cost: GasUnit::new(10),
            event_cost: GasUnit::new(5),
            cross_contract_call_cost: GasUnit::new(20),
        }
    }
}

/// The state of a gas meter as the contracts see it.
pub ghost struct GasStatusView {
    pub schedule: GasSchedule,
    pub limit: u64,
    pub used: u64,
}

/// Gas status
pub struct GasStatus {
    /// Gas schedule
    schedule: GasSchedule,
    /// Gas limit
    limit: GasUnit,
    /// Gas used
    used: GasUnit,
}

impl View for GasStatus {
    type V = GasStatusView;

    closed spec fn view(&self) -> GasStatusView {
        GasStatusView { schedule: self.schedule, limit: self.limit.0, used: self.used.0 }
    }
}

impl GasStatus {
    /// The gas used never exceeds the limit.
    #[verifier::type_invariant]
    closed spec fn used_within_limit(&self) -> bool {
        self.used.0 <= self.limit.0
    }

    /// Create new gas status
    pub fn new(schedule: GasSchedule, limit: GasUnit) -> (g: GasStatus)
        ensures
            g@ == (GasStatusView { schedule, limit: limit.0, used: 0 }),
    {
        GasStatus { schedule, limit, used: GasUnit::new(0) }
    }

    /// Deduct gas: fails with a gas error, leaving the meter unchanged, when
    /// the gas used would exceed the limit (a sum past `u64::MAX` exceeds
    /// every limit).
    pub fn deduct_gas(&mut self, amount: GasUnit) -> (r: Result<(), ExecutionError>)
        ensures
            final(self)@.schedule == old(self)@.schedule,
            final(self)@.limit == old(self)@.limit,
            match r {
                Ok(()) => old(self)@.used + amount.0 <= old(self)@.limit && final(self)@.used
                    == old(self)@.used + amount.0,
                Err(e) => old(self)@.used + amount.0 > old(self)@.limit && final(self)@ == old(
                    self,
                )@ && e is GasError,
            },
    {
        let new_used = match self.used.0.checked_add(amount.0) {
            Some(total) => total,
            None => return Err(ExecutionError::GasError("Out of gas".to_string())),
        };
        if new_used > self.limit.0 {
            return Err(ExecutionError::GasError("Out of gas".to_string()));
        }
        self.used = GasUnit(new_used);
        Ok(())
    }

    /// Get remaining gas
    pub fn remaining_gas(&self) -> (g: GasUnit)
        ensures
            g.0 == self@.limit - self@.used,
    {
        proof {
            use_type_invariant(self);
        }
        GasUnit(self.limit.0 - self.used.0)
    }

    /// Get gas used
    pub fn gas_used(&self) -> (g: GasUnit)
        ensures
            g.0 == self@.used,
    {
        self.used
    }

    /// Charge computation: `units` times the computation cost.
    pub fn charge_computation(&mut self, units: u64) -> (r: Result<(), ExecutionError>)
        ensures
            final(self)@.schedule == old(self)@.schedule,
            final(self)@.limit == old(self)@.limit,
            ({
                let cost = old(self)@.schedule.computation_cost.0 * units;
                match r {
                    Ok(()) => old(self)@.used + cost <= old(self)@.limit && final(self)@.used
                        == old(self)@.used + cost,
                    Err(e) => old(self)@.used + cost > old(self)@.limit && final(self)@ == old(
                        self,
                    )@ && e is GasError,
                }
            }),
    {
        proof {
            vstd::arithmetic::mul::lemma_mul_nonnegative(self@.schedule.computation_cost.0 as int, units as int);
        }
        match self.schedule.computation_cost.0.checked_mul(units) {
            Some(cost) => self.deduct_gas(GasUnit(cost)),
            None => {
                proof {
                    use_type_invariant(&*self);
                }
                Err(ExecutionError::GasError("Out of gas".to_string()))
            },
        }
    }

    /// Charge storage: `size` times the storage cost.
    pub fn charge_storage(&mut self, size: u64) -> (r: Result<(), ExecutionError>)
        ensures
            final(self)@.schedule == old(self)@.schedule,
            final(self)@.limit == old(self)@.limit,
            ({
                let cost = old(self)@.schedule.storage_cost.0 * size;
                match r {
                    Ok(()) => old(self)@.used + cost <= old(self)@.limit && final(self)@.used
                        == old(self)@.used + cost,
                    Err(e) => old(self)@.used + cost > old(self)@.limit && final(self)@ == old(
                        self,
                    )@ && e is GasError,
                }
            }),
    {
        proof {
            vstd::arithmetic::mul::lemma_mul_nonnegative(self@.schedule.storage_cost.0 as int, size as int);
        }
        match self.schedule.storage_cost.0.checked_mul(size) {
            Some(cost) => self.deduct_gas(GasUnit(cost)),
            None => {
                proof {
                    use_type_invariant(&*self);
                }
                Err(ExecutionError::GasError("Out of gas".to_string()))
            },
        }
    }

    /// Charge event
    pub fn charge_event(&mut self) -> (r: Result<(), ExecutionError>)
        ensures
            final(self)@.schedule == old(self)@.schedule,
            final(self)@.limit == old(self)@.limit,
            ({
                let cost = old(self)@.schedule.event_cost.0;
                match r {
                    Ok(()) => old(self)@.used + cost <= old(self)@.limit && final(self)@.used
                        == old(self)@.used + cost,
                    Err(e) => old(self)@.used + cost > old(self)@.limit && final(self)@ == old(
                        self,
                    )@ && e is GasError,
                }
            }),
    {
        let cost = self.schedule.event_cost;
        self.deduct_gas(cost)
    }

    /// Charge cross-contract call
    pub fn charge_cross_contract_call(&mut self) -> (r: Result<(), ExecutionError>)
        ensures
            final(self)@.schedule == old(self)@.schedule,
            final(self)@.limit == old(self)@.limit,
            ({
                let cost = old(self)@.schedule.cross_contract_call_cost.0;
                match r {
                    Ok(()) => old(self)@.used + cost <= old(self)@.limit && final(self)@.used
                        == old(self)@.used + cost,
                    Err(e) => old(self)@.used + cost > old(self)@.limit && final(self)@ == old(
                        self,
                    )@ && e is GasError,
                }
            }),
    {
        let cost = self.schedule.cross_contract_call_cost;
        self.deduct_gas(cost)
    }
}

} // verus!
