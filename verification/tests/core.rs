use swift_network::abilities::{Ability, ObjectCapabilities};
use swift_network::effects::{Event, ExecutionEffects, ExecutionStatus};
use swift_network::errors::{CoreError, ExecutionError, ProtocolError};
use swift_network::gas::{GasSchedule, GasStatus, GasUnit};
use swift_network::object::{Object, ObjectID, Owner};
use swift_network::object_table::ObjectTable;
use swift_network::types::{Address, Balance, SequenceNumber, StructTag, TypeTag};

fn object(id_byte: u8, data: Vec<u8>) -> Object {
    Object::new(ObjectID::from_bytes([id_byte; 32]), Owner::Immutable, TypeTag::U64, data)
}

#[test]
fn balance_add_and_sub() {
    let mut b = Balance::new(10);
    assert!(b.add(5).is_ok());
    assert_eq!(b.value(), 15);
    assert!(b.sub(15).is_ok());
    assert_eq!(b.value(), 0);
}

#[test]
fn balance_overflow_is_refused_and_leaves_value() {
    let mut b = Balance::new(u64::MAX - 1);
    let r = b.add(2);
    assert!(matches!(r, Err(CoreError::InvalidBalance(_))));
    assert_eq!(b.value(), u64::MAX - 1);
}

#[test]
fn balance_underflow_is_refused_and_leaves_value() {
    let mut b = Balance::new(3);
    let r = b.sub(4);
    assert!(matches!(r, Err(CoreError::InvalidBalance(_))));
    assert_eq!(b.value(), 3);
}

#[test]
fn sequence_number_increments() {
    let mut s = SequenceNumber::new(41);
    s.increment();
    assert_eq!(s.value(), 42);
}

#[test]
fn address_and_object_id_round_trip_bytes() {
    let a = Address::from_bytes([7u8; 20]);
    assert_eq!(a.as_bytes(), &[7u8; 20]);
    let id = ObjectID::from_bytes([9u8; 32]);
    assert_eq!(id.as_bytes(), &[9u8; 32]);
}

#[test]
fn random_object_ids_differ() {
    let a = ObjectID::random();
    let b = ObjectID::random();
    assert_ne!(a.as_bytes(), b.as_bytes());
}

#[test]
fn owner_queries() {
    let addr = Address::from_bytes([1u8; 20]);
    let o = Owner::AddressOwner(addr);
    assert_eq!(o.get_address_owner().map(|a| *a.as_bytes()), Some([1u8; 20]));
    assert!(o.get_object_owner().is_none());
    assert!(!o.is_shared());
    assert!(!o.is_immutable());
    let shared = Owner::Shared { initial_shared_version: SequenceNumber::new(1) };
    assert!(shared.is_shared());
    assert!(Owner::Immutable.is_immutable());
    let by_object = Owner::ObjectOwner(ObjectID::from_bytes([2u8; 32]));
    assert_eq!(by_object.get_object_owner().map(|i| *i.as_bytes()), Some([2u8; 32]));
}

#[test]
fn object_new_and_setters() {
    let addr = Address::from_bytes([3u8; 20]);
    let mut o = Object::new(ObjectID::from_bytes([4u8; 32]), Owner::AddressOwner(addr), TypeTag::Bool, vec![1, 2]);
    assert_eq!(o.version().value(), 0);
    assert_eq!(o.data(), &[1u8, 2u8][..]);
    assert_eq!(o.previous_transaction(), &[0u8; 32]);
    assert!(o.is_owned_by(&addr));
    assert!(!o.is_owned_by(&Address::from_bytes([5u8; 20])));
    o.set_version(SequenceNumber::new(7));
    o.set_data(vec![9]);
    o.set_previous_transaction([6u8; 32]);
    o.set_owner(Owner::Immutable);
    assert_eq!(o.version().value(), 7);
    assert_eq!(o.data(), &[9u8][..]);
    assert_eq!(o.previous_transaction(), &[6u8; 32]);
    assert!(o.is_immutable());
    assert!(!o.is_shared());
    assert!(matches!(o.type_(), TypeTag::Bool));
    assert_eq!(o.id().as_bytes(), &[4u8; 32]);
}

#[test]
fn object_clone_keeps_contents() {
    let tag = TypeTag::Struct(StructTag {
        address: Address::from_bytes([1u8; 20]),
        module: "coin".to_string(),
        name: "Coin".to_string(),
        type_params: vec![TypeTag::Vector(Box::new(TypeTag::U8))],
    });
    let o = Object::new(ObjectID::from_bytes([8u8; 32]), Owner::Immutable, tag, vec![4, 5, 6]);
    let c = o.clone();
    assert_eq!(c.id().as_bytes(), o.id().as_bytes());
    assert_eq!(c.data(), o.data());
    match c.type_() {
        TypeTag::Struct(st) => {
            assert_eq!(st.module, "coin");
            assert_eq!(st.name, "Coin");
            assert_eq!(st.type_params.len(), 1);
        }
        _ => panic!("type tag changed"),
    }
}

#[test]
fn object_table_later_insert_replaces() {
    let mut t = ObjectTable::new();
    t.insert(object(1, vec![1]));
    t.insert(object(2, vec![2]));
    t.insert(object(1, vec![3]));
    assert_eq!(t.len(), 2);
    assert_eq!(t.get(&ObjectID::from_bytes([1u8; 32])).unwrap().data(), &[3u8][..]);
    t.remove(&ObjectID::from_bytes([1u8; 32]));
    assert!(!t.contains(&ObjectID::from_bytes([1u8; 32])));
    assert!(t.contains(&ObjectID::from_bytes([2u8; 32])));
    assert_eq!(t.len(), 1);
}

#[test]
fn object_table_insert_at_uses_given_id() {
    let mut t = ObjectTable::new();
    t.insert_at(ObjectID::from_bytes([5u8; 32]), object(1, vec![1]));
    assert!(t.contains(&ObjectID::from_bytes([5u8; 32])));
    assert!(!t.contains(&ObjectID::from_bytes([1u8; 32])));
}

#[test]
fn gas_deduct_within_and_over_limit() {
    let mut g = GasStatus::new(GasSchedule::default(), GasUnit::new(100));
    assert!(g.deduct_gas(GasUnit::new(60)).is_ok());
    assert_eq!(g.gas_used().value(), 60);
    assert_eq!(g.remaining_gas().value(), 40);
    let r = g.deduct_gas(GasUnit::new(41));
    assert!(matches!(r, Err(ExecutionError::GasError(_))));
    assert_eq!(g.gas_used().value(), 60);
}

#[test]
fn gas_schedule_charges() {
    let mut g = GasStatus::new(GasSchedule::default(), GasUnit::new(1000));
    assert!(g.charge_computation(7).is_ok());
    assert_eq!(g.gas_used().value(), 7);
    assert!(g.charge_storage(3).is_ok());
    assert_eq!(g.gas_used().value(), 37);
    assert!(g.charge_event().is_ok());
    assert_eq!(g.gas_used().value(), 42);
    assert!(g.charge_cross_contract_call().is_ok());
    assert_eq!(g.gas_used().value(), 62);
    assert!(g.charge_storage(100).is_err());
    assert_eq!(g.gas_used().value(), 62);
}

#[test]
fn gas_schedule_default_values() {
    let s = GasSchedule::default();
    assert_eq!(s.computation_cost.value(), 1);
    assert_eq!(s.storage_cost.value(), 10);
    assert_eq!(s.event_cost.value(), 5);
    assert_eq!(s.cross_contract_call_cost.value(), 20);
}

#[test]
fn abilities_add_remove_and_list() {
    let mut c = ObjectCapabilities::new();
    assert!(c.get_abilities().is_empty());
    c.add_ability(Ability::Key);
    c.add_ability(Ability::Copy);
    assert!(c.has_ability(&Ability::Key));
    assert!(c.is_copy() && c.is_key());
    assert!(!c.is_drop() && !c.is_store());
    assert_eq!(c.get_abilities().len(), 2);
    c.remove_ability(&Ability::Copy);
    assert!(!c.is_copy());
}

#[test]
fn abilities_key_without_store_is_refused() {
    let mut c = ObjectCapabilities::new();
    c.add_ability(Ability::Key);
    assert!(matches!(c.verify(), Err(ProtocolError::InvalidAbilities(_))));
    c.add_ability(Ability::Store);
    assert!(c.verify().is_ok());
}

#[test]
fn effects_record_what_happened() {
    let mut e = ExecutionEffects::new([1u8; 32]);
    assert!(e.is_success());
    e.add_created_object(object(1, vec![]));
    e.add_modified_object(object(2, vec![]));
    e.add_modified_object(object(2, vec![7]));
    e.add_deleted_object(ObjectID::from_bytes([3u8; 32]));
    e.add_event(Event { type_: "mint".to_string(), timestamp: 5 });
    e.add_dependency([2u8; 32]);
    e.set_gas_used(11);
    e.set_status(ExecutionStatus::Failure { error: "boom".to_string() });
    assert!(!e.is_success());
    assert_eq!(e.gas_used, 11);
    assert_eq!(e.created_objects.len(), 1);
    assert_eq!(e.modified_objects.len(), 1);
    assert_eq!(e.modified_objects.get(&ObjectID::from_bytes([2u8; 32])).unwrap().data(), &[7u8][..]);
    assert_eq!(e.deleted_objects.len(), 1);
    assert_eq!(e.events[0].type_str(), "mint");
    assert_eq!(e.events[0].timestamp(), 5);
    assert_eq!(e.dependencies, vec![[2u8; 32]]);
}

#[test]
fn gas_units_add_and_subtract() {
    assert_eq!((GasUnit::new(3) + GasUnit::new(4)).value(), 7);
    assert_eq!((GasUnit::new(9) - GasUnit::new(4)).value(), 5);
}

#[test]
fn sequence_numbers_order_by_value() {
    assert!(SequenceNumber::new(1) < SequenceNumber::new(2));
    assert!(!(SequenceNumber::new(2) < SequenceNumber::new(2)));
    assert!(SequenceNumber::new(7) > SequenceNumber::new(3));
    let before = SequenceNumber::new(41);
    let mut s = before;
    s.increment();
    assert!(s > before);
    assert_eq!(s.cmp(&before), std::cmp::Ordering::Greater);
    let mut set = std::collections::HashSet::new();
    set.insert(SequenceNumber::new(5));
    assert!(set.contains(&SequenceNumber::new(5)));
}

#[test]
fn gas_units_order_by_value() {
    assert!(GasUnit::new(3) <= GasUnit::new(3));
    assert!(GasUnit::new(3) <= GasUnit::new(4));
    assert!(!(GasUnit::new(5) <= GasUnit::new(4)));
    assert_eq!(GasUnit::new(9).max(GasUnit::new(2)).value(), 9);
}

#[test]
fn effects_count_modified_objects_by_id() {
    let mut e = ExecutionEffects::new([0u8; 32]);
    let o1 = Object::new(ObjectID::from_bytes([1u8; 32]), Owner::Immutable, TypeTag::U8, vec![1]);
    let o1b = Object::new(ObjectID::from_bytes([1u8; 32]), Owner::Immutable, TypeTag::U8, vec![2]);
    let o2 = Object::new(ObjectID::from_bytes([2u8; 32]), Owner::Immutable, TypeTag::U8, vec![3]);
    e.add_modified_object(o1);
    assert_eq!(e.modified_objects.len(), 1);
    e.add_modified_object(o1b);
    assert_eq!(e.modified_objects.len(), 1);
    e.add_modified_object(o2);
    assert_eq!(e.modified_objects.len(), 2);
}

#[test]
fn gas_past_u64_is_a_gas_error() {
    let mut g = GasStatus::new(GasSchedule::default(), GasUnit::new(100));
    g.deduct_gas(GasUnit::new(40)).unwrap();
    assert!(matches!(g.deduct_gas(GasUnit::new(u64::MAX)), Err(ExecutionError::GasError(_))));
    assert_eq!(g.gas_used().value(), 40);
    assert!(matches!(g.charge_storage(u64::MAX), Err(ExecutionError::GasError(_))));
    assert!(matches!(g.charge_computation(u64::MAX), Err(ExecutionError::GasError(_))));
    assert_eq!(g.gas_used().value(), 40);
    assert!(g.charge_computation(60).is_ok());
    assert_eq!(g.gas_used().value(), 100);
}

#[test]
fn object_setters_keep_its_id() {
    let id = ObjectID::from_bytes([6u8; 32]);
    let mut o = Object::new(id, Owner::Immutable, TypeTag::U8, vec![1]);
    o.set_version(SequenceNumber::new(4));
    o.set_owner(Owner::Shared { initial_shared_version: SequenceNumber::new(1) });
    o.set_data(vec![9, 9]);
    o.set_previous_transaction([3u8; 32]);
    assert_eq!(o.id(), id);
}

#[test]
fn effects_keep_events_in_order_and_status() {
    let mut e = ExecutionEffects::new([0u8; 32]);
    assert!(e.is_success());
    e.add_event(Event { type_: "first".to_string(), timestamp: 1 });
    e.set_status(ExecutionStatus::Failure { error: "boom".to_string() });
    e.add_deleted_object(ObjectID::from_bytes([1u8; 32]));
    e.add_event(Event { type_: "second".to_string(), timestamp: 2 });
    assert!(!e.is_success());
    assert_eq!(e.events.iter().map(|ev| ev.timestamp).collect::<Vec<_>>(), vec![1, 2]);
    e.set_status(ExecutionStatus::Success);
    assert!(e.is_success());
}
