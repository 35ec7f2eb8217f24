use swift_network::crypto::{KeyPair, SignatureScheme};
use swift_network::effects::{Event, ExecutionStatus};
use swift_network::errors::{ExecutionError, ProtocolError};
use swift_network::execution::{ExecutionContext, Executor};
use swift_network::framework::{FrameworkConfig, MoveContract};
use swift_network::gas::{GasSchedule, GasUnit};
use swift_network::object::{Object, ObjectID, Owner};
use swift_network::protocol::{CallArg, SignedTransaction, TransactionData, TransactionKind};
use swift_network::types::{Address, SequenceNumber, StructTag, TypeTag};
use swift_network::validation::{MoveVM, TransactionValidator, VMConfig};

fn sign(kp: &KeyPair, kind: TransactionKind, gas_budget: u64) -> SignedTransaction {
    let data = TransactionData { sender: kp.public(), kind, gas_budget, gas_price: 1, expiration: 0 };
    let signature = kp.sign(&data.encode());
    SignedTransaction { data, signature }
}

fn struct_tag(module: &str, name: &str, params: Vec<TypeTag>) -> TypeTag {
    TypeTag::Struct(StructTag {
        address: Address::from_bytes([0u8; 20]),
        module: module.to_string(),
        name: name.to_string(),
        type_params: params,
    })
}

fn call(function: &str, type_arguments: Vec<TypeTag>, arguments: Vec<CallArg>) -> TransactionKind {
    TransactionKind::MoveCall {
        package: ObjectID::from_bytes([1u8; 32]),
        module: "m".to_string(),
        function: function.to_string(),
        type_arguments,
        arguments,
    }
}

fn is_validation(r: Result<(), ExecutionError>) -> bool {
    matches!(r, Err(ExecutionError::ValidationError(_)))
}

#[test]
fn valid_transactions_pass() {
    let v = TransactionValidator::new();
    let kp = KeyPair::generate(SignatureScheme::Ed25519);
    let t = sign(&kp, call("f", vec![struct_tag("coin", "Coin", vec![TypeTag::U64])], vec![CallArg::Pure(vec![1])]), 10);
    assert!(v.validate_transaction(&t).is_ok());
    let p = sign(&kp, TransactionKind::Publish { modules: vec![vec![0u8; 100]] }, 10);
    assert!(v.validate_transaction(&p).is_ok());
}

#[test]
fn gas_budget_over_limit_is_refused() {
    let v = TransactionValidator::new();
    let kp = KeyPair::generate(SignatureScheme::Ed25519);
    assert!(v.validate_transaction(&sign(&kp, call("f", vec![], vec![]), 1_000_000)).is_ok());
    assert!(is_validation(v.validate_transaction(&sign(&kp, call("f", vec![], vec![]), 1_000_001))));
}

#[test]
fn bad_signature_is_refused() {
    let v = TransactionValidator::new();
    let kp = KeyPair::generate(SignatureScheme::Ed25519);
    let mut t = sign(&kp, call("f", vec![], vec![]), 1);
    t.data.gas_price = 2;
    assert!(is_validation(v.validate_transaction(&t)));
}

#[test]
fn empty_function_name_is_refused() {
    let v = TransactionValidator::new();
    let kp = KeyPair::generate(SignatureScheme::Ed25519);
    assert!(is_validation(v.validate_transaction(&sign(&kp, call("", vec![], vec![]), 1))));
}

#[test]
fn type_arguments_must_name_module_and_struct() {
    let v = TransactionValidator::new();
    assert!(v.validate_type_argument(&TypeTag::Vector(Box::new(struct_tag("m", "S", vec![])))).is_ok());
    assert!(is_validation(v.validate_type_argument(&struct_tag("", "S", vec![]))));
    assert!(is_validation(v.validate_type_argument(&struct_tag("m", "", vec![]))));
    let nested = struct_tag("m", "S", vec![TypeTag::Vector(Box::new(struct_tag("m", "", vec![])))]);
    assert!(is_validation(v.validate_type_argument(&nested)));
    assert!(is_validation(v.validate_type_arguments(&vec![TypeTag::U8, nested])));
}

#[test]
fn oversized_payloads_are_refused() {
    let v = TransactionValidator::new();
    let kp = KeyPair::generate(SignatureScheme::Ed25519);
    let big = vec![0u8; 128 * 1024 + 1];
    assert!(is_validation(v.validate_transaction(&sign(&kp, TransactionKind::Publish { modules: vec![big.clone()] }, 1))));
    assert!(is_validation(v.validate_transaction(&sign(&kp, call("f", vec![], vec![CallArg::Pure(big)]), 1))));
}

#[test]
fn input_objects_are_checked() {
    let v = TransactionValidator::new();
    let kp = KeyPair::generate(SignatureScheme::Ed25519);
    let transfer = |version: u64| TransactionKind::TransferObject {
        object_id: ObjectID::from_bytes([2u8; 32]),
        recipient: kp.public(),
        version: SequenceNumber::new(version),
    };
    assert!(v.validate_transaction(&sign(&kp, transfer(3), 1)).is_ok());
    assert!(is_validation(v.validate_transaction(&sign(&kp, transfer(u64::MAX), 1))));
    let ids = vec![ObjectID::from_bytes([3u8; 32]); 2049];
    assert!(is_validation(v.validate_transaction(&sign(&kp, call("f", vec![], vec![CallArg::ObjVec(ids)]), 1))));
}

#[test]
fn epoch_change_and_genesis_rules() {
    let v = TransactionValidator::new();
    let pk = KeyPair::generate(SignatureScheme::Ed25519).public();
    assert!(v.validate_epoch_change(1, &vec![pk.clone()]).is_ok());
    assert!(is_validation(v.validate_epoch_change(0, &vec![pk])));
    assert!(is_validation(v.validate_epoch_change(1, &vec![])));
    let o = Object::new(ObjectID::from_bytes([1u8; 32]), Owner::Immutable, TypeTag::U8, vec![]);
    assert!(v.validate_genesis(5, &vec![o]).is_ok());
    assert!(is_validation(v.validate_genesis(0, &vec![])));
    assert!(is_validation(v.validate_genesis(5, &vec![])));
}

#[test]
fn vm_limits_type_arguments() {
    let vm = MoveVM::new(VMConfig::default());
    assert_eq!(vm.config.max_type_argument_depth, 32);
    assert_eq!(vm.config.max_generic_instantiation_length, 32);
    assert!(vm.verify_type_arguments(&(0..32).map(|_| TypeTag::U8).collect()).is_ok());
    assert!(matches!(vm.verify_type_arguments(&(0..33).map(|_| TypeTag::U8).collect()), Err(ProtocolError::TooManyTypeArguments)));
    let mut deep = TypeTag::U8;
    for _ in 0..32 {
        deep = TypeTag::Vector(Box::new(deep));
    }
    assert!(vm.verify_type_argument(&deep, 0).is_ok());
    let deeper = TypeTag::Vector(Box::new(deep));
    assert!(matches!(vm.verify_type_argument(&deeper, 0), Err(ProtocolError::TypeArgumentTooDeep)));
}

#[test]
fn executor_prepares_metered_context() {
    let e = Executor::new();
    let kp = KeyPair::generate(SignatureScheme::Ed25519);
    let t = sign(&kp, call("f", vec![], vec![]), 77);
    let ctx = e.prepare(&t).unwrap();
    assert_eq!(ctx.gas_status().remaining_gas().value(), 77);
    assert_eq!(ctx.gas_status().gas_used().value(), 0);
    let bad = sign(&kp, call("", vec![], vec![]), 77);
    assert!(matches!(e.prepare(&bad), Err(ExecutionError::ValidationError(_))));
}

#[test]
fn executor_assembles_effects() {
    let e = Executor::new();
    let kp = KeyPair::generate(SignatureScheme::Ed25519);
    let t = sign(&kp, call("f", vec![], vec![]), 100);
    let mut ctx = e.prepare(&t).unwrap();
    ctx.gas_status_mut().deduct_gas(GasUnit::new(30)).unwrap();
    let obj = |b: u8, d: u8| Object::new(ObjectID::from_bytes([b; 32]), Owner::Immutable, TypeTag::U8, vec![d]);
    ctx.add_created_object(obj(1, 1));
    ctx.add_modified_object(obj(2, 1));
    ctx.add_modified_object(obj(2, 2));
    ctx.add_deleted_object(ObjectID::from_bytes([3u8; 32]));
    ctx.add_event(Event { type_: "t".to_string(), timestamp: 1 });
    let fx = e.finish(&t, Ok(()), ctx);
    assert!(fx.is_success());
    assert_eq!(fx.transaction_digest, *t.digest().as_bytes());
    assert_eq!(fx.gas_used, 30);
    assert_eq!(fx.created_objects.len(), 1);
    assert_eq!(fx.modified_objects.len(), 1);
    assert_eq!(fx.modified_objects.get(&ObjectID::from_bytes([2u8; 32])).unwrap().data(), &[2u8][..]);
    assert_eq!(fx.deleted_objects.len(), 1);
    assert_eq!(fx.events.len(), 1);
    let failed = e.finish(&t, Err(ExecutionError::ExecutionError("abort".to_string())), ExecutionContext::new(GasSchedule::default(), 5));
    match failed.status {
        ExecutionStatus::Failure { error } => assert_eq!(error, "abort"),
        ExecutionStatus::Success => panic!("expected a failure"),
    }
}

#[test]
fn framework_contract_and_config() {
    let state = Object::new(ObjectID::from_bytes([4u8; 32]), Owner::Immutable, TypeTag::U8, vec![]);
    let c = MoveContract::new(ObjectID::from_bytes([5u8; 32]), vec![1, 2], state);
    assert_eq!(c.address().as_bytes(), &[5u8; 32]);
    assert_eq!(c.module(), &[1u8, 2][..]);
    assert_eq!(c.state().id().as_bytes(), &[4u8; 32]);
    let f = FrameworkConfig::default();
    assert_eq!(f.max_type_argument_depth, 32);
    assert_eq!(f.max_modules_per_address, 256);
}

fn message(r: Result<(), ExecutionError>) -> String {
    match r {
        Err(ExecutionError::ValidationError(m)) => m,
        other => panic!("expected a validation error, got {:?}", other),
    }
}

#[test]
fn validation_reports_the_first_failing_check() {
    let v = TransactionValidator::new();
    let kp = KeyPair::generate(SignatureScheme::Ed25519);
    assert_eq!(message(v.validate_transaction(&sign(&kp, call("f", vec![], vec![]), 1_000_001))), "Gas budget too large");
    let mut t = sign(&kp, call("f", vec![], vec![]), 1);
    t.data.gas_price = 2;
    assert_eq!(message(v.validate_transaction(&t)), "Invalid transaction signature");
    assert_eq!(message(v.validate_transaction(&sign(&kp, call("", vec![struct_tag("", "S", vec![])], vec![]), 1))), "Empty function name");
    let nested = struct_tag("m", "S", vec![TypeTag::Vector(Box::new(struct_tag("m", "", vec![])))]);
    let tags = vec![TypeTag::U8, nested, struct_tag("", "T", vec![])];
    assert_eq!(message(v.validate_transaction(&sign(&kp, call("f", tags, vec![]), 1))), "Empty struct name in struct tag");
    let big = vec![0u8; 128 * 1024 + 1];
    assert_eq!(message(v.validate_transaction(&sign(&kp, TransactionKind::Publish { modules: vec![big] }, 1))), "Transaction too large");
}

#[test]
fn executor_passes_on_the_validator_error() {
    let e = Executor::new();
    let v = TransactionValidator::new();
    let kp = KeyPair::generate(SignatureScheme::Ed25519);
    for t in [sign(&kp, call("", vec![], vec![]), 5), sign(&kp, call("f", vec![], vec![]), 2_000_000)] {
        let from_validator = message(v.validate_transaction(&t));
        match e.prepare(&t) {
            Err(ExecutionError::ValidationError(m)) => assert_eq!(m, from_validator),
            _ => panic!("expected the validator's error"),
        }
    }
}
