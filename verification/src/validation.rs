//! Static validation of transactions before execution: size, gas budget,
//! signature, input objects and the shape of calls and type arguments; and
//! the limits that the virtual machine puts on type arguments.
use vstd::prelude::*;
use crate::crypto::{PublicKey, spec_signature_valid};
use crate::errors::{ExecutionError, ProtocolError};
use crate::object::Object;
use crate::protocol::{CallArg, SignedTransaction, TransactionKind, enc_data, enc_signed};
use crate::types::{TypeTag, tag_height, tags_height, lemma_tags_height};

verus! {

/// A type argument is well-formed: every struct tag in it names a module
/// and a struct.
pub open spec fn type_arg_valid(t: TypeTag) -> bool
    decreases t,
{
    match t {
        TypeTag::Vector(inner) => type_arg_valid(*inner),
        TypeTag::Struct(st) => st.module@.len() > 0 && st.name@.len() > 0 && type_args_valid(
            st.type_params@,
        ),
        _ => true,
    }
}

/// Every type argument of the list is well-formed.
pub open spec fn type_args_valid(ts: Seq<TypeTag>) -> bool
    decreases ts,
{
    if ts.len() == 0 {
        true
    } else {
        type_args_valid(ts.drop_last()) && type_arg_valid(ts.last())
    }
}

pub proof fn lemma_type_args_valid(ts: Seq<TypeTag>)
    ensures
        type_args_valid(ts) <==> forall|i: int| 0 <= i < ts.len() ==> type_arg_valid(#[trigger] ts[i]),
    decreases ts.len(),
{
    if ts.len() > 0 {
        lemma_type_args_valid(ts.drop_last());
        assert forall|i: int| 0 <= i < ts.len() - 1 implies ts.drop_last()[i] == ts[i] by {}
    }
}

/// How many objects a call argument names.
pub open spec fn arg_objects(a: CallArg) -> int {
    match a {
        CallArg::Pure(_) => 0,
        CallArg::Object(_) => 1,
        CallArg::ObjVec(ids) => ids@.len() as int,
    }
}

/// How many objects a list of call arguments names.
pub open spec fn args_objects(args: Seq<CallArg>) -> int
    decreases args.len(),
{
    if args.len() == 0 {
        0
    } else {
        args_objects(args.drop_last()) + arg_objects(args.last())
    }
}

/// How many input objects a transaction kind names.
pub open spec fn input_object_count(k: TransactionKind) -> int {
    match k {
        TransactionKind::TransferObject { .. } => 1,
        TransactionKind::Publish { .. } => 0,
        TransactionKind::MoveCall { arguments, .. } => args_objects(arguments@),
    }
}

/// The input objects carry usable versions: a transferred object's version
/// is not the highest sequence number.
pub open spec fn input_versions_valid(k: TransactionKind) -> bool {
    match k {
        TransactionKind::TransferObject { version, .. } => version.0 != u64::MAX,
        _ => true,
    }
}

/// No pure argument is longer than `max`.
pub open spec fn args_fit(args: Seq<CallArg>, max: usize) -> bool {
    forall|i: int| 0 <= i < args.len() ==> (#[trigger] args[i] matches CallArg::Pure(b) ==> b@.len() <= max)
}

/// No module is longer than `max`.
pub open spec fn modules_fit(modules: Seq<Vec<u8>>, max: usize) -> bool {
    forall|i: int| 0 <= i < modules.len() ==> (#[trigger] modules[i])@.len() <= max
}

/// The checks that belong to the kind of transaction.
pub open spec fn kind_valid(k: TransactionKind, max_size: usize) -> bool {
    match k {
        TransactionKind::MoveCall { function, type_arguments, arguments, .. } => function@.len() > 0
            && type_args_valid(type_arguments@) && args_fit(arguments@, max_size),
        TransactionKind::Publish { modules } => modules_fit(modules@, max_size),
        TransactionKind::TransferObject { .. } => true,
    }
}

/// The message of the first check that a type argument fails, if any: an
/// empty module name, then an empty struct name, then its parameters in
/// order.
pub open spec fn type_arg_message(t: TypeTag) -> Option<Seq<char>>
    decreases t,
{
    match t {
        TypeTag::Vector(inner) => type_arg_message(*inner),
        TypeTag::Struct(st) => if st.module@.len() == 0 {
            Some("Empty module name in struct tag"@)
        } else if st.name@.len() == 0 {
            Some("Empty struct name in struct tag"@)
        } else {
            type_args_message(st.type_params@)
        },
        _ => None,
    }
}

/// The message of the first type argument of the list that fails a check,
/// if any.
pub open spec fn type_args_message(ts: Seq<TypeTag>) -> Option<Seq<char>>
    decreases ts,
{
    if ts.len() == 0 {
        None
    } else {
        match type_args_message(ts.drop_last()) {
            Some(m) => Some(m),
            None => type_arg_message(ts.last()),
        }
    }
}

/// A type argument fails a check exactly when it is not well-formed.
pub proof fn lemma_type_arg_message(t: TypeTag)
    ensures
        type_arg_message(t) is None <==> type_arg_valid(t),
    decreases t,
{
    match t {
        TypeTag::Vector(inner) => lemma_type_arg_message(*inner),
        TypeTag::Struct(st) => lemma_type_args_message(st.type_params@),
        _ => {},
    }
}

/// A list of type arguments fails a check exactly when it is not
/// well-formed.
pub proof fn lemma_type_args_message(ts: Seq<TypeTag>)
    ensures
        type_args_message(ts) is None <==> type_args_valid(ts),
    decreases ts,
{
    if ts.len() > 0 {
        lemma_type_args_message(ts.drop_last());
        lemma_type_arg_message(ts.last());
    }
}

/// Once a prefix of the list fails a check, the whole list fails it with
/// the same message.
pub proof fn lemma_type_args_message_prefix(ts: Seq<TypeTag>, k: int)
    requires
        0 <= k <= ts.len(),
        type_args_message(ts.take(k)) is Some,
    ensures
        type_args_message(ts) == type_args_message(ts.take(k)),
    decreases ts.len(),
{
    if k == ts.len() {
        assert(ts.take(k) =~= ts);
    } else {
        assert(ts.drop_last().take(k) =~= ts.take(k));
        lemma_type_args_message_prefix(ts.drop_last(), k);
    }
}

/// The message of the input-object check that a transaction kind fails, if
/// any: too many objects, then an unusable version.
pub open spec fn input_message(k: TransactionKind, max_inputs: usize) -> Option<Seq<char>> {
    if input_object_count(k) > max_inputs {
        Some("Too many input objects"@)
    } else if !input_versions_valid(k) {
        Some("Invalid object version"@)
    } else {
        None
    }
}

/// The message of the first check that belongs to the kind of transaction
/// and that it fails, if any.
pub open spec fn kind_message(k: TransactionKind, max_size: usize) -> Option<Seq<char>> {
    match k {
        TransactionKind::MoveCall { function, type_arguments, arguments, .. } => if function@.len() == 0 {
            Some("Empty function name"@)
        } else if type_args_message(type_arguments@) is Some {
            type_args_message(type_arguments@)
        } else if !args_fit(arguments@, max_size) {
            Some("Argument too large"@)
        } else {
            None
        },
        TransactionKind::Publish { modules } => if !modules_fit(modules@, max_size) {
            Some("Module bytecode too large"@)
        } else {
            None
        },
        TransactionKind::TransferObject { .. } => None,
    }
}

/// The message of the first check of the validator that a transaction
/// fails, in the order the validator makes them, if any.
pub open spec fn validation_message(v: TransactionValidator, tx: SignedTransaction) -> Option<Seq<char>> {
    if enc_signed(tx).len() > v.spec_max_transaction_size() {
        Some("Transaction too large"@)
    } else if tx.data.gas_budget > v.spec_max_gas_budget() {
        Some("Gas budget too large"@)
    } else if !spec_signature_valid(tx.data.sender@, enc_data(tx.data), tx.signature@) {
        Some("Invalid transaction signature"@)
    } else if input_message(tx.data.kind, v.spec_max_input_objects()) is Some {
        input_message(tx.data.kind, v.spec_max_input_objects())
    } else {
        kind_message(tx.data.kind, v.spec_max_transaction_size())
    }
}

/// Transaction validator
#[derive(Debug, Clone, Copy)]
pub struct TransactionValidator {
    /// Maximum gas budget
    max_gas_budget: u64,
    /// Maximum transaction size
    max_transaction_size: usize,
    /// Maximum input objects
    max_input_objects: usize,
    /// Maximum created objects
    max_created_objects: usize,
}

/// Whether a transaction passes every check of the validator with these
/// limits.
pub open spec fn transaction_valid(v: TransactionValidator, tx: SignedTransaction) -> bool {
    &&& enc_signed(tx).len() <= v.spec_max_transaction_size()
    &&& tx.data.gas_budget <= v.spec_max_gas_budget()
    &&& spec_signature_valid(tx.data.sender@, enc_data(tx.data), tx.signature@)
    &&& input_object_count(tx.data.kind) <= v.spec_max_input_objects()
    &&& input_versions_valid(tx.data.kind)
    &&& kind_valid(tx.data.kind, v.spec_max_transaction_size())
}

impl TransactionValidator {
    pub closed spec fn spec_max_gas_budget(&self) -> u64 {
        self.max_gas_budget
    }

    pub closed spec fn spec_max_transaction_size(&self) -> usize {
        self.max_transaction_size
    }

    pub closed spec fn spec_max_input_objects(&self) -> usize {
        self.max_input_objects
    }

    pub closed spec fn spec_max_created_objects(&self) -> usize {
        self.max_created_objects
    }

    /// Create new validator
    pub fn new() -> (v: TransactionValidator)
        ensures
            v.spec_max_gas_budget() == 1_000_000,
            v.spec_max_transaction_size() == 128 * 1024,
            v.spec_max_input_objects() == 2048,
            v.spec_max_created_objects() == 1024,
    {
        TransactionValidator {
            max_gas_budget: 1_000_000,
            max_transaction_size: 128 * 1024,
            max_input_objects: 2048,
            max_created_objects: 1024,
        }
    }

    /// Validate transaction: it must pass every check.
    pub fn validate_transaction(&self, transaction: &SignedTransaction) -> (r: Result<(), ExecutionError>)
        ensures
            r is Ok <==> transaction_valid(*self, *transaction),
            r matches Err(e) ==> e matches ExecutionError::ValidationError(m) && validation_message(*self, *transaction) == Some(m@),
    {
        if let Err(e) = self.validate_transaction_size(transaction) {
            return Err(e);
        }
        if let Err(e) = self.validate_gas_budget(transaction) {
            return Err(e);
        }
        if let Err(e) = self.validate_signature(transaction) {
            return Err(e);
        }
        if let Err(e) = self.validate_input_objects(transaction) {
            return Err(e);
        }
        proof {
            lemma_type_args_message(transaction.data.kind->type_arguments@);
        }
        match &transaction.data.kind {
            TransactionKind::MoveCall { function, type_arguments, arguments, .. } => {
                if let Err(e) = self.validate_move_function(function.as_str()) {
                    return Err(e);
                }
                if let Err(e) = self.validate_type_arguments(type_arguments) {
                    return Err(e);
                }
                if let Err(e) = self.validate_arguments(arguments) {
                    return Err(e);
                }
            },
            TransactionKind::Publish { modules } => {
                if let Err(e) = self.validate_modules(modules) {
                    return Err(e);
                }
            },
            TransactionKind::TransferObject { .. } => {},
        }
        Ok(())
    }

    /// Validate transaction size: its encoding is no longer than the limit.
    fn validate_transaction_size(&self, transaction: &SignedTransaction) -> (r: Result<(), ExecutionError>)
        ensures
            r is Ok <==> enc_signed(*transaction).len() <= self.max_transaction_size,
            r matches Err(e) ==> e matches ExecutionError::ValidationError(m) && m@ == "Transaction too large"@,
    {
        let size = transaction.encoded_size();
        if size > self.max_transaction_size {
            return Err(ExecutionError::ValidationError("Transaction too large".to_string()));
        }
        Ok(())
    }

    /// Validate gas budget
    fn validate_gas_budget(&self, transaction: &SignedTransaction) -> (r: Result<(), ExecutionError>)
        ensures
            r is Ok <==> transaction.data.gas_budget <= self.max_gas_budget,
            r matches Err(e) ==> e matches ExecutionError::ValidationError(m) && m@ == "Gas budget too large"@,
    {
        if transaction.gas_budget() > self.max_gas_budget {
            return Err(ExecutionError::ValidationError("Gas budget too large".to_string()));
        }
        Ok(())
    }

    /// Validate signature
    fn validate_signature(&self, transaction: &SignedTransaction) -> (r: Result<(), ExecutionError>)
        ensures
            r is Ok <==> spec_signature_valid(
                transaction.data.sender@,
                enc_data(transaction.data),
                transaction.signature@,
            ),
            r matches Err(e) ==> e matches ExecutionError::ValidationError(m) && m@ == "Invalid transaction signature"@,
    {
        if !transaction.verify_signature() {
            return Err(ExecutionError::ValidationError("Invalid transaction signature".to_string()));
        }
        Ok(())
    }

    /// Validate input objects: not too many, and each with a usable version.
    fn validate_input_objects(&self, transaction: &SignedTransaction) -> (r: Result<(), ExecutionError>)
        ensures
            r is Ok <==> input_object_count(transaction.data.kind) <= self.max_input_objects
                && input_versions_valid(transaction.data.kind),
            r matches Err(e) ==> e matches ExecutionError::ValidationError(m) && input_message(transaction.data.kind, self.max_input_objects) == Some(m@),
    {
        match &transaction.data.kind {
            TransactionKind::TransferObject { version, .. } => {
                if 1 > self.max_input_objects {
                    return Err(ExecutionError::ValidationError("Too many input objects".to_string()));
                }
                if version.0 == u64::MAX {
                    return Err(ExecutionError::ValidationError("Invalid object version".to_string()));
                }
                Ok(())
            },
            TransactionKind::Publish { .. } => Ok(()),
            TransactionKind::MoveCall { arguments, .. } => {
                let n = arguments.len();
                let mut count: usize = 0;
                let mut i: usize = 0;
                while i < n
                    invariant
                        n == arguments@.len(),
                        i <= n,
                        count == args_objects(arguments@.take(i as int)),
                        count <= self.max_input_objects,
                        input_object_count(transaction.data.kind) == args_objects(arguments@),
                        input_versions_valid(transaction.data.kind),
                    decreases n - i,
                {
                    let k: usize = match &arguments[i] {
                        CallArg::Pure(_) => 0,
                        CallArg::Object(_) => 1,
                        CallArg::ObjVec(ids) => ids.len(),
                    };
                    assert(arguments@.take(i + 1).drop_last() == arguments@.take(i as int));
                    assert(arguments@.take(i + 1).last() == arguments@[i as int]);
                    assert(k == arg_objects(arguments@[i as int]));
                    if k > self.max_input_objects - count {
                        proof {
                            lemma_args_objects_grow(arguments@, i + 1);
                        }
                        return Err(ExecutionError::ValidationError("Too many input objects".to_string()));
                    }
                    count = count + k;
                    i = i + 1;
                }
                assert(arguments@.take(n as int) == arguments@);
                Ok(())
            },
        }
    }

    /// Validate Move function: its name is not empty.
    fn validate_move_function(&self, name: &str) -> (r: Result<(), ExecutionError>)
        ensures
            r is Ok <==> name@.len() > 0,
            r matches Err(e) ==> e matches ExecutionError::ValidationError(m) && m@ == "Empty function name"@,
    {
        if name.unicode_len() == 0 {
            return Err(ExecutionError::ValidationError("Empty function name".to_string()));
        }
        Ok(())
    }

    /// Validate modules: no bytecode is longer than the size limit.
    fn validate_modules(&self, modules: &Vec<Vec<u8>>) -> (r: Result<(), ExecutionError>)
        ensures
            r is Ok <==> modules_fit(modules@, self.max_transaction_size),
            r matches Err(e) ==> e matches ExecutionError::ValidationError(m) && m@ == "Module bytecode too large"@,
    {
        let n = modules.len();
        let mut i: usize = 0;
        while i < n
            invariant
                n == modules@.len(),
                i <= n,
                forall|j: int| 0 <= j < i ==> (#[trigger] modules@[j])@.len() <= self.max_transaction_size,
            decreases n - i,
        {
            if modules[i].len() > self.max_transaction_size {
                return Err(ExecutionError::ValidationError("Module bytecode too large".to_string()));
            }
            i = i + 1;
        }
        Ok(())
    }

    /// Validate type arguments: each is well-formed.
    pub fn validate_type_arguments(&self, type_args: &Vec<TypeTag>) -> (r: Result<(), ExecutionError>)
        ensures
            r is Ok <==> type_args_valid(type_args@),
            r matches Err(e) ==> e matches ExecutionError::ValidationError(m) && type_args_message(type_args@) == Some(m@),
    {
        proof {
            lemma_type_args_valid(type_args@);
        }
        let n = type_args.len();
        let mut i: usize = 0;
        while i < n
            invariant
                n == type_args@.len(),
                i <= n,
                forall|j: int| 0 <= j < i ==> type_arg_valid(#[trigger] type_args@[j]),
                type_args_message(type_args@.take(i as int)) is None,
            decreases n - i,
        {
            let ghost ts = type_args@;
            assert(ts.take(i + 1).drop_last() =~= ts.take(i as int));
            assert(ts.take(i + 1).last() == ts[i as int]);
            match self.validate_type_argument(&type_args[i]) {
                Ok(()) => {
                    proof {
                        lemma_type_arg_message(ts[i as int]);
                    }
                },
                Err(e) => {
                    proof {
                        lemma_type_args_valid(type_args@);
                        lemma_type_args_message_prefix(ts, i + 1);
                    }
                    return Err(e);
                },
            }
            i = i + 1;
        }
        proof {
            lemma_type_args_valid(type_args@);
        }
        Ok(())
    }

    /// Validate type argument: struct tags name a module and a struct, all
    /// the way down.
    pub fn validate_type_argument(&self, type_arg: &TypeTag) -> (r: Result<(), ExecutionError>)
        ensures
            r is Ok <==> type_arg_valid(*type_arg),
            r matches Err(e) ==> e matches ExecutionError::ValidationError(m) && type_arg_message(*type_arg) == Some(m@),
        decreases tag_height(*type_arg),
    {
        match type_arg {
            TypeTag::Struct(struct_tag) => {
                if struct_tag.module.unicode_len() == 0 {
                    return Err(ExecutionError::ValidationError("Empty module name in struct tag".to_string()));
                }
                if struct_tag.name.unicode_len() == 0 {
                    return Err(ExecutionError::ValidationError("Empty struct name in struct tag".to_string()));
                }
                proof {
                    lemma_type_args_valid(struct_tag.type_params@);
                }
                let n = struct_tag.type_params.len();
                let mut i: usize = 0;
                while i < n
                    invariant
                        n == struct_tag.type_params@.len(),
                        i <= n,
                        *type_arg == TypeTag::Struct(*struct_tag),
                        forall|j: int| 0 <= j < i ==> type_arg_valid(#[trigger] struct_tag.type_params@[j]),
                        struct_tag.module@.len() > 0,
                        struct_tag.name@.len() > 0,
                        type_args_message(struct_tag.type_params@.take(i as int)) is None,
                    decreases n - i,
                {
                    proof {
                        lemma_tags_height(struct_tag.type_params@, i as int);
                    }
                    let ghost ts = struct_tag.type_params@;
                    assert(ts.take(i + 1).drop_last() =~= ts.take(i as int));
                    assert(ts.take(i + 1).last() == ts[i as int]);
                    match self.validate_type_argument(&struct_tag.type_params[i]) {
                        Ok(()) => {
                            proof {
                                lemma_type_arg_message(ts[i as int]);
                            }
                        },
                        Err(e) => {
                            proof {
                                lemma_type_args_valid(struct_tag.type_params@);
                                lemma_type_args_message_prefix(ts, i + 1);
                            }
                            return Err(e);
                        },
                    }
                    i = i + 1;
                }
                proof {
                    lemma_type_args_valid(struct_tag.type_params@);
                }
                Ok(())
            },
            TypeTag::Vector(inner) => self.validate_type_argument(&**inner),
            _ => Ok(()),
        }
    }

    /// Validate arguments: no pure argument is longer than the size limit.
    fn validate_arguments(&self, arguments: &Vec<CallArg>) -> (r: Result<(), ExecutionError>)
        ensures
            r is Ok <==> args_fit(arguments@, self.max_transaction_size),
            r matches Err(e) ==> e matches ExecutionError::ValidationError(m) && m@ == "Argument too large"@,
    {
        let n = arguments.len();
        let mut i: usize = 0;
        while i < n
            invariant
                n == arguments@.len(),
                i <= n,
                forall|j: int|
                    0 <= j < i ==> (#[trigger] arguments@[j] matches CallArg::Pure(b) ==> b@.len()
                        <= self.max_transaction_size),
            decreases n - i,
        {
            if let CallArg::Pure(b) = &arguments[i] {
                if b.len() > self.max_transaction_size {
                    return Err(ExecutionError::ValidationError("Argument too large".to_string()));
                }
            }
            i = i + 1;
        }
        Ok(())
    }

    /// Validate epoch change: the next epoch is not zero and has validators.
    pub fn validate_epoch_change(&self, next_epoch: u64, next_validators: &Vec<PublicKey>) -> (r: Result<
        (),
        ExecutionError,
    >)
        ensures
            r is Ok <==> next_epoch != 0 && next_validators@.len() > 0,
            r matches Err(e) ==> e is ValidationError,
    {
        if next_epoch == 0 {
            return Err(ExecutionError::ValidationError("Invalid epoch number".to_string()));
        }
        if next_validators.len() == 0 {
            return Err(ExecutionError::ValidationError("Empty validator set".to_string()));
        }
        Ok(())
    }

    /// Validate genesis: its timestamp is not zero and it holds objects.
    pub fn validate_genesis(&self, timestamp: u64, objects: &Vec<Object>) -> (r: Result<(), ExecutionError>)
        ensures
            r is Ok <==> timestamp != 0 && objects@.len() > 0,
            r matches Err(e) ==> e is ValidationError,
    {
        if timestamp == 0 {
            return Err(ExecutionError::ValidationError("Invalid genesis timestamp".to_string()));
        }
        if objects.len() == 0 {
            return Err(ExecutionError::ValidationError("Empty genesis state".to_string()));
        }
        Ok(())
    }
}

/// Counting objects over a longer prefix never gives fewer.
pub proof fn lemma_args_objects_grow(args: Seq<CallArg>, i: int)
    requires
        0 <= i <= args.len(),
    ensures
        args_objects(args.take(i)) <= args_objects(args),
    decreases args.len() - i,
{
    if i < args.len() {
        lemma_args_objects_grow(args, i + 1);
        assert(args.take(i + 1).drop_last() == args.take(i));
    } else {
        assert(args.take(i) == args);
    }
}

/// Execution engine configuration
#[derive(Debug, Clone, Copy)]
pub struct ExecutionConfig {
    /// Maximum gas per transaction
    pub max_gas_per_tx: u64,
    /// Maximum number of events
    pub max_events: usize,
}

/// Runtime configuration
#[derive(Debug, Clone, Copy)]
pub struct RuntimeConfig {
    /// Execution configuration
    pub execution: ExecutionConfig,
}

/// VM configuration: the limits that the virtual machine enforces.
#[derive(Debug, Clone, Copy)]
pub struct VMConfig {
    /// Max type argument depth
    pub max_type_argument_depth: u8,
    /// Max type nodes
    pub max_type_nodes: u8,
    /// Max dependency depth
    pub max_dependency_depth: u8,
    /// Max function parameters
    pub max_function_parameters: u8,
    /// Max generic instantiation length
    pub max_generic_instantiation_length: u8,
}

impl Default for VMConfig {
    fn default() -> (c: VMConfig)
        ensures
            c.max_type_argument_depth == 32,
            c.max_type_nodes == 64,
            c.max_dependency_depth == 100,
            c.max_function_parameters == 128,
            c.max_generic_instantiation_length == 32,
    {
        VMConfig {
            max_type_argument_depth: 32,
            max_type_nodes: 64,
            max_dependency_depth: 100,
            max_function_parameters: 128,
            max_generic_instantiation_length: 32,
        }
    }
}

/// A type argument met at `depth` stays within `max` depth: its nesting,
/// counted from `depth`, never goes above `max`.
pub open spec fn depth_within(t: TypeTag, depth: int, max: int) -> bool
    decreases t,
{
    depth <= max && match t {
        TypeTag::Vector(inner) => depth_within(*inner, depth + 1, max),
        TypeTag::Struct(st) => depths_within(st.type_params@, depth + 1, max),
        _ => true,
    }
}

/// Every type argument of the list stays within `max` depth from `depth`.
pub open spec fn depths_within(ts: Seq<TypeTag>, depth: int, max: int) -> bool
    decreases ts,
{
    if ts.len() == 0 {
        true
    } else {
        depths_within(ts.drop_last(), depth, max) && depth_within(ts.last(), depth, max)
    }
}

pub proof fn lemma_depths_within(ts: Seq<TypeTag>, depth: int, max: int)
    ensures
        depths_within(ts, depth, max) <==> forall|i: int|
            0 <= i < ts.len() ==> depth_within(#[trigger] ts[i], depth, max),
    decreases ts.len(),
{
    if ts.len() > 0 {
        lemma_depths_within(ts.drop_last(), depth, max);
        assert forall|i: int| 0 <= i < ts.len() - 1 implies ts.drop_last()[i] == ts[i] by {}
    }
}

/// The virtual machine's checks on type arguments.
#[derive(Debug, Clone, Copy)]
pub struct MoveVM {
    /// Configuration
    pub config: VMConfig,
}

impl MoveVM {
    pub fn new(config: VMConfig) -> (vm: MoveVM)
        ensures
            vm.config == config,
    {
        MoveVM { config }
    }

    /// Verify type arguments: no more than the generic instantiation limit,
    /// and none nested deeper than the depth limit.
    pub fn verify_type_arguments(&self, ty_args: &Vec<TypeTag>) -> (r: Result<(), ProtocolError>)
        requires
            self.config.max_type_argument_depth < 255 || tags_height(ty_args@) <= 256,
        ensures
            ty_args@.len() > self.config.max_generic_instantiation_length ==> (r matches Err(e)
                && e is TooManyTypeArguments),
            ty_args@.len() <= self.config.max_generic_instantiation_length ==> (r is Ok <==> depths_within(
                ty_args@,
                0,
                self.config.max_type_argument_depth as int,
            )) && (r matches Err(e) ==> e is TypeArgumentTooDeep),
    {
        if ty_args.len() > self.config.max_generic_instantiation_length as usize {
            return Err(ProtocolError::TooManyTypeArguments);
        }
        proof {
            lemma_depths_within(ty_args@, 0, self.config.max_type_argument_depth as int);
        }
        let n = ty_args.len();
        let mut i: usize = 0;
        while i < n
            invariant
                n == ty_args@.len(),
                i <= n,
                n <= self.config.max_generic_instantiation_length,
                self.config.max_type_argument_depth < 255 || tags_height(ty_args@) <= 256,
                forall|j: int|
                    0 <= j < i ==> depth_within(#[trigger] ty_args@[j], 0, self.config.max_type_argument_depth as int),
            decreases n - i,
        {
            proof {
                lemma_tags_height(ty_args@, i as int);
            }
            match self.verify_type_argument(&ty_args[i], 0) {
                Ok(()) => {},
                Err(e) => {
                    proof {
                        lemma_depths_within(ty_args@, 0, self.config.max_type_argument_depth as int);
                    }
                    return Err(e);
                },
            }
            i = i + 1;
        }
        proof {
            lemma_depths_within(ty_args@, 0, self.config.max_type_argument_depth as int);
        }
        Ok(())
    }

    /// Verify a single type argument met at `depth`.
    pub fn verify_type_argument(&self, ty: &TypeTag, depth: u8) -> (r: Result<(), ProtocolError>)
        requires
            self.config.max_type_argument_depth < 255 || tag_height(*ty) + depth <= 256,
        ensures
            r is Ok <==> depth_within(*ty, depth as int, self.config.max_type_argument_depth as int),
            r matches Err(e) ==> e is TypeArgumentTooDeep,
        decreases tag_height(*ty),
    {
        if depth > self.config.max_type_argument_depth {
            return Err(ProtocolError::TypeArgumentTooDeep);
        }
        match ty {
            TypeTag::Vector(inner) => self.verify_type_argument(&**inner, depth + 1),
            TypeTag::Struct(struct_tag) => {
                proof {
                    lemma_depths_within(
                        struct_tag.type_params@,
                        depth + 1,
                        self.config.max_type_argument_depth as int,
                    );
                }
                let n = struct_tag.type_params.len();
                let mut i: usize = 0;
                while i < n
                    invariant
                        n == struct_tag.type_params@.len(),
                        i <= n,
                        *ty == TypeTag::Struct(*struct_tag),
                        depth <= self.config.max_type_argument_depth,
                        self.config.max_type_argument_depth < 255 || tag_height(*ty) + depth <= 256,
                        forall|j: int|
                            0 <= j < i ==> depth_within(
                                #[trigger] struct_tag.type_params@[j],
                                depth + 1,
                                self.config.max_type_argument_depth as int,
                            ),
                    decreases n - i,
                {
                    proof {
                        lemma_tags_height(struct_tag.type_params@, i as int);
                    }
                    match self.verify_type_argument(&struct_tag.type_params[i], depth + 1) {
                        Ok(()) => {},
                        Err(e) => {
                            proof {
                                lemma_depths_within(
                                    struct_tag.type_params@,
                                    depth + 1,
                                    self.config.max_type_argument_depth as int,
                                );
                            }
                            return Err(e);
                        },
                    }
                    i = i + 1;
                }
                proof {
                    lemma_depths_within(
                        struct_tag.type_params@,
                        depth + 1,
                        self.config.max_type_argument_depth as int,
                    );
                }
                Ok(())
            },
            _ => Ok(()),
        }
    }
}

} // verus!
