# swift_network

The core logic of the Swift Network node as a verified library: the
functions under `src/` carry contracts that Verus proves, with one
exception. The calls into `sha2`, `ed25519-dalek`, `blst`, `rand` and the
standard library's clock go through small wrappers marked
`#[verifier::external_body]` (in `hashing`, `crypto`, `object` and
`mempool`); Verus assumes their contracts rather than proving them, and the
doc comment of each says what it claims of the call it makes.

- `types`, `object`, `object_table`: addresses, balances, objects and tables
  of objects by id.
- `gas`, `effects`, `execution`, `validation`: metering, what a transaction
  did, the checks before a run and the effects assembled after it, and the
  virtual machine's limits on type arguments.
- `crypto`, `hashing`, `encoding`, `protocol`, `certificate`: keys and
  signatures (Ed25519 and BLS), SHA-256, the canonical encoding of
  transactions and their certificates.
- `mempool`: pending transactions by priority, bounded in total and per
  sender.
- `consensus`, `narwhal`: safety rules, the DAG with its commit rule, and the
  engine that certifies what it commits.
- `epoch`, `authority`, `quorum_driver`: committees and epochs, the checks an
  authority makes on transactions and certificates, and the collection of
  signatures into certificates.
- `accumulator`, `sequenced`, `checkpoint`, `authority_checkpoint`: the state
  accumulator, checkpoints with their digests, the stores that keep them, and
  pruning.

`app/` holds what stays outside the library: configuration files, the
reputation gate of BullShark, and the background pruning task.
