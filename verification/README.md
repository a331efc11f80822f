# ledger

A verified ledger for a proof-of-stake blockchain. The library keeps a state for each block:
the outputs that are not spent, what is fixed for an epoch, prices of gas, channels,
declarations of service providers, and the rewards of leaders and providers. What each function
returns is stated in its contract and proved with Verus.

## Layout

- `src/merkle`, `src/mmr`: a Merkle tree whose slots are filled and emptied, a store on top of
  it, and an append-only Merkle Mountain Range with proofs of inclusion.
- `src/collections`, `src/signature.rs`, `src/merkle/blake2b.rs`: the trusted boundary to
  persistent collections, signatures and hashing.
- `src/cryptarchia`: epochs, stake, the nonce and the markets for gas.
- `src/mantle`: channels, leaders, locked notes, proofs of work, declarations and their rewards.
- `src/ledger`: headers, operations, the contents of blocks, and what blocks earn.
- `src/session`: a ledger in which providers take part session by session.
- `tests`: examples that run against the compiled library.
- `app`: messages for errors, copies of values for storage, and the application of blocks with
  the help of a host.

Laws that relate several functions are public proof functions, most of them in files named
`laws.rs`.

## What is computed outside

Proofs are verified, stake is inferred and transactions are decoded by a host. The library fixes
what the host is asked (`leader_public`, `nonce_inputs`, `stake_plan`, `core_nodes`,
`leader_inputs`, `selection_inputs`, `op_context`, `reward_notes`, `zk_signers`,
`transition_inputs`) and decides what follows from each answer.
