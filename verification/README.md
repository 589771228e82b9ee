# from-zero-to-hero

A poll contract for CosmWasm chains: an administrator is set up, anyone creates polls of up
to five options, and each address holds one ballot per poll, which it may change.

- `src/` is the verified library: the messages, the stored values, and the decisions of the
  contract (`contract.rs`), each with a contract over views; `store.rs` models the storage as
  maps and proves that every accepted message keeps each option's count equal to the number
  of ballots for it.
- `app/` holds the entry points on the chain: storage, the chain's address validation and
  JSON serialisation, around calls into the library.
- `tests/` drives the library as the chain does.
