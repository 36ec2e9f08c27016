# oclob_node

The rules of an OCLOB node: a confidential limit order book in which seven
parties match encrypted orders and settle them on a DeFMI ledger. The library
is verified with Verus; every public function states what it returns and when it
refuses, and the laws that span functions are public proof functions.

## Layout

- `src/store*.rs`: a node's share store. What it takes in, which votes and
  certificates it accepts, when a private book head advances, when a settlement
  key share may be released, how the file is framed and migrated, and what of
  any run of changes is read back from it.
- `src/executor.rs`, `src/edge_client.rs`: round plans, execution receipts, the
  private output files of the matching engine, and the agreement of seven nodes.
- `src/corporate*.rs`, `src/claim_authorizations.rs`: a participant's reserves,
  its first-write-wins recovery journal, the dispatch of signed orders, expiry
  and reconciliation, claim signers, and the service that fronts them.
- `src/market_*.rs`: intake of admitted orders, the resident market's journal
  and its rounds, the public book and its conservation laws.
- `src/deployment_policy.rs`, `src/native_admission.rs`, `src/node_service.rs`:
  who may start what, and who may call it.
- `src/native_*.rs`, `src/*acceptance*.rs`, `src/edge_submit.rs`,
  `src/lab_provision.rs`: what the acceptance and laboratory programs check and
  write.
- `src/encoding_laws.rs`: what is hashed or signed fixes every field behind it.
- `src/bytes.rs`, `src/text*.rs`, `src/lines.rs`, `src/stable_sort.rs`: byte
  strings, texts and small collections.
- `src/chance.rs`, `src/json.rs`, `src/paths.rs`, `src/scalars.rs`,
  `src/signatures.rs`: the calls into outside crates, each behind a stated
  contract.
- `tests/`: the library at work on concrete values.
- `app/`: a command line for what needs only files, certificates and TLS.

Values that only a deployment's own crates can compute (order encryption,
commitments, proofs, the ledger's answers) reach the library as plain arguments,
and each function is verified for every value of them.
