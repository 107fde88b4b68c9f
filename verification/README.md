# plim_chain

The pallet logic of the P:L:I:M: chain as verified state machines. Each pallet is a
struct holding its storage maps (`table::Table`, an insertion-ordered map whose view is
a `Map`), and each call is a method whose contract gives, for every input, the error it
reports or the exact new state, the events it deposits and the balances it moves on the
shared `ledger::Ledger`.

Layout:

- `src/common.rs`, `src/table.rs`, `src/ledger.rs`, `src/scale.rs`, `src/weights.rs`:
  origins, storage maps, native balances, SCALE encoding and call weights.
- `src/crypto.rs`: BLAKE2-256 and ed25519 verification, called through `sp-io`.
- One module per pallet: `licenses`, `marketplace`, `royalties`, `rwa`, `kyc`, `oracle`,
  `mesh_relay`, `timestamps`, `payments`, `channels`, `compliance`, `delegation`,
  `identity`, `mandates`, `reputation`.
- `src/bridges.rs`: the runtime adapters between the license registry, the marketplace
  and the royalty book.
- `app/lib.rs`: the chain's token properties as a JSON map.

The laws of the library (a closed seal stays closed, issued shares equal the shares
held, a relayed transaction is recorded once, a Merkle path proves inclusion, and so on)
are public proof functions next to the calls they speak of.
