# sp_cli

The command line of a silent-payment wallet, with its decisions verified by Verus.

- `src/` is the verified library. It reads recipients, chooses where a scan starts, finds
  the partial secrets of a block, puts blocks together for indexing, plans the outputs of a
  payment, and writes the reports. `frigate.rs` holds what is asked of a Frigate server and
  what is made of its replies.
- `app/` is the program: argument parsing with clap, the network, the wallet's store, and
  signing.
- `tests/` runs the library on concrete values, with the outside crates linked.

Calls into outside crates stand behind small functions marked
`#[verifier::external_body]`, each of which says what it relies on.
