# Veil

A minimal Ironwood wallet whose decisions are verified with Verus.

`src/` is the library. Verus proves the contract of every function in it, except for the small
functions that call into other crates: what their contracts say of those crates is taken on trust.

- `config` networks, upgrade heights and the setup of the wallet
- `network::node` the parameters of the embedded header node
- `network::history` blocks as the header node stores them, and the chain history they commit to
- `network::verify` authenticates note-tree roots against the selected headers: the roots of a
  block are accepted only once the header of the next block commits to them
- `network::compact` bounded exchanges with a provider of compact blocks
- `network::proto` the encodings of requests and responses
- `chain`, `shape`, `scan` tree states and compact blocks, checked against authenticated roots
- `sync` what to ask, truncate, scan and complete to bring the wallet up to date
- `keys`, `storage`, `wallet`, `send`, `daemon`, `rpc` keys, accounts, payments and the daemon's
  decisions

`app/` is the program around it: files, the database, the network, the RPC server and the client.
`tests/` runs the library with the real crates.
