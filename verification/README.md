# agentgateway

The verified core of an AI gateway: what it serves, what it makes of its configuration, and what it
decides about requests on their way through external processors and MCP backends.

- `src/store` holds the binds, routes, backends and policies that are being served. Every operation
  is specified on `StoreView`, the mathematical model in `src/store/model.rs`. `src/store/laws.rs`
  states what holds of the store as a whole: the order of precedence of policies, what is found
  after an insertion. `src/store/sync.rs` states what a synchronization replaces and how it is
  undone.
- `src/local` converts a local configuration. Each type has a spec function that says why it is
  refused, if it is, and one that says what it comes to. `src/local/laws.rs` states what holds of
  every configuration that is accepted.
- `src/ext_proc.rs` builds the messages to an external processor and decides what its answers do.
- `src/mcp.rs` and `src/mcp` decide what an MCP request is about, which targets serve it, and what
  an external server may change in it.
- `src/types` are the resources and policies that the others speak of.
- `app` is the ordinary Rust around the library: sockets, locks, channels, files, serialization.

Calls into other crates stand behind functions marked `#[verifier::external_body]`; the comment
above each says what is taken on trust.
