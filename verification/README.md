# ironclaw

The rules of an agent's two channels to Discord, and the policy that says which of its
tool calls need no approval, written in Verus: every function states what it returns, and
the statements are proved.

- `src/` is the library. It reads and sends nothing.
  - `approval_policy.rs`: auto-approval for trusted operators, and refusals of
    installations.
  - `discord/`: webhook interactions, polling for mentions, answers and their truncation.
    `routing.rs` relates what is handed on to what is answered.
  - `gateway/`: a session with the gateway as a state machine, the wait between sessions,
    starting and shutting down, and replies over the REST API. `laws.rs` says what holds of a session as a whole.
  - `json.rs`, `http.rs`, `text.rs`, `digits.rs`: the values that the rules are stated
    over.
  - `serde_bridge.rs`: what is taken on trust about `serde_json`. `http.rs`, `text.rs` and
    `gateway/channel.rs` hold the few other such items, each beside its use.
- `app/` connects the library to the environment, the host, the network and serde.
- `tests/` runs the library.

Messages are measured in bytes: one of at most 2000 bytes is sent as it is, and what is
kept of a longer one takes at most 1990 bytes.
