# ante-gateway

A gateway that connects Slack and Discord to isolated sessions of an Ante host.

- `src/` is the library. It holds the gateway's decisions, verified with Verus:
  which messages are meant for the bot and to which conversation they belong,
  who may talk to it, what a message or an event means to its conversation, how
  questions are shown and answered, and what is printed.
- `app/` is the program around it: the command line, the configuration file, the
  connections, and the loop that performs what the library decides.
- `tests/` runs the library on concrete values.

What is taken on trust about other crates stands at the functions that call
them, in `json.rs` (`serde_json`), `mention.rs` (`regex`), `http.rs` (`reqwest`,
`webpki-root-certs`) and `text.rs` (the standard library).
