# Mahayana

The rules of the Mahayana command line and of its embedded shells, written in Rust and verified with
Verus: the product account and its session, the agents and their turns, mini-apps as contacts, the
browser runtime, plugin repositories, the official mini-apps' tool server, and the command line
itself.

- `src/` is the library. It decides; it reads no file and opens no connection. A function that needs
  outside work returns what to do next (a request to send, a session to store, a tool to call), and
  takes the outcome as a value. A path is read by the rules of the system that it is for, which is
  an argument. JSON is read and printed by `serde_json`, URLs by `url`; what is taken on trust from
  them stands in `json.rs`, `json_text.rs`, `url_text.rs` and `text.rs`.
- `app/` is the program around it: arguments, files, HTTP, the terminal, the browser page.
- `tests/` runs the library on concrete values.

The laws of the library stand next to the functions that they are about, as public proof functions
whose names start with `lemma_`.
