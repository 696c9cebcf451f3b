# granite_cli

The verified core of a command line that sets up language models, the services that
serve them, and the coding tools that are launched with them.

`src/` is a Verus library. Its functions carry contracts that Verus proves; what the
library promises as a whole stands there as public proof functions named `law_...`.
`app/` is ordinary Rust around it: files, processes, the database, the user. `tests/`
runs the compiled library.

| module | what it decides |
|---|---|
| `config::validation` | whether the references of a configured instance resolve, and which one is broken first |
| `commands::remediation` | which repairs are offered for a broken reference, and what an answer leads to |
| `commands::hardware` | what the hardware panel shows |
| `launchers::bob` | how capabilities are bound to Bob, and the steps of a launch |
| `launchers::hook` | the marker in Bob's settings file, its quoting, the lock on it, the steps of a registration, and who is whose ancestor |
| `launchers::usage`, `proxy::usage` | how token usage is read and added up |
| `proxy::routes`, `proxy::model_wrapper` | where the session proxy sends what |
| `session`, `session::suffix`, `session::calendar` | the ids and records of sessions, their suffixes, and timestamps |
| `models`, `capabilities`, `providers`, `sources` | what is built from the configuration, and that it is built once |
| `registry`, `catalog` | the implementations that a type name stands for |
| `json`, `name_map`, `text` | the values that all of this works on |

## What is not proved

A few declarations are believed rather than proved. Each says in its comment what it
claims.

- `json`: reading, taking apart, putting together and writing JSON with `serde_json`.
  Documents are carried as trees; what `serde_json` reads a text as, and writes a value
  as, has a name and no definition here.
- `text`: `String::push`.
- `shared`: `Arc::clone`.
- `launchers::hook::quoting`: which character separates the parts of a path on the
  machine at hand. Nothing is claimed of it.
