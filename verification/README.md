# papr

The logic of Papr, an RSS reader with a command line for agents, as a verified
Rust library: the functions under `src/` have contracts that Verus proves, but
for the few wrappers around calls into outside crates and std, whose contracts
it takes on trust.

- `src/` — the library. `text`, `json`, `net`, `chunk` and `models` hold the
  plain values that the rest works on; `greader`, `sync`, `desktop` and
  `course` the synchronisation with FreshRSS and Miniflux; `scheduler` the refresh of feeds;
  `sanitize`, `markup` and `translate` what is made of HTML; `opml` and
  `subscribe` subscriptions and their lists; `toon`, `cli`, `commands`, `manage`
  and `assistant` what the command line says; `ai`, `translate_api`,
  `translate_llm` and `export` the services that are asked.
- `tests/` — tests on concrete values, with the outside crates linked.
- `app/` — the program around the library: arguments, HTTP, files, and the
  interface to the database and ingestion layers.

Functions whose names start with `law_` state what holds across functions: of
every text, of every sequence of events, of a write and the read behind it.
Calls into outside crates stand behind small wrappers, each with the claim that
is made of the call above it.
