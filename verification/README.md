# wasmcloud-test-util

A harness for testing wasmCloud capability providers.

* `src/` is the library: how a provider is configured, linked, started, called and shut
  down, which test cases run in which order, and how their results are reported. Each
  function states what it does in its contract, and Verus proves it.
* `app/` does the work around those decisions: processes, files, the message bus and the
  terminal. It runs the library's state machines (`start`, `runner`) by performing each
  action and handing back the outcome.
* `tests/` runs the library on concrete values.

What rests on trust are the calls into `log`, `regex`, `nkeys`, `base64` and `serde_json`.
Each stands behind one declaration, in `log_level`, `select`, `identity`, `encoding` and
`json`, whose comment says what is claimed of it.
