# wasminspect

An interactive debugger for WebAssembly: a verified interpreter and store,
breakpoints and stepping, DWARF source maps, variables and type formatting,
and the remote debugging protocol.

- `src/vm`: the interpreter (`executor.rs`), its store, memories, tables,
  globals and modules, and the instantiation of a decoded module with its
  segments and the host modules it imports from (`instantiate.rs`), with
  their contracts and laws (a load gives back what a store wrote, a table
  read gives back what was initialized, imports go through registered
  names).
- `src/debugger`: the debugger (`debugger.rs`), its commands, DWARF entries
  and line tables (`die.rs`, `dwarf.rs`, `transform.rs`, `variables.rs`,
  `format.rs`), and dry runs that tell whether debug information can be read
  (`readable.rs`).
- `src/cli`: the command-line debugger's commands, type tables and formatting
  (`cli/dwarf`).
- `src/server`: the remote protocol's messages and requests, a module's
  exports read with `wasmparser`, and the answers to what the client sends
  while a host call waits.
- `app`: decoding modules into plain values for the library (`wasmparser`), walking the
  DWARF units, entries and line programs with `gimli` (the library picks the
  sections and checks and transforms what is read),
  floating-point instructions, the `linefeed` command loop, and the
  WebSocket server (`hyper`, `tokio-tungstenite`).

Missing: WASI. The command loop provides no host functions, so a module
that calls an imported function stops there with an error; the server asks
its client to run imported functions instead.
