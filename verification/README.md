# mcp-tools

The decisions of three stdio MCP (Model Context Protocol) servers as a verified
Verus library, and a thin program around it.

- `codex-stdio` runs tasks with the `codex` CLI inside a worktree.
- `lsp-cpp` answers questions about C++ code with clangd, under a supervisor and
  behind a bounded queue.
- `lsp-rust` answers questions about Rust code with rust-analyzer.

## Layout

- `src/text.rs`, `src/path.rs`, `src/json.rs`: strings, paths and JSON values,
  with the mathematical values they stand for.
- `src/rpc.rs`, `src/schema.rs`, `src/lsp_messages.rs`: messages that the servers
  share.
- `src/lsp_shim_core/`: `Content-Length` framing, names and codes of the
  protocol, older names of environment variables.
- `src/codex_stdio/`: arguments, the prompt, the event stream, the boundary of
  the worktree, the report.
- `src/lsp_cpp/`: settings, the command line of clangd, starting it, requests and
  timeouts, filling the index, the queue, the supervisor, the server.
- `src/lsp_rust/`: settings, starting rust-analyzer, requests and retries, waiting
  for the index, the server.
- `tests/`: tests on concrete values.
- `app/`: processes, pipes, files, clocks and command lines.

No function of `src/` does input or output: what a process, a file or a clock
said comes in as a plain value, and what is to be done next comes out as one.

## What is trusted

`serde_json` reads and writes JSON, in one place through `serde`; the functions
in `src/json.rs` that call them state what is believed of them. `src/text.rs` believes three functions of the
standard library: `String::from_iter`, the `Debug` text of a string, and
`str::from_utf8`. Each such function says so in its documentation.

Public proof functions whose names begin with `law_` state what holds across
several functions.
