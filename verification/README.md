# mathcore

A local mathematical computation engine built as a micro-kernel with
plugins, a message bus, a streaming protocol and computation engines. The
library under `src/` is written in Verus: each public function carries a
contract that the verifier proves.

## Layout

- `src/kernel/` — the kernel: plugin registry with resource quotas and its
  lifecycle, the message bus, the sandbox, the MessagePack protocol's message
  types and version negotiation, streaming back-pressure, and the staged
  expression validators (parser, domain, special values, types).
- `src/compute/` — input validation, the expression lexer, the symbolic
  engine's parser from text to expression trees, the bounded caches with
  expiry and least-used eviction, computation traces and their replay, and
  the engines' errors.
- `src/render/` — the binary frame codec of the streaming protocol (graphics
  frames, proof steps, progress reports) with its round-trip laws, the byte
  ring buffer, stream buffers and back-pressure, matrices and windows.
- `src/bridge/`, `src/mcp/`, `src/cli.rs` — data-plane statistics, the MCP
  tools and request routing, and the command line's argument splitting.
- `src/text.rs`, `src/wire.rs`, `src/strmap.rs`, `src/pattern.rs`,
  `src/clock.rs` — shared helpers: characters and strings, little-endian
  fields, a string-keyed map, regular expressions and clocks.
- `app/` — the command-line program and what runs around the library: the
  floating-point rules of the symbolic engine (simplification,
  differentiation, evaluation) and the numeric engine, the asynchronous kernel loop,
  channels shared between tasks, and MessagePack encoding.
- `tests/` — tests of the library from outside.
