# mcp-wrapper-rs

A supervisor proxy for Model Context Protocol servers. It stands between a client and
a server that speaks JSON-RPC over lines of text, answers discovery requests from a
cache, starts the server only when it is needed, and gives the client control over
the server's life without dropping the connection. In daemon mode one broker shares a
server among many clients.

## Layout

- `src/` is the library, verified with Verus: the decisions of the proxy, each with its
  contract. Laws that relate several functions are public proof functions whose names
  begin with `law_`.
- `app/` is the program around it: processes, sockets, streams, signals, the clock and
  the log file.
- `tests/` runs the library. `tests/integration.rs` and `tests/broker_manager.rs` play
  whole exchanges against a server made of a function.

| module | what it decides |
|--------|-----------------|
| `json`, `transport` | values, messages, and the lines that carry them |
| `mcp_interface`, `router`, `event_plane` | where a method goes, and the table behind it |
| `mcp_manager`, `cache` | the handshake, reading lists page by page, the cache and its refreshes |
| `backend_manager` | who waits for which answer, late answers, starting and restarting the server |
| `lifetime` | requests under way, their ids at the server, sessions, progress and cancellation |
| `tools` | the proxy's own tool, `mcp.wrapper` |
| `runtime_manager`, `broker_manager` | what becomes of each message, for one client and for many |
| `daemon_manager`, `admin_cli`, `cli`, `logging`, `timeouts` | brokers and their files, commands, names and limits |
| `table`, `text`, `fingerprint` | what the rest is built from |

## What is taken on trust

JSON texts are read and written by `serde_json`; the library names the results and
states only what its callers need of them, among it that a written message is read
back as itself. A few functions of the standard library are trusted in the same way.
Each such function has a comment that says what is claimed of it.
