# fastermail

A FastMail client library and its command line (`fm`), with an MCP tool server for AI
assistants. The library is written in Verus: every function states in its contract what
it returns, and Verus proves it.

## Layout

- `src/` — the verified library.
  - `json.rs` — the JSON document model (`JsonValue`, objects with sorted keys) and JSON
    Pointer reads; `json_text.rs` — reading JSON text and writing indented JSON text,
    through `serde_json`.
  - `jmap/` — JMAP requests and responses, the client, and the typed calls for emails,
    mailboxes, identities, masked emails and vacation responses. HTTP is a transport the
    caller supplies (`HttpTransport`), used through `Exchange`, which keeps a ghost record
    of every exchange so that contracts state what each call sends and what is done with
    its reply.
  - `actions/` — the MCP tools: argument validation, the JMAP calls each makes, and the
    shape of its reply; `present.rs` — the views the CLI and MCP emit.
  - `mcp/` — JSON-RPC and MCP messages, tool dispatch, and which answer each request gets.
  - `cli/` — what the command line decides and shows: mailbox resolution, tables, output
    modes, token masking.
  - `config.rs`, `dotenv.rs`, `logging.rs`, `recorder.rs` — token precedence, config file
    paths and contents, dotenv parsing, log levels, and record files.
- `app/` — the `fm` binary: argument parsing, the `ureq` transport, terminal output,
  prompts, files and the environment, and the MCP stdio loop.
- `tests/` — tests of the library against an in-memory JMAP server.
