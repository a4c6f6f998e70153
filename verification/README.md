# oracle_backend

The decisions of an Oracle Database backend for an MCP gateway, verified with
Verus: what is refused at registration, which statement a call runs and with
which binds, how the rows that come back become JSON, and what the caller is
answered.

One binding is one statement that the operator fixed, served as a tool, a
resource or a prompt. Whatever a caller supplies reaches the database as a bound
value and never as statement text; the library proves that.

## Layout

| Path | What it holds |
|---|---|
| `src/types.rs` | The spec of a binding, and the checks on listings and completions |
| `src/plugin.rs` | Registration: fail-closed checks, and what holds of every binding |
| `src/params.rs` | Binds, and the tool arguments that parameters refer to |
| `src/catalog.rs` | The data-dictionary statements of `list_tables` and `list_columns` |
| `src/call.rs` | A call from request to answer |
| `src/oracle.rs` | The run of a statement, step by step, and cells as JSON |
| `src/envelope.rs` | The result envelope, its schemas, and the classification of errors |
| `src/surface.rs` | Bodies for resources and prompts, pages and completions |
| `src/resources.rs` | Listing resources and completing template variables |
| `src/schema.rs` | What a binding tells of itself |
| `src/audit.rs` | Audit events and metric names |
| `src/watch.rs` | The polling watch strategy |
| `src/json.rs`, `src/codec.rs` | JSON values, and their text by way of `serde_json` |
| `src/numeral.rs` | Decimal numerals, and when two denote the same number |
| `src/sql.rs` | Which of a statement's text is code, and which quoted or a comment |
| `src/ordered.rs`, `src/text.rs` | A map by name, and text |
| `app/` | Sessions, pools, timeouts, CEL, serde and the gateway's callbacks |
| `tests/` | Tests of the library on concrete values |

## What is trusted

`src/codec.rs` calls `serde_json` and `src/oracle.rs` calls `base64`, each behind
small functions whose contracts are believed. Everything else in `src/` is
proved.

The driver, the connection pool and the gateway are called from `app/`. What they
answer comes into the library as plain values, and each function is verified for
every answer that they may give. The guard that tells whether a statement only
reads is the gateway's; the library takes its verdict.

## Numbers

JSON numbers with a fraction or an exponent are kept as text, so no digit is lost
on the way through. A `NUMBER` beyond the 64-bit integers becomes a JSON number
only where that denotes the same number as its text; else it becomes the text.
`serde_json` is built with `preserve_order`, since the first
column of a row matters to completions and watches, and with `float_roundtrip`,
so that what is written reads back.
