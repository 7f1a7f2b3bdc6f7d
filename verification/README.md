# cdb

Support for Cloudberry Database: dispatching SQL commands to the segments of a cluster and
making sense of what they answer. The library in `src/` is verified with Verus; `app/` holds the
calls into the server and libpq.

| Module | Content |
| --- | --- |
| `flags` | `DispatchFlags`, the flags of a dispatch, and their algebra |
| `c_string` | text as zero-terminated bytes |
| `error` | `DispatchError` |
| `pg_result` | the result of one segment as plain values |
| `results` | `CdbPgResults`, the results of all segments: iteration, sums, single values |
| `managed` | `ManagedCdbPgResults`, the results of a dispatched command |
| `dispatch` | requests, batches of requests, and the role of a node |
| `text` | decimal numbers and UTF-8 |

Public proof functions whose names begin with `law_` state what holds across functions.

Three functions of the standard library are trusted to do what `text` states of them:
`str::parse::<i64>`, `core::str::from_utf8` and `String::from_utf8_lossy`.
