# rsqlite-rsync

Synchronises SQLite databases page by page, keeps one writer among the nodes of a
cluster, and runs SQL on it through a gateway.

`src/` is the library, verified with Verus:

- `protocol` and `hash`: the two-pass exchange of page hashes and pages between an
  origin and a replica, as a state machine for each side, and the framing of their
  messages.
- `ha`: leases, the write fence, promotion, and the controller that turns a lease
  into actions; the files and the Kubernetes objects in which leases are kept.
- `gateway`: what a node answers to SQL calls, the values and rows of results, and
  batches in a transaction.
- `client` and `rpc`: finding the writer, retrying calls and following redirects.
- `cli`: parameters, scripts, the shell and the output of the command line client.
- `batch`, `endpoint`, `run`: runs over many databases, routes between hosts, and
  what the program does with its arguments.

Public proof functions whose names begin with `law_` state what holds of the library
as a whole: a session leaves the replica with exactly the pages of the origin, as long
as pages that differ have different hashes; at most one of two nodes that see one lease
writes; a batch that stops on errors is all or nothing.

`app/` is the program around it: arguments, files, sockets, SQLite and the runtime.
`tests/` runs the library.
