# kaze

Building blocks of the kaze sidecar, verified with Verus: the
shared-memory ring buffer between sidecar and host, the framing of network
packets, node resolution and packet dispatch, the sink state machine, the
return codes and modes of the channel library, the configuration files
(where they are looked for, and how their values are merged, a later file
overriding an earlier one), the decisions of the `ClapMerge` and
`DocumentedToml` derives (which attributes give which generated code), the
values of a Consul registration, and the decisions of a connection's
reader.

Layout:

- `src/` — the verified library. Each module states its contracts over
  mathematical models (`Seq`, `Map`, spec functions) and proves them; the
  `law_*` proof functions state properties that span several operations
  (FIFO order of the ring buffer, encode/decode round trips, channel names
  being distinct, closed sinks staying closed, ...).
- `tests/` — executable tests of the library.
- `app/` — the command-line program and the I/O around the library: a
  blocking queue over the ring buffer, a `tokio_util` codec, a
  `futures::Sink` adapter, configuration locations taken from the
  environment, reading and parsing the configuration files, the loop that
  runs a connection's reader, the Consul registration built from socket
  addresses, and the parts that work through `dyn Any` or `toml_edit`
  items.
