# ldk_sample

A lightning node with a command line, on top of LDK and bitcoind. Its logic is a verified library.

- `src/` is the library, proved with Verus: the commands and what they show, the payments and the
  files they are kept in, the events of the node, the funding of channels, the answers of bitcoind
  and the fees, the configuration, the start of the node, the probes, the search for peers through
  DNS seeds, the snapshots of the network graph, and the outputs of older layouts. What it takes
  from other crates stands in a few functions that are marked as not proved and say what they claim.
- `app/` is the program around it: files, sockets, timers, and the calls into LDK.
- `tests/` holds the tests of the library.

The node is started with the directory that it keeps its data in. `<directory>/.ldk/config.toml` is
its configuration.
