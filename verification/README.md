# mii_memory

A store of memories for agents. A memory has content, tags, a scope (`global`, `workspace` or
`session`) and, if wanted, a condition on which it expires. Searches rank memories by relevance;
what is retrieved gains, and what is similar to a later memory fades.

`src/` is a Verus library. What each function does is stated in its contract and proved:

- `input`, `model`, `text`: what callers hand in, and its normal form
- `time`, `files`, `expiration`: when a memory is still there
- `record`, `store`, `search`, `ranking`, `score`, `tags`, `alerts`: the store and its operations
- `laws`: what holds of the operations together
- `rows`: how memories are kept in tables, and the versions of the tables
- `json`, `mcp`, `tools`, `commands`, `answers`: the service for agents
- `form`, `explorer`, `browse`: what the explorer reads, answers and shows
- `cli`: what follows from the command line
- `embedding`: the features of a text

Numbers that come of floating-point arithmetic enter the library as the bits of single-precision
numbers, which it compares by their order; the state of the world (time, environment, files) enters
as values. A counter that can go no higher stays as it is.

`app/` is the program around the library: SQLite, files, the network, and the arithmetic of vectors.
`tests/` holds the tests of the library.
