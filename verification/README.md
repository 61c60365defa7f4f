# tgrep

Trigram-indexed grep with a client and a server, as a verified library.

The library holds what is decided and computed between reading and writing: what
the command line asks for, where a search is answered from and which files it
reads, what a server is asked and what its reply means, what is printed of what
was found, the tools of a session and their answers, snapshots of a tree and
their differences, and the metadata and evidence that an index keeps of its
files. Every function states in its contract what it returns, and Verus proves
that it does.

The library does no input or output. It takes what was read as plain values (the
bytes of a file, the lines of a reply, the clock, whether a path is a file) and
hands back what is to be written. The program in `app/` does the reading and
writing, and turns the JSON files of an index directory into plain records and
back. Walking a tree by its ignore rules, compiling and matching patterns, the
table of file types, and building and serving an index are not part of either.

## Layout

| Modules | What they hold |
|---------|----------------|
| `cli`, `args`, `targets` | The command line, its values, its paths and the exit code |
| `options`, `sort`, `order`, `paths` | Options of a search, orders of results, scopes of an index |
| `local_search`, `selection`, `listing`, `file_search`, `scan`, `fixups` | Searches and listings that no server answers |
| `server_search`, `server_reply`, `rows`, `row_output`, `server_stats`, `line_sets` | Searches that a server answers |
| `output`, `sinks`, `slices`, `clock` | What is printed |
| `status`, `fields` | What a server says of itself |
| `mcp`, `mcp_tools`, `tool`, `state`, `query`, `answers`, `events`, `ranking` | A session: messages, tools, answers |
| `snapshot*` | Snapshots: recording, storing, listing, comparing |
| `meta`, `index_meta`, `evidence`, `evidence_file`, `filestamps` | What an index records |
| `json`, `text`, `bytes`, `path_map`, `lists` | Values |

Functions named `law_..` are proofs of what holds of the library as a whole.

JSON is parsed and printed by `serde_json`, content is hashed by `blake3`, and
bytes are found by `memchr`. What is claimed of them stands at the functions that
call them.
