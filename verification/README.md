# cli_chat

A command-line assistant that loads source code, documents and images into a
knowledge base (PostgreSQL with pgvector for embeddings, Neo4j for the graph of
code entities) and answers questions from it.

The decisions of the program live in a library verified with Verus:

- `src/parser` turns tree-sitter query matches into code entities and their
  relationships (`parse_file`, with the fold `collect_entities` proved equal
  to the model `parse_model`, and the shape of its result proved by
  `lemma_parse_well_formed`);
- `src/handler` chunks text, batches it, routes files to their pipeline and
  builds the texts that are embedded;
- `src/services` holds the chat, retrieval (context block, reranking with its
  uniqueness law), code extraction and project build-and-repair decisions;
- `src/db` builds the statements and parameters sent to the two stores;
- `src/cli`, `src/tools`, `src/server` and `src/setup` hold the command line,
  tool dispatch, MCP configuration and browser setup decisions;
- `src/text.rs` and `src/path.rs` model strings and paths as `Seq<char>`;
- `src/json.rs` reads values out of the model servers' JSON replies.

Calls into tree-sitter, base64, serde_json and mime_guess stay in the library
behind small trusted functions whose contracts are stated in their doc
comments.

`app/` is the program around the library: command-line parsing, database and
HTTP access, files, processes and the floating-point similarity scores.
