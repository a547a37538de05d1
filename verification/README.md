# ai_agent_pc

A desktop assistant for the documents on a PC: it scans directories, extracts
the text of plain-text and RTF files, indexes it for full-text search, and
lets an LLM answer questions about the library, directly, with retrieved
context, or as an agent that calls tools (search, read a file, list files,
transform a document, calculate).

- `src/` is the library, verified with Verus: text extraction and RTF
  stripping, the scanner's and the indexer's decisions, the SSE stream
  decoder, the agent's state machine, the tool-call parser and the tools'
  reports, the arithmetic parser, provider fallback, chat history handling,
  search-result filtering, and the messages and SQL the application builds.
  Calls into serde_json, blake3, chrono and std's path and string functions
  stand behind small trusted wrappers whose contracts are documented where
  they are declared.
- `app/` is the application around it: SQLite storage, the tantivy index,
  HTTP requests to the LLM provider, directory walking, background scans,
  and the commands the user interface invokes.
- `tests/` exercises the library on concrete values.
