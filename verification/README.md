# swaggy

Builds OpenAPI (Swagger) documentation for the contracts of a CosmWasm
workspace from the JSON schemas that `cosmwasm-schema` writes, and serves a
built document with the Swagger UI.

- `src/` is the verified library: the JSON model the schemas are read into
  (`json`), the extraction of message variants and the making of the
  document (`idl_processor`, with its specification in `idl_processor/spec.rs`
  and its proved properties in `idl_processor/laws.rs`), the document model
  (`api_doc`), file-name rules of the loader (`idl_loader/file_names.rs`), the steps of
  the upward search for the `schema` directory (`idl_loader/search.rs`),
  the steps of the `build` command (`cli`) and the decisions of the `serve`
  command (`commands/serve.rs`).
- `app/` is the program around it: argument parsing, the file system, JSON
  parsing and printing, and the HTTP server. The `serve` command reads the
  Swagger UI files from the `swagger` directory of the working directory.
