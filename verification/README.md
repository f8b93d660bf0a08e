# Mind Palace

A wiki-style, hierarchical knowledge base for LLM agents, with its domain
core proved correct in Verus.

## Layout

- `src/` — the verified library.
  - `value_objects`, `page`, `group`, `tenant`: pages, slugs, access models,
    groups and who may see, edit or manage a page.
  - `graph`: the knowledge graph over petgraph, with inherited access along
    the containment hierarchy, cycle checks and breadth-first traversal.
  - `lint`, `rules`, `service`: page linting, the pure rules of each
    operation, and the service that runs them over its storage ports.
  - `markdown`, `records`, `vectors`: the stored page document, the keys and
    fields of stored records, and the search index's filters and hits.
  - `auth`, `secrets`, `config`: authentication settings and token checks,
    secret-reference validation, and configuration from the environment.
  - `mcp`, `tools`, `web`, `dream`: how tool parameters, agent-tool
    arguments and HTTP requests become service inputs, and the decisions of
    the dreaming job.
- `tests/` — tests of the library, run against the real outside crates.
- `app/` — the code around the library: the axum HTTP API, token
  validation with a cached key set, JSON forms of the domain types, the
  tool handlers and the SSO cache fix.

## Not included

The adapters that bind the ports to AWS (S3 page store, DynamoDB graph,
group and changelog stores, S3 Vectors search, Bedrock embeddings, Secrets
Manager), the agent-framework tools and the MCP transport are not part of
this crate. The library's logic for them (keys, records, filters, request
and response shaping) is in `src/`; `app/` is generic over the storage
backend, and its tool handlers return JSON for whichever transport serves
them.
