# Parallaxis

A factual verification layer for LLM output: text is decomposed into
claims (subject, predicate, object), each claim is checked against a
curated knowledge graph (the vault), and the verdicts are turned into
tagged output — confirmed, contradicted, imprecise, divergent or
unverifiable, each with its source.

## Layout

- `src/` — the library, verified with Verus:
  - `types`, `claim`, `verification`, `error`: the data model;
  - `graph`, `text_index`, `vault`: the knowledge graph, its indexes and
    the structured query;
  - `fact_check`: the verifier (direct lookup, inference over at most a
    configured number of hops, comparison of values, scoring);
  - `tagger`, `protocol`: tagged output and the answers of the API;
  - `extractor`: the rule-based extractor, the prompt for a language model
    and the reading of its reply, the self-check;
  - `normalizer`: which unit conversion applies;
  - `import`, `lookups`, `states`, `geography`: building the geography vault
    from rows of a knowledge base;
  - `demo`: the built-in demonstration vault;
  - `text`: text operations stated over sequences of characters.
- `app/` — the command-line program and HTTP server around the library:
  files, network, floating-point arithmetic, serialization.
- `tests/` — tests of the library.

Floating-point numbers are carried through the library as their bit
patterns (`FloatBits`); comparing and converting them happens in `app/`.
