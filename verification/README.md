# omrya

A verified RDF toolkit: statement codecs and table layouts for a triple store, query
planning for precomputed joins (PCJ), the OWL schema reasoner, repository code graphs and
static analysis leads, each stated over mathematical models and proved with Verus.

Layout:

- `src/` — the library; every function carries its contract and is verified. Laws that
  relate several functions (round trips, read-backs, idempotence) stand as public proof
  functions, mostly in the `laws` modules.
- `tests/` — ordinary Rust tests that run the compiled library on concrete values.
- `app/` — the command line front end: it reads repositories from disk, asks `git`, reads
  the clock, and prints what the library computes.

The few calls into the standard library and `tree-sitter` that Verus does not specify are
wrapped in small trusted functions whose doc comments say what is assumed of them.
