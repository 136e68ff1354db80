# pixlie_ai

A knowledge-graph engine for web crawling projects, written in Verus. Nodes
carry labelled payloads (links, domains, web pages and their parts, settings,
objectives, classifications, extracted entities); edges connect them in pairs.
The engine decides which nodes to process, what to fetch next and what to ask
a language model or a search service, and folds the answers back into the
graph. Every function of the library carries a contract. Verus proves the
contracts of all functions but the trusted wrappers listed below, whose
contracts are taken on trust from the outside code they call.

## Layout

- `src/engine/`: the graph (`graph.rs`, `ops.rs`, `node.rs`, `labels.rs`,
  `flags.rs`, `chunk.rs`), the choice of nodes to process
  (`processing.rs`), fetch bookkeeping (`fetching.rs`), dispatch of node
  processing and of replies (`dispatch.rs`), the API requests
  (`api.rs`, `requests.rs`, `query_params.rs`, `reports.rs`, `explore.rs`)
  and the laws that span several functions (`laws.rs`).
- `src/entity/`: what each kind of node does when it is processed: links,
  domains, web pages and the scraper that turns HTML into nodes, web search,
  objectives, classification, conclusions, named entities and settings.
- `src/services/`: the requests and prompts sent to outside services.
- `src/web_url.rs`, `src/robots.rs`, `src/entity/web/html.rs` and
  `src/text.rs` hold the trusted wrappers (marked
  `#[verifier::external_body]`) around `url`, `texting_robots`,
  `scraper`/`ego-tree` and two `std` string functions: Verus does not check
  their bodies, and their contracts are trusted.
- The clock is read by the caller: `Engine::set_clock` sets the time that
  writes are stamped with.
- `tests/`: tests of the library on concrete values.
- `app/`: the command line program around the library: it reads keys and
  arguments, performs the HTTP requests and parses JSON replies, and runs the
  processing loop.

## Checking

Verus verifies `src/` (all but the bodies of the trusted wrappers); the tests run against the compiled library with the
real outside crates linked.
