# codex_usage

Token-usage accounting for an agent: which skills, apps, tools and other
contributors put text into a prompt and what share of the consumed tokens
falls to each, the conversation tail a standalone web search sees, the
environments a session can run in, the cache of registered agent tasks, and
the layout of the `/usage` card in a terminal.

The library in `src/` is written in Verus: each public function carries a
contract over mathematical models (sequences, maps, integers), and the laws
that relate several functions are public proof functions next to them.

- `text`: trimming, searching and comparing text, the token estimate.
- `models`: conversation items.
- `attribution`: prompt attribution and the shares of a completed response.
- `history`: the web-search conversation tail and its assistant-text budget.
- `environment`: the default environment provider.
- `state`, `protocol`, `usage_processor`: the usage report in the store and
  on the wire, and the answer to a usage read.
- `agent_tasks`: the agent identity and its registered tasks.
- `width`, `usage_view`: terminal widths and the `/usage` card.

`app/` holds what cannot be verified: serialization, the asynchronous
environment provider and request handler, task registration over the
network, and drawing the card with ratatui (its border and colours). The
card's headline, note and notices are word-wrapped in `src/` by `textwrap`.

`tests/` runs the library with the real outside crates linked.
