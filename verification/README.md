# chronikl

A release-notes generator for git repositories. It classifies the commits
of a range into sections with a ladder of passes: deterministic rules
first, then batched, per-commit and agentic model passes for what stays
uncertain. A prose pass then writes the notes in a chosen voice.

## Layout

- `src/` is the library, verified with Verus. It holds the commit and tag
  parsers, the classification ladder's decisions, the prompt builders, the
  cache and configuration logic, the agent loop's state machine, the audit
  record, the self-update checks and the renderers. Each public function
  states its result in its `ensures`. The laws that span functions are
  public proof functions, for example `lemma_repo_over_global`,
  `lemma_footer_idempotent`, `lemma_github_remote_round_trip` and
  `lemma_sink_keeps_calls_after_enable`.
- `tests/` runs the library on concrete values.
- `app/` is the command-line program. It handles git, files, the network
  and model clients, and asks the library at each step what to do.

Calls into other crates (hashing, TOML and JSON reading, regular
expressions, globs, archives, version parsing) go through small trusted
wrappers. Each wrapper's doc comment says what its contract claims.
