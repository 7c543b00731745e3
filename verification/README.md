# vouch

Closed-loop review of git diffs. The diff is split into raw hunks, an agent program
groups them into semantic hunks and rates each one, the terminal interface collects
accept/reject decisions, and the rejected items go back to the author of the change
(a pull-request comment, a `cmux` surface, the clipboard, or standard output).

## Layout

- `src/` — the verified library (Verus): the unified-diff parser, the grouping of
  hunks, the review queue and its key and mouse handling, the feedback texts, the
  command lines of `git`, `gh`, `cmux` and the agent program, and the steps of
  fetching a diff.
- `app/` — the `vouch` program around it: argument parsing, subprocesses, the cache
  files, JSON, and drawing the interface.
- `tests/` — tests of the library.

The analyze stage calls the agent with the answer schema (`--json-schema`) and reads
`structured_output.items` from its reply; the semantic stage reads the reply text.

## Environment

| Variable | Meaning |
|---|---|
| `VOUCH_AGENT_BIN` | the agent program to run (required unless every answer is cached); its file name labels the agent's error messages |
| `VOUCH_MODEL` | the model to ask for; when unset, the agent program's own default |
| `VOUCH_CACHE_DIR` | cache directory (default `~/.cache/vouch/responses`) |
| `VOUCH_CACHE_ONLY` | `1`: fail on a cache miss instead of asking the agent |
| `VOUCH_SOURCE_SURFACE` | `cmux` surface of the source agent, when `--source-surface` is not given |
