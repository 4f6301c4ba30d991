# agc — AI Git Commit assistant

`agc` analyses the changes of a git repository, asks an OpenAI-compatible model
for Conventional Commits messages (`Feat(Scope): 描述`), shows them for
confirmation and commits them, optionally pushing afterwards.

The decision logic is a library verified with Verus (`src/`); the program
around it (`app/`) parses the command line, reads and writes files, runs `git`,
`rg`, `fd` and `fzf`, talks HTTP and drives the terminal.

## Layout

- `src/pipeline/` — the commit pipeline `DiffCollector → ContextEnricher →
  AiGenerator → EntryParser → CommitExecutor → [GitPusher]`, its builder and
  the context the stages share; `run` is proved to execute the stages in order
  and to stop at the first failure with that stage's error. The calls that
  change the repository (staging, commits, push) are recorded in the context's
  git log with git's answers, together with the confirmation answers read, and
  the stages' contracts say which calls follow from those answers.
- `src/workflow.rs`, `src/legacy.rs` — the same flow as single functions,
  recording what they collect and the git calls they make in a context.
- `src/commit/` — entries, message formatting, `git commit` arguments, the
  commit plan (capitalisation, numbering) and confirmation.
- `src/config/` — configuration chains (first source wins for types/scopes;
  field-by-field layering for the AI connection), the sources, platform
  directories and `config init`.
- `src/ai/` — requests, prompts, the provider registry and the OpenAI protocol
  (request messages and answer reading).
- `src/git/` — the backend interface, untracked-file summary, directory
  listing order, `git init` decisions and the scope-file update.
- `src/search/` — ripgrep/fd arguments and context assembly.
- `src/history.rs` — the directory history (LRU, case-insensitive filter,
  numbered choice, file round trip).
- `src/text.rs`, `src/ui/` — text utilities and terminal colours; `Host` is
  what the library asks of the program that runs it.
- `tests/` — unit tests of the library; `app/` — the `agc` executable.
