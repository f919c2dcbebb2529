# quality_gate

Quality checks for coding agents. Hooks from an agent harness (three
harness protocols are supported) hand it lifecycle events; it answers with context, a denial or a
block, after reviewing the working tree: the repository's configured
commands, secret scanning, lint tools, lexical reviews of the touched files,
diff associations between sources and tests, and the verification claims of
the agent's last message.

## Layout

- `src/` is the library, verified with Verus: every decision it makes
  is a function with a contract over a mathematical model (`Seq`, `Set`,
  `Map`, spec functions), and the properties that span functions are proof
  functions named `law_*`. Calls into `serde_json` and `shlex` stand behind
  small trusted wrappers whose contracts say what those crates document.
- `app/` is the process side: reading files, stdin and the clock, walking
  the repository, running git, tools and the configured commands. It hands
  the library plain values and carries out what the library decides.
- `tests/` exercises the library from outside.
