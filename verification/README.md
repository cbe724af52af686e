# rustbot

A Discord bot for programming communities, split in two:

- `src/` is the verified library. It builds every reply of the bot's commands
  as plain values, reads the flags of `run`, chooses the reply to the code
  execution service's answer, reads Sphinx `objects.inv` inventories into
  documentation links, resolves documentation aliases, and renders the
  package embeds of `crates`, `npm` and `pypi`. Contracts state the results
  over `Seq<char>` views; `src/laws.rs` proves properties that span
  functions.
- `app/` is the bot around it: the Discord framework, HTTP requests,
  configuration and environment, the fuzzy search of documentation keys, and
  the Luau scripting command.
