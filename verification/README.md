# wpbs

A host for WebAssembly plugins of a Discord bot, with its core logic verified
by Verus.

- `src/` is the verified library: plugin permissions and their expansion,
  plugin strings and references, registry listings and version selection,
  the job scheduler's job table, Discord event routing and application
  command planning, gateway intents, secrets, and the shutdown protocol.
  Calls into `semver`, `uuid`, `cron`, `url`, `hashbrown`, `twilight-model`
  and std's `str::to_uppercase` go through small trusted wrappers whose
  contracts are documented where they stand.
- `tests/` runs the library on concrete values.
- `app/` is the program around it: command line, configuration file,
  database, registry downloads, the Discord gateway and HTTP client, the job
  scheduler's timers and the shutdown sequence.
