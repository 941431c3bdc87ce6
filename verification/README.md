# Lightrail

Lightrail puts preview environments of Compose projects on remote machines, Kubernetes
clusters or Fly.io through plugins that speak a line-based JSON-RPC protocol.

- `src/` is the verified library. Configuration and naming: `config`, `validation`,
  `validity`, `identity`, `naming`, `path`, `git`, `workspace`, `project`, `profile`. The plugin
  protocol: `version`, `protocol`, `models`, `rpc`, `wire`, `value`,
  `canonical`, `client`, `server`. Setting a
  project up: `compose`, `dialogue`, `provider`, `settings`, `init`. Running operations:
  `context`, `prepared`, `lifecycle`, `sequence`, `lock`, `up`, `rollback`, `down`, `prune`, `progress`,
  `journal`. Plugins and secrets: `plugin_registry`, `plugin_host`, `fleet`, `secrets`, `admin`.
  What the user sees: `cli`, `view`, `output`, `doctor`, `error`. What the library takes from
  other crates on trust stands in `outside`.
- `app/` is the command line program around it: arguments, files, processes, terminals and
  network connections.
- `tests/` runs the library on concrete values.

Operations that alternate between deciding and acting (`up`, `down`, `prune`, discovery of the
checkout, the doctor) are state machines in the library. The program performs the step that
they name and hands back what came of it.
