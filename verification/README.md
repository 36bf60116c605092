# navop_core

The verified core of Navop's terminal, SSH and middleware tooling, written
in Verus.

- `src/` holds the logic with its contracts and laws: SSH host-key trust
  decisions and the stores they read, the shell-integration handshake of
  SSH terminals, line timestamps of the terminal, where a local terminal's
  workspace lives, retirement of native remote-desktop adapters, the
  RocketMQ connection form, runtime parameters, connection tree and tab,
  the middleware pages' lists, forms and queries, the resource workbench
  (routes, query inputs, page and query state, the lazily loaded navigation
  tree, JSON values and pointers), message events, and the Redis tool.
- `app/` holds what touches the outside world around it: the trust-store
  files and OpenSSH `known_hosts`, conversion of `serde_json` values, and a
  line timeline shared between threads.
- `tests/` exercises the library through its public API.
