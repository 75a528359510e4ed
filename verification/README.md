# DevKit

DevKit sets up developer SDKs and tools (Flutter, JDK, Node.js, Go, Rust,
PostgreSQL, …) in one machine `dev` folder and puts them on the user PATH.
Each tool is a plugin; `devkit install <id>`, `devkit uninstall <id>`,
`devkit status <id>`, `devkit list`, `devkit doctor` and an interactive menu
drive them.

## Layout

- `src/` — the library, verified with Verus: platform and path rules,
  release-metadata resolvers for every plugin, archive and download
  decisions, the PATH/profile editing of the environment manager with its
  laws (`env_laws.rs`), the plugin registry, and the CLI's decisions and
  report lines.
- `app/` — the program around it: argument parsing, the network, archive
  extraction, the file system, the Windows registry and the terminal.
- `tests/` — tests of the library on concrete values.
