# Capsule

Capsule is a zero-setup runtime for Python, Node.js and TypeScript scripts:
it detects the language of a file or project, scans its direct imports,
installs them into a cached environment under `~/.capsule/`, records exact
versions in `capsule.lock`, and runs the code.

## Layout

- `src/` is the library, verified with Verus. It holds the decisions:
  language detection, import scanning, the import-to-package tables, package
  name trust checks, the cache layout, the project hash, lockfile contents
  and staleness, install targets that respect pinned versions, the choice of
  exact versions from the raw output of `npm list --json` and `pip freeze`,
  the scripts and entry that `package.json` names, what a run installs and
  whether it writes a new lock, and what to do after a failed run (install
  the missing package and retry once, or fail).
  Laws that span functions are public proof functions next to the functions
  they speak of.
- `app/` is the command-line program around it: argument parsing, the file
  system, reading and writing `capsule.lock`, and the `python`, `pip`, `uv`, `node`
  and `npm` processes. It hands the library plain values and acts on what
  the library decides.
- `tests/` runs the library on concrete inputs.
