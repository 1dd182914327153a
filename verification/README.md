# pyoxidizer

The decisions of a Python application packager, with contracts that Verus
proves.

- `src/debian/` reads Debian binary package control files: the fields of a
  paragraph, package versions and lists of dependencies.
- `src/windows/` locates `vswhere.exe` and the DLLs of the newest installed
  Visual C++ Redistributable.
- `src/pyembed/` drives an embedded Python interpreter. An operation such as
  `init` or `run_module_as_main` is a script of calls, each with what happens
  where it fails (`operations.rs`); a `Procedure` walks through a script
  (`procedure.rs`); the interpreter keeps track of its life cycle
  (`interpreter.rs`). What holds of all of it together stands in `laws.rs`.
- `src/text.rs` holds what the others need of strings.

The library performs no I/O and calls into no Python runtime. `app/` does: it
asks the library what to do, does it, and reports the outcome.

Functions marked `external_body` are the boundary to other crates and to std:
`semver` parses and orders versions, `uuid` draws a random name, and std decodes
UTF-8, parses integers and writes strings in their `Debug` form. Their contracts
are believed; their doc comments say what is believed.
