# rktop

A terminal dashboard for a small fleet of Linux servers: live CPU, RAM,
network and disk cards collected locally or over read-only, non-interactive
SSH, plus a full-screen manager for the server list.

## Layout

- `src/` is the library, written in Verus and verified. It holds what the
  program decides and computes: the command line, the configuration model and
  its canonical TOML writer, the config manager (keys, edits, health checks,
  reordering, the add-server wizard), the SSH config reader, the collector
  report parser and the SSH argument lists, disk-row cleanup and ordering,
  card layout, history graphs and every text the screens show. Contracts are
  stated over spec functions and views; the laws that relate several
  functions are public proof functions next to the code they speak of.
- `app/` is the program around it: argument and file I/O, running `sh` and
  `ssh`, threads, the terminal (ratatui and crossterm), TOML parsing through
  serde, timestamps, and the parts that work with floating-point readings.
- `tests/` runs the library on concrete values.

## Checking

The library is verified by running Verus on `src/lib.rs`; the tests run with
`cargo test`.
