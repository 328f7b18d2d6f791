# lg_ultragear

A library for the LG UltraGear auto-dimming fix: the decisions and text
formats of a Windows tool that keeps a colour profile applied to LG UltraGear
monitors and drives them over DDC/CI. The library is written in Verus: its
functions carry contracts that Verus proves, except for seven small trusted
wrappers around calls into std and the `regex` crate (`String::push`,
`str::to_uppercase`, `char::from_u32`, `String::from_utf8_lossy`,
`std::str::from_utf8`, and building and running a case-insensitive regex),
whose contracts state what those functions' documentation says and are
taken on trust.

Layout:

- `src/` — the verified library: text and number parsing, the state files
  (guardrails, diagnostics log, latency metrics, snapshots) and their paths,
  monitor matching (substring or regex), DDC/CI decisions and guardrails,
  the toast payload, and the terminal menu as a state machine with the text
  of its screens.
- `tests/` — tests that run the library.
- `app/` — the program around it: command-line parsing, file I/O, WMI,
  the Windows display and DDC/CI calls, toasts, and the terminal loop. It
  asks the library what to do and carries it out.

This build has no colour-profile (ICC) generation, profile installation or
Windows service: those need the project's profile and service components,
which are not part of it. The menu entries for them say so, and the command
line does not offer them.
Paths are modelled for every `ProgramData` root except verbatim ones
(`\\?\…`); for those, the program joins paths with std.
