# OxideLink

A Nintendo Switch Pro Controller on the PC: keyboard and mouse output, motion
aiming, flick stick, a motion server for emulators, and profiles.

- `src/` is the library. It parses the reports of the controller, shapes and maps
  input, builds and answers packets of the motion server, and decides what is
  sent, saved and told. Every function has a contract, and Verus proves it. What
  holds across several functions stands at the end of each module as a `law_`
  function.
- `app/` is the program around it: devices, sockets, files, the command line,
  and arithmetic on floating-point numbers.
- `tests/` runs the library on concrete values.

What the library takes from other crates and from the standard library without
proof is declared in a few functions marked `external_body` and two
`assume_specification` items, each with a note on what it claims: the CRC-32 of
`crc32fast`, JSON from `serde_json`, addresses from `sentry`, expressions from
`regex`, directories from `dirs-next`, the clock, and letter case.

Floating-point numbers are held by the library as their bits. It compares,
negates and limits them; sums, products and angles are computed in `app/` and
handed in.
