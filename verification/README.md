# sem-reg

A library for Windows that abstracts binary registry values, so they can be handled
semantically, currently those of the Night Light feature, together with the `night-light`
command line program.

The library in `src/` is verified with Verus: the parsers and serializers of the registry
values' binary format (a prologue followed by tagged fields with variable-length integers) carry
contracts that state exactly what they accept and produce, and proof functions state the laws
that hold between them, such as that parsing the bytes an instance writes gives back its current
values, and that lenient parsing accepts whatever strict parsing accepts.

- `src/data_conversion/`: the byte sequence with its integer encodings, tracked values,
  tables, hexadecimal output with diffs, and time conversions.
- `src/cloud_store/`: the prologue of cloud store values and the Night Light state and
  settings values, with `NightLight`, which checks changes before they are written.
- `src/reg.rs`: root key names, the text of `.reg` exports and the WMI query that monitors
  value changes.
- `app/`: the command line program and all registry, WMI and console I/O.
- `tests/`: tests of the library.
