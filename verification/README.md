# runes

Deciphers Bitcoin runestones: the `OP_RETURN` outputs that carry rune
etchings, mints and transfers.

- `src/` is the verified library. `script::decipher` reads a hex-encoded
  output script (`instruction`, `push_bytes`, `opcodes`), collects the pushed
  payload and hands it to `Runestone::decipher`, which reads LEB128 integers
  (`varint`), splits them into tagged fields and edicts (`message`, `fields`,
  `tag`, `flag`) and builds a `Runestone` or a `Cenotaph` (`artifact`).
  `rune_id`, `edict`, `etching`, `terms`, `rune` and `flaw` hold the data
  types; `height`, `epoch` and `sat` the block subsidy schedule.
  Each function's contract is stated over spec functions of the same module,
  and the laws of the library are proof functions beside them.
- `app/` is the WebAssembly entry point: it calls the library and writes the
  artifact as JSON through serde copies of the library's types.
- `tests/` holds the tests.
