# delorean

`delorean` fetches transaction fixtures (the accounts, sysvars, programs and
recorded outcome of a mainnet transaction) from penrose-server and replays
them in a local SVM, reporting whether status, compute units, return data and
post-execution account state match what the network recorded. A deployed
program can be swapped for a local ELF before the replay.

Layout:

- `src/` is the library, written in Verus and verified: the fixture and
  batch data model and blob resolution (`blob`, `batch`, `fixture`), the
  replay bank (`accounts`, `bank`), rent (`rent`), program replacement
  (`loader`, `replace`), the precompile table (`precompiles`), feature sets
  (`features`), instruction decompilation and the instructions sysvar
  (`message`, `synthetic`), post-state comparison (`post_state`,
  `mismatch`, `hex`), and command-line and block handling (`args`, `block`,
  `text`). Calls into the Solana crates go through small trusted wrappers
  whose contracts state what those crates do.
- `tests/` exercises the library on concrete values.
- `app/` is the command itself: RPC, file reading, the wire decoding of
  fixtures, the SVM run, and printing.
