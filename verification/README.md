# coldpad

One-time-pad encryption from the command line: random keys as long as the
message, XOR, optional SHA-256 integrity files, and keys that can be sealed
under a password (Argon2id and AES-256-GCM).

The library in `src/` is verified with Verus; `app/` is the program around it.

## Layout

- `src/otp.rs`: key generation and the XOR pad, with the laws that decryption
  undoes encryption and that distinct keys give distinct ciphertexts.
- `src/wrap.rs`: the wrapped-key file format, its reader and writer, and the
  sealing and opening of keys.
- `src/hash.rs`, `src/hexcode.rs`, `src/encoding.rs`: integrity texts, hex and
  Base64 file encodings.
- `src/key.rs`, `src/commands.rs`: what the commands compute: key files, the
  files an encryption writes and what a decryption reads back.
- `src/secure.rs`, `src/prompt.rs`, `src/plan.rs`, `src/output.rs`: the
  decisions and screens of the guided and scripted workflows.
- `src/commit.rs`: the steps of writing a set of files as one transaction,
  and the rollback after a failed step.
- `src/text.rs`, `src/terminal.rs`, `src/ansi.rs`, `src/cli.rs`: string
  helpers, colour, and command-line forms.
- `app/`: argument parsing, terminal and file I/O, and the workflow loops.
- `tests/`: tests of the library.
