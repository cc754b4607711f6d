# clipsync

Clipboard synchronisation between paired devices, with its logic verified by
[Verus](https://github.com/verus-lang/verus).

- `src/` is the library. It decides and computes: messages, pairing, connections, the
  relay's routing, the rules that keep a change from echoing back, chunked transfers,
  end-to-end encryption, settings. Its public functions carry contracts, and
  the properties that span functions are proved as `law_*` proof functions.
- `app/` is the program around it: sockets, files, subprocesses, JSON and TOML, mDNS,
  the tray icon. It hands the library plain values and carries out the actions that
  come back.
- `tests/` runs the library on concrete values.

Where the library asks an outside crate (SHA-256, AES-GCM, hexadecimal, base64, UUIDs,
random numbers, URLs, dates, certificates), the call stands behind a small function whose contract
says what is relied on. Its doc comment names the outside function.

## Modules

| Module | What it holds |
|---|---|
| `protocol`, `error` | messages, devices, errors |
| `pairing`, `peer`, `state`, `transport`, `server` | a connection from its first message to its last, trust, peers, admission |
| `clipboard`, `dispatch` | reading, writing and watching the clipboard; content to messages and back |
| `auth`, `relay`, `relay_crypto` | sessions, groups and replay; routing; sealed payloads |
| `transfer` | files in chunks |
| `outbound`, `client`, `discovery` | connections that are opened, and how servers are found |
| `config`, `daemon`, `tray`, `tls`, `persistence` | settings, start-up, what is shown, identity, file replacement |
| `text`, `table`, `sort`, `encoding`, `hashing`, `entropy`, `clock` | what the rest stands on |
