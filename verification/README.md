# secretd

A local vault for secrets whose rules are proved with Verus: what is kept, who may
have it, for how long, and what is shown about it. Processes ask for a secret or for
AWS credentials, a person decides, and the decision holds for a process and its
children for a limited time.

## Layout

- `src/` is the library; its functions carry contracts.
  - `text`, `seqs`, `numeral`: text, sequences and numbers, stated over `Seq`.
  - `clock`, `crypto`: the time, fresh identifiers, key derivation, authenticated
    encryption and Base64. The calls into other crates stand here and in `aws_flow`
    (the time as text). `text` and `paths` call the standard library where nothing
    is proved of it (lossy text, appending a character, the parent of a path).
  - `vault`: the encrypted file and what it holds. `vault_laws`: what a read gives
    back of a write.
  - `process`, `grants`: who asks, and temporary grants.
  - `aws`, `aws_flow`, `aws_discovery`: AWS settings, and the conversations with the
    identity provider as state machines.
  - `controller`, `controller_aws`: requests, decisions, denials and the record.
    `controller_laws`: what they guarantee together.
  - `ipc`: what the command line and the desktop process say to each other.
  - `view`: the windows and the tray as data: what is shown, and what a click does.
  - `paths`, `icon`, `cli`, `runtime`: paths, the icon, arguments and windows.
- `tests/` runs the library with the real crates.
- `app/` is the program around it: files, sockets, processes, the AWS SDK, and the
  painting of the windows.

## What is proved

Each operation that draws on the clock or on fresh identifiers has a twin that takes
them as arguments and says exactly what happens. Laws that span several operations
are public proof functions, for instance:

- a saved vault unlocks to what it held (`vault_laws`);
- secrets are released only under a grant, and credentials only under a decision
  (`controller_laws`);
- a grant never has more than an hour left, and a denial blocks its whole lineage until it
  expires or is lifted (`grants`, `controller_laws`).

What AES-GCM, PBKDF2, Base64 and the clock do is not proved; the doc comments in
`crypto` and `clock` say what is believed of them.
