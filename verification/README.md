# wubilex

The verified core of the WubiLex desktop shell and of its developer tasks.

`src/` is a Verus library. Its functions carry contracts that Verus proves,
except a few small trusted wrappers around outside crates (`toml`, `url`,
`regex`, `sha2`, `lzma-rs`) and parts of `std`, whose contracts name what
the outside call returns. It holds:

- `config`: the configuration model, its TOML document form, schema
  migration, the canonical text form, the codec with its size limit, and the
  configuration service. File operations go through an injected
  `ConfigFileOps`; every call is recorded (as ghost state) with its
  arguments and answer, and the contracts of persisting, committing,
  importing, exporting and loading say which calls are made and what
  follows from each answer. Under a file system where every operation does
  what it says, a successful commit leaves the encoded configuration in the
  live file. `native` holds what the native operations decide alone: which
  files are owned backups, the order in which recovery tries them, and the
  read limit.
- `window`: monitor selection and work-area placement of saved bounds, the
  window lifecycle state machine, and the coalescing of placement writes.
- `launch`, `runtime`, `events`, `features`, `error`: launch-argument
  parsing, the runtime snapshot and its notices, event payloads and the
  application error type.
- `logging`, `recovery`, `ui_bootstrap`: log retention by calendar day,
  session markers, and the script that applies the saved UI settings before
  the first paint.
- `xtask`: the rules of the developer tasks: the fixture manifest, the
  download checks and LZMA decoding, the requirement-document check, binding
  freshness and the workflow contract.

`tests/` exercises the library with concrete values. `app/` is the task
runner program and the shell's file and log I/O around the library. No
production `ConfigFileOps` is part of this crate: the native one relies on
the shell's own Windows file-system crate.
