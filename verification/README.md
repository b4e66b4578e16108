# stabilizatores

Windows internet optimization with a verified core. The library under `src/`
decides which values and commands a machine is given, when the archive is saved,
what is logged and what is printed, and Verus proves that it decides so. The
program under `app/` carries the decisions out: it reads and writes the registry,
runs `netsh`, stores files and drives the console.

## What is proved

- **Reverting brings the registry back.** `recovery` relates the registry before
  the first tweak, the registry now, and the archive. Every step of every apply
  and every revert keeps that relation, whatever the step answers. Once the
  archive is drained, the registry is the original one.
- **The archive on disk is enough.** A value is replaced only after its entry has
  been saved. The relation holds of the archive file too, after every single
  step, so that the program may end at any time.
- **Self-heal looks first.** A round of self-heal goes by what it reads in that
  round, and applies again exactly what has drifted.
- **Applying reaches its target.** An apply run that reports success has set its
  values, and the status that is read afterwards is aligned.
- **DNS restores are exact.** The `netsh` commands of a restore leave an adapter
  with the servers that were archived, or back on DHCP.
- **Texts are exact.** Parsing of the command line, exit codes, every line that
  is printed and the whole menu screen are specified character by character.

## How it fits together

A tweak is a *run*. `pending` names the next action, such as a registry write or
a `netsh` call; the caller performs it and hands the reply to `resume`. `ops`
says which replies a working Windows gives.

| Module | Purpose |
|---|---|
| `ops`, `recovery`, `revert` | actions and replies, what recoverable means, restoring a group |
| `config` | settings, profiles, the archive and its snapshots |
| `tcp`, `system`, `mtu`, `power`, `dns` | the tweak groups |
| `interfaces`, `registry`, `netsh`, `win`, `wlan`, `restore` | what comes from and goes to Windows |
| `connections`, `traffic`, `probe` | measurements |
| `cli`, `report`, `log` | commands, the diagnostic report, the action log |
| `app`, `screen`, `paint` | the interactive menu |
| `text`, `order`, `utf16` | texts and numbers |

## What is trusted

A few functions of `std` on characters and texts in `text` and `utf16`, and the
`serde_json` values of the report in `report`. Each says in its doc comment what
it claims.

Rates in bytes per second and megabits are floating point, and stay in `app/`.
