# persea_desktop

The decisions of a desktop shell for remote access servers, as a library
verified with Verus: which servers are configured and which one is opened, what
a probe of a server tells, how a device is paired with a server, and which files
are sent and fetched under which names.

The library performs no I/O. It takes what was read, received or answered as
plain values and says what follows. The contracts of its functions are proved,
but for those of the functions in `src/web.rs` that call into other crates or
the standard library, and that of `String::push` in `src/text.rs`.

## Layout

| Path | What it holds |
|------|---------------|
| `src/instances.rs` | the list of servers and the startup behavior |
| `src/provisioning.rs` | the merge of a provision document into the list |
| `src/probe.rs` | versions, warnings, the replies to a probe |
| `src/address.rs` | which addresses are accepted, keys of data stores |
| `src/commands.rs` | what the settings page asks of the list |
| `src/pairing.rs` | the states of a pairing and its poll loop |
| `src/tokens.rs` | the registry of tokens, names of keychain entries |
| `src/pairing_commands.rs` | device name, starting, listing, revoking |
| `src/drive.rs` | addresses, requests and replies of a session's drive |
| `src/plan.rs` | which files are sent under which names |
| `src/drops.rs` | dropped files and conflict prompts |
| `src/transfer.rs` | the list of transfers and how it is shown |
| `src/uploads.rs` | uploads and downloads, step by step |
| `src/downloads.rs` | records of downloads, plain file names |
| `src/allowlist.rs` | the servers that a build lets in |
| `src/http.rs` | replies to requests, headers |
| `src/text.rs`, `src/textmap.rs`, `src/seqs.rs` | texts, maps keyed by text, sequences |
| `src/web.rs` | what is taken from other crates and from the clock |
| `src/*_laws.rs` | what holds across several functions, proved |
| `tests/` | the library on concrete values |
| `app/` | the shell around it: files, network, keychain, windows |
