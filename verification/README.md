# lemonkee

The native shell of a password manager whose user interface runs in a web view. The
library holds what the shell decides and computes, verified with Verus; `app/` holds
the commands, windows, files, sockets and devices around it.

- `text`, `encoding`, `json`, `crypto`: texts, and what other crates decode, parse and encrypt
- `config`, `hwcrypto`: configuration files, and encryption under a key of the hardware
- `autotype`, `shortcuts`: keys that are sent, and keys that are received
- `ext_frames`, `ext_connector`, `ext_process`, `ext_manifest`: browser extensions
- `native`: key derivation and hardware keys
- `net`, `fs`, `spawn`: requests, files and processes
- `paths`, `platform`, `power`, `shell`, `snapshot`, `webkit_prefs`, `window`: the program itself

Everything that depends on the platform takes it as an argument. What the library
believes of other crates stands in the contracts of the functions marked
`external_body` and in one `assume_specification`; each says which function it calls.
