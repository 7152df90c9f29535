# netshare

The verified core of a LAN keyboard/mouse/audio/file sharing system, written
in Verus, and a small command-line program around it.

## Layout

- `src/` — the library. Every function has a contract, proved by Verus,
  except the small trusted wrappers around std, chrono, sha2 and crc32fast
  calls, whose contracts are assumed:
  - `protocol`, `framing` — the control-channel packets, the 8-byte header
    and frame encoding/decoding (with round-trip laws);
  - `active_client` — the server's registry of client slots 1–9;
  - `file_transfer`, `transfer` — file and clipboard packets, path
    sanitisation, and the sender's and receiver's protocol decisions;
  - `layout`, `edge` — screen layout arithmetic and edge switching;
  - `capture`, `inject_linux`, `inject_windows` — what the input hooks
    forward and which events the injectors emit;
  - `client`, `gui`, `ipc`, `discovery`, `clipboard`, `audio_devices`,
    `playout`, `tls`, `firewall`, `autostart`, `text` — the remaining
    decisions of the client, the user interface, the daemon and the helpers.
- `tests/` — tests of the library.
- `app/` — the program: network, TLS, file, mDNS and uinput I/O, serde
  copies of the wire types, the terminal prompt that accepts or declines an
  incoming file, and the floating-point geometry of the monitor view. The
  protocol decisions and the file digests it uses come from the library.
