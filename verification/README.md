# rustdesk_clipboard

Verified rules of RustDesk's clipboard synchronisation, written in Verus.

`src/` holds the logic with its contracts and laws:

- `side` — the two ends of a connection and the owner marker each writes.
- `timing` — when a remote clipboard update waits for a recent local change.
- `format_names` — which native clipboard type names are safe, opaque or
  risky, compared without ASCII case on their UTF-8 bytes.
- `windows_formats` — the same decision for Windows clipboard format numbers.
- `data` — clipboard content, the filter applied when it is read (the owner
  marker, empty text, content this program wrote itself) and the guards.
- `proto` — clipboard items on the wire, with compression supplied by the
  caller, and the choice of message for a peer.
- `files` — file URLs this program offers, recognised by prefix and UUID.
- `listener` — the registry of subscribers to clipboard changes.
- `retry` — the retry and wait decisions around clipboard access.
- `text` — byte-level string helpers.

`app/` performs the clipboard I/O, runs the threads and converts to the wire
messages; `tests/` exercises the library on concrete values.
