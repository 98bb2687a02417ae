# copied

A clipboard history manager for Wayland: a daemon keeps the last 15 copied
items (text or images, deduplicated by content hash) and up to 5 pinned
items, categorizes what is copied, and serves them over a Unix socket to a
popup window and a terminal client.

## Layout

- `src/` — the verified library (Verus). It holds the logic of all three
  programs, each function with a contract:
  - `stack`, `stack_laws` — the history and the laws its operations keep;
  - `daemon` — the answer to each client command, and how a clipboard change
    enters the history;
  - `categorize`, `views`, `persistence`, `paths`, `ipc`, `watcher`,
    `instance_lock` — content categories, item rendering, cache file names,
    file locations, protocol framing, clipboard offers, the lock file;
  - `gui`, `cli`, `symbols` — the state machines of the popup window and of
    the terminal client, and the symbol catalog with its search;
  - `protocol`, `text` — the message types and the text operations the rest
    is stated with.
- `app/` — the programs around the library: sockets, files, the Wayland
  clipboard, the terminal and window toolkits, and JSON encoding.
- `tests/` — tests of the library on concrete values.
