# filebrowser

A file browser for the members of a Discord server: users log in with
Discord, and each configured volume (a host directory) is shown to the
members of one role, read-only or read-write. The browser talks to the
server over a WebSocket.

The library (`src/`) is verified with Verus:

- `store`: the sled databases seen as maps from bytes to bytes, big-endian
  id keys, and the ids a database has given out.
- `volume`, `admin`, `login`: volume, admin-setting, session and user
  storage; the admin check; the login, callback and logout decisions.
- `ws`: the open connections of each user, sending to them, and routing
  each message a browser sends.
- `browse`: listing a directory step by step (volume, role, root, target
  inside the root, directory, read) and the order of the entries.
- `client`, `pages`: the browser's shared state and each page's state
  machine.
- `cookie`, `prefs`, `links`, `text`, `types`: cookies, themes and view
  modes, the links the pages draw, strings and numbers, message types.

`app/` is the server program: HTTP routes, the WebSocket loop, Discord
requests, the file system, and JSON/MessagePack encoding. It hands the
library plain values and acts on what comes back.
