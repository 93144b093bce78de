# wlproxy

A Wayland socket proxy. It listens on a socket of its own, connects each client to the
compositor, and relays their messages. On the way it can

- replace the app id or the title of every xdg toplevel, or put a text before it;
- block interfaces by name: the compositor's announcements of them do not reach the client,
  and the client's requests to bind them, and all messages to the objects that they name, do
  not reach the compositor.

The library under `src/` is verified with Verus. It does no input or output.

- `proto` reads and writes messages and their arguments.
- `connection` keeps what is known of a connection and decides what becomes of each message.
- `relay` and `session` say what to do next with a connection's two sockets, and `remarks`
  what to tell of each message where debug messages are wanted.
- `server` says what to do next with the lock file, the listening socket and the clients.
- `interfaces`, `cli`, `config`, `context` and `text` hold the list of known interfaces, the
  command line, the settings, error messages and text functions.
- `laws`, `relay_laws` and `server_laws`, and proof functions in the other modules, state what
  holds of every connection, every relay and every server.

The program under `app/` owns the sockets and files. It performs the actions that the library
names and reports what came of them. `tests/` runs the library with everything in memory.
