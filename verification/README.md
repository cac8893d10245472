# edlr-core

The core of a daemon that runs plugins and drivers for Elite Dangerous: it forwards
the game's journal to plugins, connects plugins with drivers over a bus, runs their
schedules and sidecars, and answers the requests of clients over a socket.

- `src/` is the verified library: queues, schedules, the loops of plugins and drivers
  as state machines, registries with settings, approvals and configurations, and the
  handling of requests. Nothing in it reads a clock, a file or a socket.
- `app/` is ordinary Rust around it: threads, queues that block, files and sockets.
- `tests/` runs the library.
