# celld_tcp

Fixed TCP endpoints for the containers of named objects. A deployment declares
routes from TCP ports to container ports; a node listens on them, finds the
owner of each target, starts its container by a hook and relays bytes. Nodes
reach each other's containers over an authenticated HTTP upgrade.

- `src/` decides, and is verified with Verus: which routes are accepted, which
  sockets and mappings a deployment keeps, and, step by step, what a listener,
  a dialing client, a peer's request and a container's start do next.
- `app/` acts: it binds, accepts, sends, waits and copies, and hands every
  outcome back as an event. What it needs of the node around it are the traits
  in `app/node.rs`.
- `tests/` runs the library.
