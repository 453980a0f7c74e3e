# FastDL plugin library

The rules of the GameAP FastDL plugin, written in Verus and proved against
their contracts: input validation, daemon command quoting, paths below a
node's work directory, route matching, access decisions, installation
tracking and the services that publish FastDL configuration through the
panel's host interface.

- `src/` is the library. `host_api` declares the panel and daemon operations
  the services use, and `Host` wraps a connection with the record of every
  operation made through it: what was asked and what came back. What the
  panel and the daemons answer is not modelled; the services' contracts say
  which operations they make, in which order and with which arguments, and
  what they do with each answer. Everything else is verified.
- `app/` connects the library to the GameAP plugin SDK: JSON encoding, the SDK
  host calls and plugin registration.
- `tests/` run the library against an in-memory host.

Properties proved for all inputs include: quoted command lines split back into
exactly the quoted arguments (also after a Windows daemon doubles
backslashes); diagnostics never contain a server's download token; published
game roots stay inside the server directory; each server has its own
definition file and registration record; every route is reached by its own
paths, and only node and overview routes are for administrators.
