# qmp_uds_mon_manager

A QMP multiplexer: one persistent connection per QEMU monitor, a manager-owned
Unix socket per VM for any number of QMP clients, and an HTTP-over-UDS API for
registration, listing, removal and raw passthrough.

`src/` is the verified library (Verus):

- `json` – the JSON document model the QMP logic reads and writes, and its
  text: parsing and compact rendering through serde_json.
- `qmp` – command validation, the local answer to a client's
  `qmp_capabilities`, matching a backend answer with the events before it,
  the step of a front-side client session, and reading a QMP peer's JSON
  lines.
- `backend` – the qapi checks on the backend's greeting and messages, and
  the capability command sent after the greeting.
- `registry` – the registry of managed VMs (unique ids, kept in id order).
- `manager` – registration checks, removal, passthrough targets, HTTP error
  answers.
- `sockets` – decisions about socket files and the hidden backend name.
- `http` – the demo client's HTTP request head and response parsing.
- `demo` – demo configuration, VM ids, socket templates, run verdict.
- `text` – character-level text operations (search, replace, decimal, order).

`app/` holds the programs: the manager daemon (axum, hyper, tokio, qapi) and
the `qmp-parallel` / `qmp-direct` demo clients, selected by the name the
executable is invoked under. It does the socket, file and task work, and
converts between `serde_json::Value` and the library's JSON model where
axum hands over or takes a JSON body.

The executable is one program with three faces: invoked as `qmp-parallel`
or `qmp-direct` (for example through symlinks of those names) it runs the
matching demo, and under any other name it runs the manager daemon.
