# husk

A manager for microVMs. A daemon creates, pauses, stops and destroys virtual machines, gives them
disks, addresses and port forwards, and serves an HTTP API; a guest agent runs commands, moves files
and opens shells inside them; a command line talks to the daemon.

What the program decides and computes is a Verus library, and every function of it is proved against
its contract. What it does to the world is ordinary Rust around the library.

## Layout

- `src/`: the library.
  - Foundations: `text`, `ip`, `ident`, `path`, `json`, `base64`, `sorted`.
  - Talking to a guest: `proto` (messages and frames), `client` (the host's side), `agent` (the
    guest's side).
  - Host resources: `net` (addresses, TAP devices, NAT rules), `storage` (disks and kernels).
  - Monitors: `vmm`, `firecracker`, `apple_vz`.
  - Records: `state` (VMs and port forwards), `tables` (how they are kept between runs), `unread`
    (rows that cannot be read), `catalog` (host groups, services, snapshots, images).
  - Orchestration: `orchestrator` (life cycle of a VM), `forwards` (port forwards), `upkeep`
    (draining, userdata scripts, log rotation).
  - API: `guard` (paths, commands, tokens), `limiter`, `api`, `logs`, `shell`.
  - Program: `config`, `daemon`, `cli`.
- `tests/`: the library at work on concrete values.
- `app/`: `main`, the HTTP server, processes, sockets, files and the database.

## How the library and the world meet

A function that needs something done outside says what, and takes notice of what came of it. Creating
a VM, for instance, is a sequence of steps (`HuskCore::create_step`): run these commands, copy this
disk, boot this configuration. The caller performs a step and hands back the event. Records change
only in the library, and each change is part of a contract.

Public proof functions state what holds across functions: that a creation that fails leaves nothing
behind, that destroying a VM undoes its creation in the records, that removing the network of a VM
deletes every rule of it, that tables are read as they were written, that a rate limit holds in every
window, that encoded data is decoded to itself.

Calls into other crates (`uuid`, `chrono`, `serde_json`) stand in a few small functions whose contracts
are taken on trust; their doc comments say what is claimed.
