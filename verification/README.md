# nono-cli

The decisions behind the `nono` command: which profile and which packs a sandboxed run uses, which
paths, hosts and ports it may reach, what is shown of that, what is saved for the next run, and how
a terminal is attached to a running session.

`src/` is the library. Every function in it states what it returns, and Verus proves it. The library
reads no file, opens no socket and looks at no clock: what comes from outside is an argument, and
what has to happen outside is in the result. Laws that span several functions are public proof
functions named `law_*`.

- `profile`, `policy`, `extends`, `profile_cmd`: profiles and the commands on them
- `profile_runtime`, `profile_save_runtime`: using a profile in a run, and saving one after it
- `capability`, `protected_paths`, `query_ext`: what a run may reach
- `network_policy`, `loopback`, `proxy_runtime`: hosts, credentials and the proxy
- `package`, `package_cmd`, `package_status`, `pack_update_hint`, `migration`: packs
- `pty_proxy`: sessions, detaching, attaching, the emulated screen
- `platform`: predicates on the machine
- `output`, `report`, `json`: what is shown, before colours and serialisation
- `text`, `assoc`, `paths`, `digest`, `error`: what the others share

`app/` is a command line for what needs neither the registry nor the sandbox: listing and pinning
packs, attaching to a session, platform predicates, and the commands on profiles. It holds the
arguments, files, terminal, sockets, colours and JSON of these.

`tests/` runs the compiled library.
