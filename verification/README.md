# proc_manager

The core of NovaTask (`nman`), a terminal dashboard for processes, network
ports, system services, Docker containers and workspaces, written in Verus.

`src/` is the verified library. Every function there carries a contract that
Verus proves, except three small wrappers in `text` around std string
functions (`String::push`, `String::pop`, `str::to_lowercase`), whose
contracts are trusted; what lower-casing returns is only named, not described.

- `app` decides what every key, palette command and mouse wheel turn does to
  the interface (`UiState`) and which effects the host must carry out. The
  palette command `servers` opens the list of remote servers.
- `screens`, `tables` and `filters` hold the state of each screen, the text
  of its rows and the search boxes.
- `processes` and `ordering` order the process list, flat or as a tree, and
  read a remote `ps` listing; `history` keeps each process's recent readings.
- `services` and `platform` plan the `systemctl`, `journalctl` and `launchctl`
  commands and read their output; `docker`, `ports`, `workspaces`,
  `configuration` and `servers` model the rest of what the screens show.
- `text` holds the string operations the rest is built on.

`app/` is the program around it: the terminal, the Docker daemon, `sysinfo`,
the SQLite database, SSH and the configuration file. It turns what they
report into the library's types, calls the library, and performs the effects
it returns.

`tests/` runs the library on concrete cases.
