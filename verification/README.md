# item_storage_manager

The verified core of a desktop manager that keeps a World of Warcraft addon's
item database (`ItemStorageDB.lua`) in step with its copy on GitHub.

* `src/` — the library, verified with Verus:
  * `sync` — one synchronisation run as a state machine (decisions only) and its laws;
  * `github` — GitHub object ids, request headers, addresses, upload bodies and the reading of answers;
  * `scanner` — finding the character that logged out last in the logger addon's saved variables;
  * `config` — the settings, the game-folder layout, and the taking of new settings;
  * `monitor` — the decisions of the monitoring loops and their log lines;
  * `version` — announcing a newer release;
  * `json`, `text` — JSON lookups and text utilities with exact specifications.
* `app/` — the desktop program around it: the window, file and network work, timers.
* `tests/` — tests of the library on concrete values.
