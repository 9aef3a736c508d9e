# mprisence

Discord Rich Presence for MPRIS media players: the decisions of the daemon,
written in Verus and proved against their contracts.

## Layout

- `src/` — the verified library.
  - `health`, `player`, `tracking`, `grouping`, `events`, `sorting`: which
    players are tracked, which bus name wins among duplicates, how players
    that expose the same content are merged, how signals are coalesced, and
    when a player counts as stalled.
  - `config`, `resolve`, `patterns`, `config_lint`, `watch`: configuration
    values and defaults, the layering of bundled and user entries, player and
    web player matching, warnings about unknown keys, and the file watcher's
    reload decisions.
  - `metadata`, `context`, `activity`, `report`: what a track's metadata
    gives the templates, the presence sent to Discord, and the text of the
    command line reports.
  - `cover`: cover art sources, providers, the cache's bookkeeping and the
    lookup that ties them together.
  - `bridge`, `bridge_setup`: the browser bridge's source registry and frame
    format, and the native messaging manifest.
  - `preview`, `settings_api`: the settings page's routing, patches and
    previews.
  - `autostart`, `discord`, `urls`, `text`: autostart units, Discord's IPC
    socket names, URL parts and string helpers.
- `tests/` — tests of the library's public functions.
- `app/` — the command line front end: arguments, reading the configuration
  file, and printing the reports the library lays out.

Each public function states its result in `ensures`; properties that relate
several functions are public proof functions named `law_*`.
