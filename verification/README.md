# fixfifa

Fixes for FIFA 19: leave a match against a blacklisted club, keep the game
connected on alt-tab, skip the launcher and the language selection.

- `src/` is the library, verified with Verus: the little-endian address
  encodings, the masked pattern search over process memory and the label scan
  built on it, the code patches (jumps and the event hook), the console switch,
  the parser of the pre-game event, the settings (`config.ini`, `locale.ini` and
  the settings store) and the match state. Memory is never touched here: the
  search and the scan are state machines that say what to read next and take
  the bytes that the read gave.
- `tests/` runs the library on concrete inputs.
- `app/` is the program around it: the Windows calls that read and write the
  game's memory, the injector, the files and the web page of the settings.
