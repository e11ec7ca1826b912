# sceno

The verified core of the sceno desktop overlays (synced lyrics, karaoke,
metronome, tuner, vocal trainer), written in Verus.

- `src/` — the library, every function proved against its contract:
  - `text`: character-level string helpers (trimming, searching, lines, decimals).
  - `query`: lyrics queries from now-playing metadata (title/artist cleaning,
    browser handling, the change-detection key, library file names).
  - `tracker`: the poll loop's fetch/retry decisions and the HTTP retry policy.
  - `lrclib`: the lyrics lookup's steps (cache, exact request, search, save),
    the choice among search results, and cache file names.
  - `library`: matching the now-playing track against the local song library,
    and identifying UltraStar/LRC files.
  - `lrc`, `ultrastar`: the text layer of LRC and UltraStar files.
  - `nowplaying`: the macOS AppleScript probe and its output line.
  - `music`, `presets`: scales, exercise items, note names; persisted choices
    and overlay stacking geometry.
  - `offsets`: per-song phase offsets.
  - `paths`: XDG directory resolution.
  - `clock`: the shared beat clock.
  - `onscreen`: the first lyrics overlay's query and settings.
- `app/` — ordinary Rust around the library: environment, files, HTTP, the
  player loops, settings as JSON, and the floating-point timing, pitch and
  scoring math.
- `tests/` — tests of the library.
