# rustromm

A desktop client for a [RomM](https://github.com/rommapp/romm) game library:
browse the library, download games, and play them in an embedded libretro
core or in an emulator you already have.

The project is written in Verus. `src/` is the library, whose functions carry
`requires`/`ensures` contracts that Verus proves; `app/` is the program around
it, which Verus does not see.

## Layout

- `src/api.rs` — server addresses, request queries and URLs, and how the
  server's answers are read.
- `src/browse.rs`, `src/sidebar.rs` — navigating the library with keys or a
  pad; the order of the platform sidebar.
- `src/input.rs`, `src/play.rs` — what keys and controller buttons mean, in
  menus and in a game.
- `src/config.rs`, `src/models.rs`, `src/launch.rs`, `src/logging.rs` —
  settings, the API's records, external emulator command lines, the in-app
  log and its report.
- `src/libretro/` — hosting a libretro core: which core plays a platform,
  what a core is answered, pixel conversion, frame pacing, the audio queue,
  battery-save safety, and getting a playable file out of an archive.
- `src/text.rs` — the string operations the rest relies on, specified over
  `Seq<char>`.
- `app/` — the egui window, HTTP, files, the core's C interface, the sound
  device and game controllers.
- `tests/` — tests of the library, run against the compiled crate.
