# good_web_game

The verified core of a small 2D game framework for the web and the desktop,
written in Verus. `src/` holds the logic, each public function with a
contract that Verus proves, apart from the three functions of `DirtyFlag`:
its value sits in a std `AtomicBool`, which Verus models without its
contents, so what `load` returns is not stated. `app/` holds the platform side (the miniquad
window and event loop, the clock, GPU uploads, file loading), which builds on
the core and is not verified.

## Layout of `src/`

- `timer` – the frame log (a ring buffer of the last 200 frame lengths) and the
  fixed-timestep accumulator behind `check_update_time`; durations are whole
  nanoseconds, up to the longest `Duration`.
- `input::keyboard` – held keys, key repeat and modifier keys.
- `input::input_handler` – named keys and mouse buttons held or pressed this frame.
- `goodies::scene` – the scene stack and which scenes are drawn.
- `goodies::megaui` – the UI's color scheme, its tree of windows and widgets
  (with slot reuse and disposal of everything below a rebuilt window), the
  events a frame leaves for the next, and in `ui` the focus, move and drag
  state of the UI.
- `graphics` – blend modes and their blend states, shader locks, mesh size
  checks, the instance bookkeeping of mesh and sprite batches, solid images.
- `filesystem` – the cache built from the embedded tar archive (read with
  the `tar` crate; entries whose names are not text cannot be reached by a
  path given as text and are left out), no two of its files under the same
  path, and where other files are loaded from.
- `event` – browser key codes, the run state of the game loop.
- `audio`, `conf`, `error`, `decimal` – the sound registry and sources, start-up
  configuration, errors, and decimal notation for messages.

Laws that relate several operations are public proof functions named
`law_*`, next to the operations they speak of.

## Sets and maps

Sets and maps are held in `Vec`s with a stated invariant where a `HashSet` or
`HashMap` would be the obvious choice: Verus specifies `HashMap` and
`HashSet` usefully only for keys whose hashing and equality it models
(integers, for instance), not for `String`, `PathBuf` or enums of this crate.
So the held keys and buttons are sequences without duplicates standing for
sets, the file cache keeps no two files under paths that `Path` equality
identifies, and browser key codes are looked up in a table. The sound
registry, keyed by integers, is a `HashMap`.
