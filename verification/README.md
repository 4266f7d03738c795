# tilegame

A small tile-world game and its Wayland/ALSA platform layer, with the logic
verified by Verus.

- `src/` — the verified library:
  - `world.rs`: tile coordinates with euclidean carry between chunks, the
    generated tile maps, cutting a map into chunks, tile lookup, wall tests
    and the view around the player.
  - `input.rs`: buttons, the keyboard mapping, key events, held keys and
    the movement direction.
  - `buffers.rs`: frame and audio buffers and their raw forms.
  - `memory.rs`: saving and loading the game's memory blocks.
  - `draw.rs`: rectangle fills and the audio debug lines.
  - `platform.rs`: pool regions, buffer parameters, compositor events, the
    frame and audio decisions of the platform loop.
  - `byte_order.rs`: the two byte orders a machine may use.
- `app/` — the program around it: the Wayland client, ALSA playback,
  loading the game code, and the game's floating-point drawing, movement
  and tone.
- `tests/` — tests of the library on concrete values.
