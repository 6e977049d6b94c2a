# maze_runner

A playable maze ray caster whose integer core is verified with Verus.

- `src/` — the verified library:
  - `framebuffer`: the pixel buffer and its drawing primitives (points,
    filled rectangles, outlines, row and column strips, clearing), each with a
    per-pixel contract, plus laws such as "drawing outside the frame changes
    nothing" and "filling twice equals filling once".
  - `maze`: maze cells, bounds-checked lookup (outside is wall), the built-in
    fallback maze, and building a maze and its start cell from file lines.
  - `texture`: the deterministic noise hash and the texel layouts of the
    stone, metal and vine wall textures, texel lookup, per-wall textures and
    colors.
  - `minimap`: the minimap panel with one tile per wall or goal cell.
  - `screens`: the menu frame, the level-menu highlight and the heads-up
    panels.
  - `game`: the screen state machine of a session (menu navigation, key
    presses, wall-thud pacing, goal detection, frame counting) and its laws.
- `tests/` — tests of the library on concrete values.
- `app/` — the program: window and input (minifb), audio (rodio), file
  reading, and the floating-point parts (ray casting, shading, gradients,
  texel color mixing, player movement). The bitmap-font module `text` that
  the screens use is not part of this tree.
