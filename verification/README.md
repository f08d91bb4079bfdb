# rigorstarter

The logic of a small interactive application kit (a launcher menu, a snake
game, a stack of screens, a keyboard tracker and a bitmap font), written in
Verus with contracts and proofs, and the program around it.

- `src/` is the verified library:
  - `game::snake`: the snake game on an integer grid: moves, collisions,
    food placement on a random free cell, scoring, the cell codes the
    renderer uploads; `game::key_indicator`: the last key pressed.
  - `ui::launcher`: the searchable, scrollable launcher menu: case-insensitive
    filtering, selection and scrolling, the keys and clicks it reacts to.
  - `stdlib::state`: the stack of screens and the requests that change it;
    `stdlib::input`: keys held now and in the previous frame.
  - `gpu::font`: the 5 by 7 bitmap font and the pixels of each glyph.
  - `examples::keypress_demo`: the bounded history of key presses.
- `app/` is the program: the window (winit), the GPU (wgpu), the clock, the
  floating-point games and demos (breakouts, ping pong, a cube, a Bézier
  curve, a flow field, a sine wave), the vector and matrix types, and the
  drawing of every screen. It hands the library plain values: key codes,
  the signs of wheel movements, the rows that fit on the screen.
- `tests/` runs the library on concrete inputs.
