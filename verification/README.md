# web_gpu_engine

The game logic of a small 2D platformer engine, verified with Verus.

`src/` is the verified library:

- `time`: a nanosecond-precise span of time (`Duration`) with checked arithmetic.
- `animation`: sprite animations, the per-character animation table, and the
  step that advances a character's animation and locates its sprite.
- `sprite`: sprite sheets and the row-major location of a sprite by index.
- `input`: the keyboard state machine (held keys, popup mode, character updates).
- `frame`: frame counting, frames per second and the fixed-update backlog.
- `physics`: the tick counter and the coyote-time jump rule.
- `wgsl_preprocessor`: expansion of `//#include` lines in WGSL shader sources,
  the decision whether every expansion ends, and the list of missing includes.
- `texture`: decoding of sprite-sheet images and normal maps (through `image`).
- `component`, `game`, `gui`: shared component and game-state types.

`app/` is a headless driver around the library: entity storage in slot maps,
`f32` geometry (camera projection, collisions, texture coordinates,
premultiplied alpha), reading image files, and a loop that runs frames without a window.

`tests/` exercises the library on concrete values.
