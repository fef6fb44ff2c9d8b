# rust_opengl_learn

Programs that learn OpenGL with glium, among them a breakout game, and the
logic behind them as a library verified with Verus.

- `src/` is the verified library: file names and paths, the level files of
  the game and the bricks they describe, the faces of Wavefront OBJ files
  through the `obj` crate and vertex de-duplication of meshes, key and mouse
  handling, event dispatch by name, the decisions of the render
  loop, power-ups and their effects, texture paths of materials, image
  decoding through the `image` crate, and a memoising cache. Each public
  function states its result in its `ensures`; the laws that span several
  functions are public proof functions beside them.
- `tests/` runs the library on concrete values.
- `app/` is the game itself: window, shaders, textures, audio, collision
  geometry and drawing, in ordinary Rust around the library.
