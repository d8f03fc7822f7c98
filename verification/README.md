# fractals

Escape-time fractal rendering (Mandelbrot, Julia, Phoenix and Newton sets),
verified with Verus.

- `src/number.rs`: the `Float` abstraction the renderer is generic over,
  complex arithmetic over it, and the integer bit handling of the logarithm
  approximation.
- `src/fractal.rs`: orbits, the `Fractal` trait, the four fractals, and the
  iteration loop (`Iterate::run`) with its proofs.
- `src/render.rs`: the supersampled value of one pixel.
- `src/view.rs`: the rectangle of the plane that a view covers.
- `src/image.rs`: the binary PPM encoding of an image.
- `app/`: the program: command-line handling, the `f32`/`f64` arithmetic,
  the colour map, the CUDA kernel launch and the file output.
