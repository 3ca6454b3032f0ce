# tapciify

Converts images into braille-character art and plays sequences of them in a
terminal.

- `src/` is the library, verified with Verus: the braille encoding of dot
  patterns (`braille`), braille art from local thresholding (`braille`) and
  from dithering (`dithering_braille`), the pixel buffers and the calls into
  the `image` and `imageproc` crates (`raster`), the art type (`art`), and the
  playback decisions and per-frame braille conversion (`player`).
- `app/` is the command-line player: argument parsing, reading image files,
  the progress bar, drawing on the terminal and frame timing.
- `tests/` runs the library on concrete images.
