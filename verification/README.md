# kadr_installer

The decision logic of the Kadr installer's window, verified with Verus.

- `src/` is the library. `text` writes numerals and splits patch notes into
  displayed lines; `size` writes download sizes exactly as formatting the
  `f64` quotient would; `theme` holds the palette and egui's premultiplied
  colors; `welcome` decides what the welcome screen shows and what its clicks
  ask for; `flow` records a running task, words the final screen and maps the
  welcome screen's requests to screens and tasks.
- `app/` is the egui front end that draws what the library decides and runs
  the background work (downloads, installation, network requests).
- `tests/` runs the library on concrete values.
