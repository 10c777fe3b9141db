# semantic_image_browser

A desktop image browser that indexes folders of images and searches them with
natural-language queries (SigLIP 2 embeddings), split into a verified core and
a thin application shell.

- `src/` is the library, verified with Verus: scan planning against the index,
  work distribution for inference, search planning, SQL literal escaping,
  thumbnail naming, path prefix tests, watched-folder configuration, ONNX
  Runtime release selection, CUDA dependency handling, benchmark CSV rows and
  timestamps, clustering inputs and label bookkeeping, model input shaping,
  decoding of PNG and other image bytes, and resizing with its filter choice.
  Laws that relate several operations are public proof functions named `law_*`.
- `tests/` runs the library on concrete inputs.
- `app/` is the Tauri shell: commands, file and network I/O, the LanceDB
  index, ONNX Runtime sessions, file reading and JPEG decoding, and
  floating-point work.
