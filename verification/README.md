# image_dedup

Finds near-duplicate images by perceptual hashing and helps clean them up.

- `src/` is the verified library: perceptual hashes (average, difference and
  DCT via img_hash), Hamming distances, grouping of similar hashes into
  duplicate groups, filtering of groups by distance, the choice of files to
  move or delete, the decoding of image bytes (via the image crate), the
  selection and ordering of image files found on disk,
  and the configuration and dependency-wiring logic (presets, component
  factories, static and dynamic containers, validation, error types), with
  the timing benchmarks of the static configurations.
- `app/` is the command-line program: argument parsing, reading and writing
  JSON, walking directories, loading images, moving and deleting files, and
  printing benchmark reports.
- `tests/` exercises the library on concrete inputs.
