# bs2b

Bauer stereophonic-to-binaural crossfeed, as a verified library with a thin
floating-point shell.

- `src/` (verified with Verus): crossfeed levels and their packed C form
  (`level`), errors (`error`), processor settings and what a settings change
  asks of the filter, buffer-shape checks (`processor`), the channel layout of
  callback buffers and the size bookkeeping of the pairing stream
  (`streaming`), and the offset-binary handling of unsigned PCM (`pcm`).
- `app/`: the `f64` filter itself (`Bs2b`), the `Sample` conversions, the
  streaming adapters, and the `Display`/`Error` impls of the error types.
- `tests/`: scenarios for the library's functions.
