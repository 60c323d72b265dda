# zlib_tester

Test programs for a chunked zlib decoder, with their logic verified in Verus.

- `src/` is the verified library: how input is cut into chunks and what each
  answer of the decoder leads to (`chunked`, `stream`, `verbose`), how results
  are judged, timed and totalled (`report`), the reported texts (`error`,
  `text`, `show`), file naming (`naming`) and settings (`settings`).
- `app/` holds the programs themselves: reading directories and files, the
  clock, the terminal, and the calls into the decoder under test, which
  come from the `comprsr_zlib` crate.
