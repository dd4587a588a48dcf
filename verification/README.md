# psf

Reader for Microsoft PSTREAM Patch Storage Files (the "express download"
payload container used by Windows Update) and their paired Container Index
(`*.psf.cix.xml`), verified with Verus.

- `src/` is the verified library: header validation and zero-copy stream
  extraction (`lib.rs`), the Container Index model (`cix.rs`), target
  reconstruction decisions and hash checks (`expand.rs`), the streaming
  reader's decisions (`reader.rs`), the CIX document renderer (`fuzz.rs`) and
  character-level string helpers (`text.rs`).
- `app/` holds what does input and output or rests on derive macros: XML
  reading with yaserde, the `Read + Seek` reader, MSDelta application,
  displayable errors and `Arbitrary` models.
- `tests/` exercises the library on concrete inputs.

MSDelta application (`app/expand_apply.rs`) calls the `msdelta` crate, which
the crate registry available here does not offer; it is not named in
`Cargo.toml`, so `app/` does not build until that crate is supplied.
