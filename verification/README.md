# chaos_core

A verified library for a media companion: lyrics search, music catalogue and
download requests, subtitle and track file naming, now-playing snapshots,
text-to-speech bookkeeping and voice-chat audio chunking.

- `src/` is the library. Every function in it carries a `requires`/`ensures`
  contract that Verus proves; calls into outside crates (regex, base64, md5,
  url and percent encoding, gzip, hound, fastrand) go through small trusted
  wrappers whose contracts are stated in their doc comments.
- `app/` is the program around it: HTTP, files, processes, the clock,
  floating-point scoring and sampling, and serde copies of the library's types.
- `tests/` runs the library on concrete values.
