# picacg_app

The logic of the PicACG desktop client, written in Verus and proved against
its contracts.

- `src/` is the verified library. Each page of the client is a module whose
  state is plain data and whose operations say, in their `ensures`, exactly
  what a button, a key or a server reply does to it: `routes` and `history`
  (navigation), `reader`, `search`, `login`, `register`, `proxy`,
  `settings`, `profile`, `rankings`, `local` (downloaded comics), `nas` and
  `webdav` (uploads and listings), `cards`, `pagination`, `sidebar` and
  `window`. `text` (characters) and `scan` (UTF-8 bytes) hold the helpers
  they share. The properties that span several operations are stated as public proof
  functions (`lemma_*`).
- `tests/` runs the library on concrete values.
- `app/` is the glue that stays outside the proofs: reading the disk, opening
  the system browser, driving an upload, and the scroll and zoom figures,
  which are floating point.

Two outside crates are called from the library through trusted wrappers:
`urlencoding` (percent-decoding of WebDAV names) and `chrono` (local time of
a timestamp); so is the standard library's `str::to_lowercase`, whose
lower case decides where a WebDAV listing is cut. `open` and `reqwest` (the
WebDAV requests) are used by `app/`.
