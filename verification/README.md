# ryu-clips

The `/api/clips/*` surface of Ryu: record, ingest and browse clips of the screen.
Shadow, a service on loopback, does the capturing; this project stands before it.

- `src/` is the library, verified with Verus. It holds the rules: who is let in,
  what Shadow is asked, what the caller is answered, which local files may be
  ingested, what a summary says, and where the data directory is. It does no I/O.
- `app/` is the process around it: the HTTP server, the HTTP client, the
  environment and the file system.
- `tests/` run the library on concrete values.

| Variable | What it sets |
| --- | --- |
| `RYU_CLIPS_PORT` | the loopback port, 7992 by default |
| `RYU_EXT_TOKEN` | the shared secret; without it every clips route answers 401 |
| `RYU_SHADOW_URL` | where Shadow listens, `http://127.0.0.1:3030` by default |
| `SHADOW_API_TOKEN` | the bearer token for Shadow |
| `RYU_CLIP_STT_ENGINE` | the engine for transcripts, `gateway` by default |
| `RYU_CLIPS_ALLOWED_DIRS` | more folders to ingest local videos from, with colons between them |
| `RYU_DIR`, `RYU_PROFILE` | the data directory, or the profile that picks it |

When Shadow is down, a caller who asked for JSON is answered
`{ "available": false, "reason": .. }`.

Paths are Unix paths.
