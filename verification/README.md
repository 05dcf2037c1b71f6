# musicpresence

Shows the track playing in Apple Music as a Discord Rich Presence ("Listening
to …"), on Windows.

- `src/` is the verified library (Verus): text handling (trimming, UTF-8
  truncation, query encoding, replacement, decimal parsing), the settings and
  how they are loaded, the Discord IPC frame format and connection state, the
  iTunes search URL and metadata cache, media-session selection, version
  comparison and the update decision, and the decisions of the polling loop.
- `app/` is the Windows program around it: the named pipe, HTTP requests,
  JSON and TOML (de)serialisation, the media-session API, the tray icon, the
  settings window and the registry entry.
- `tests/` exercises the library on concrete values.
