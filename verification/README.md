# BigNetScreen

Casting a Linux desktop, or files from it, to the receivers on the local
network: Chromecast by mirroring (encrypted RTP with retransmission) or through
its media player (Matroska over HTTP), and the pipelines that Miracast uses.

- `src/` is the library, written in Verus: packet formats, protocol messages,
  request triage, settings, pipeline descriptions, and the decisions of every
  session. It reads no file, opens no socket and knows no clock; what it needs
  of them it is handed as plain values.
- `app/` is ordinary Rust around it: sockets, threads, D-Bus, files, timers and
  floating point. Its GStreamer half is built with `--cfg gstreamer`.
- `tests/` runs the library.

Times are whole nanoseconds of a clock that never goes back. Doubles that pass
through the library (playback rates, positions, scales) are carried as their
bits.

The contracts of what outside crates compute are in the modules that call them:
`rtp` (AES in counter mode), `rtcp` (the system's clock), `json` (JSON values),
`certificate` (certificate chains) and `text` (one method of `String`).
