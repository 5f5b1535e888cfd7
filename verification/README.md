# parallax

The host side of Parallax, a streamer of Linux desktops (and virtual monitors)
to an XR headset: a control protocol with PIN pairing, up to three
capture/encode/UDP streams, virtual monitors through `xrandr`, and a status
socket for the desktop UI.

## Layout

- `src/` — the library, verified with Verus:
  - `protocol.rs` frames of the control channel; `payloads.rs` their payloads;
    `session.rs` the session state machine (pairing, challenge–response,
    requests) with the outside work it asks for as requests and outcomes;
  - `crypto.rs` PBKDF2, HKDF and HMAC over SHA-256 from the RustCrypto crates;
  - `streams.rs` the stream table (three slots, targets, restarts, the stream
    list); `status.rs` the status socket commands, status line, QR URI, PIN and
    socket path; `ui.rs` what the UI reads back and its client's decisions;
    `qr.rs` the pairing QR code image;
  - `display.rs` `xrandr` output, the virtual display file and its reports;
  - `packet.rs`, `proto.rs` the UDP framing of encoded video; `encode.rs` the
    encoder's frames and checks; `capture.rs` the cursor blended into frames;
  - `cli.rs` the command line; `logging.rs` log lines; `text.rs`, `bytes.rs`
    the text and byte helpers they share.
- `app/` — the `prlx-hostd` daemon around the library: sockets, threads, X11,
  FFmpeg, files and processes.
- `tests/` — tests of the library on concrete values.
