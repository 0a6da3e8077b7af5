# vmdesk

Low-latency remote desktop for a headless VM without a GPU, with a native client. The logic is
a verified library; the program around it captures, encodes, moves packets and shows windows.

* `src/` is the library. Verus verifies its functions against their contracts; the wrappers named
  below are the exception, their contracts are trusted.
  * `proto/`: wire protocol, key codes, session descriptions, logging rules.
  * `server/`: capture decisions, colour conversion, pipeline, encoder settings, sessions,
    signalling, input, configuration, setup files and the `doctor` checks.
  * `client/`: reassembly of access units, depacketizing, decoder supervision, recovery, the
    network session, presentation and key mapping.
  * `text`, `ip`, `e2e`: text as sequences of characters, IP addresses, log capture for tests.
* `tests/` runs the library, with the outside crates it calls.
* `app/` is the program: `vmdesk server run|setup|doctor|capture` and `vmdesk client`. It does
  the input and output, and leaves the decisions to the library. The client's decoder needs
  FFmpeg's libraries and the `ffmpeg-sys-next` crate.

What the proofs rest on is written at the items concerned: the wrappers of `rtc`'s H.264
depacketizer and its reading of session descriptions, of `rayon`, `serde_json`, `png` and
`xxhash-rust`, and of a few functions of std.

What a reader may want to look at first: `server::convert` (what the conversion gives for every
pixel), `client::assembler` and `client::delivery` (what becomes of every packet, and of a
stream), `proto::message` (what is encoded is read back), `proto::sdp` (what rewriting an answer
changes, and what it leaves alone) and `server::pipeline` (when frames are captured, skipped and
forced to be keyframes).
