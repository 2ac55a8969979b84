# pixma

A driver for Canon PIXMA G-series printers and scanners (tested on the G3010),
speaking Canon's CHMP scanning protocol over HTTP, BJNP for discovery, and IPP
for printing, with an eSCL (AirScan) bridge so that macOS sees the scanner as
a native one.

The library under `src/` is verified with Verus:

- `bjnp/` — the BJNP packet header (encoding, decoding, round trip), the
  numbering of a TCP session, and the decoding of discovery and identity replies.
- `scanner/commands.rs` — the binary pixma command frames (checksummed
  parameter blocks) and the decoding of status words and image blocks.
- `scanner/session.rs` — the flatbed scan sequence as a state machine: what to
  send next and what each reply means.
- `chmp.rs` — the HTTP side of CHMP: request heads, status lines, headers and
  chunked framing.
- `bridge/` — eSCL scan settings, the status and capabilities documents, and
  the book-keeping of scan jobs.
- `scanner/image.rs` — the bytes of the file a scan is saved as: JPEG data
  as it is, or decoded and re-encoded (through the `image` crate) in the
  format that the path names.
- `discover.rs`, `cli.rs`, `filename.rs` — the decisions of discovery and of
  the command-line tools.

`app/` holds the program around it: the `pixma` command (`discover`, `scan`,
`print`, `bridge`) with its network transports, mDNS browsing, IPP client,
file writing and the HTTP server of the bridge.
