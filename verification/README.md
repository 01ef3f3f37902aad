# t6proto

Protocol building blocks for MCT Trigger 6 (T6) USB display adapters,
written in Verus: the library's functions carry contracts that Verus
proves, except three small trusted wrappers around std
(`String::from_utf8_lossy`, `str::trim`, `String::push`), whose contracts
are taken on trust and say what std documents; what `from_utf8_lossy`
makes of non-ASCII bytes is named rather than spelled out.

## Layout

- `src/` — the verified library.
  - `header.rs`, `fragment.rs`, `packet.rs`, `bytes.rs`: bulk DMA and video
    flip headers, payload fragmentation, frame packets and their bulk
    transfers.
  - `vram.rs`: adapter memory layouts and the frame scheduler that rotates
    framebuffers and command slots.
  - `interrupt.rs`: interrupt packets and fence acknowledgement waits.
  - `edid.rs`: EDID checksums, block counts, detailed timings, monitor name
    and serial.
  - `jpeg.rs`: frame header parsing and the JPEG rewrites the adapter's
    partial-update decoder needs.
  - `color.rs`, `convert.rs`, `geometry.rs`, `capture.rs`: YUV conversion,
    NV12/YV12/packed frame layouts, rotation, dirty rectangles, crops and
    captured-frame repacking.
  - `cli.rs`, `number.rs`, `tools.rs`, `replay.rs`, `device.rs`, `type7.rs`,
    `text.rs`: option values, number parsing, payload replay planning,
    device and interface choice, per-frame sender decisions, and text
    formatting.
- `tests/` — tests of the library.
- `app/` — the command-line tools: USB access through libusb, file and
  image I/O, JPEG encoding through libjpeg-turbo and video decoding through
  FFmpeg.

Laws that relate several functions are public proof functions (their
names start with `lemma_`), next to the functions they speak of.
