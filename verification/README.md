# Media container metadata, verified

A library that reads the headers of media files and reports their
container properties, tracks, codecs, tags, chapters and attachments. Its
parsers are written in Verus, and each states in its contract what it
returns for every input.

Layout:

- `src/source.rs` holds the byte source and the parse errors.
- `src/model.rs` holds the metadata model.
- `src/mp4/` reads ISO base media and QuickTime files: box headers and
  child walks, the movie and track boxes, sample descriptions,
  codec-specific boxes, iTunes and user-data metadata, fragments, track
  assembly, and the first-sample checks on tracks.
- `src/mpeg_ps/` reads MPEG program streams: the packet walk, the program
  stream map, PES headers, stream classification and track assembly.
- `src/mpeg_ts/` reads MPEG transport streams: packets, PAT, PMT and SDT
  sections reassembled across packets, descriptors, stream rows, the
  header walk and track assembly.
- `src/codec.rs` holds the codec names and kinds; `src/text.rs` holds the
  text helpers.
- `app/` reads files from disk, runs the readers in turn, and turns the
  exact sample rates and display matrices into floating-point values.
- `tests/` holds the tests.

Decoding elementary streams (AVC and HEVC parameter sets, MPEG video
sequence headers, AAC, AC-3, DTS, MPEG audio and TrueHD frames) is not
part of this library. Where a track's properties need such a decoder, the
readers hand that track back to the caller, together with the codec and
the decoder it needs, instead of guessing.
