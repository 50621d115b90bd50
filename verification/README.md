# qmunlock

The logic behind QM Unlock's desktop tool, written in Verus: the functions
under `src/` carry contracts that Verus proves. The few calls into std and
`plist` whose results cannot be computed here (lossy UTF-8 decoding, Unicode
lowercasing, binary plist output) sit behind small trusted wrappers in
`text` and `qq_attributes`, each with a contract stated from the called
function's documentation or source.

## Layout

- `src/` — the verified library.
  - `bytes`, `flac`, `picture`, `cover`, `stream_info`: FLAC metadata blocks
    (read, write, and the law that reading gives back what was written),
    PICTURE blocks with JPEG/PNG dimensions, and cover replacement that keeps
    every other block and the audio bytes.
  - `text`, `tags`: Vorbis comments and ID3v2 text frames read from bytes.
  - `matching`: whether a catalogue result is the song a file's tags name.
  - `catalog`, `requests`: catalogue answers (as a JSON model) and the URLs
    the tool asks for.
  - `library`: the QQ Music library link — pending-queue bookkeeping, the SQL
    it runs, and the decisions of a flush.
  - `qq_attributes`: the NSKeyedArchiver attribute and the quality markers.
  - `media`, `commands`, `enhance`: file kinds, copy names, notes, and the
    step-by-step enhancement of an output file as a state machine.
- `tests/` — tests run against the compiled library.
- `app/` — ordinary Rust around the library: file, network and process I/O,
  serde copies of the records, and the driver loops of the state machines.
