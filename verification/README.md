# pf4voice

Turns PF4 structured route-guidance messages (a protocol buffer encoding) into
Japanese speech.

- `src/` — the verified library:
  - `wire.rs`: raw protocol buffer fields, read with `protobuf_core`;
  - `pathfinder4.rs`: the PF4 message model, the parser from raw fields to
    guidance (with its error reports), the field dump, and laws of command
    arguments;
  - `request.rs`: a request's base64 data, decoded and parsed;
  - `debug_form.rs`: the debugging form of the message's values, shown in
    error reports;
  - `guidance.rs`: the guidance events and their sample set;
  - `render.rs`: the default Japanese wording of a guidance event, with a slot
    for each distance's number;
  - `voices.rs`: voices, speech texts, their description and pieces, and where
    each piece's audio comes from;
  - `scenarios.rs`: scenarios that turn a request into speech, and finding
    one by name;
  - `text.rs`: text operations with their meaning over character sequences.
- `tests/` — tests of the library.
- `app/` — the HTTP server: request handling, the VOICEVOX client, WAV
  decoding, resampling and encoding.
