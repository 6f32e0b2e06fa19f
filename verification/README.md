# offline_player

The core of an offline music player: its library model, CUE sheet parsing,
playback state and queue rules, PCM ring and sample-format handling, output
rate policy, and the checks around the C interface, written in Verus with
each public function's behaviour stated as a contract and proved.

## Layout

- `src/` — the verified library.
  - `cue`, `cue_tracks`, `lexical`, `numeric`, `text`: CUE sheet parsing and
    turning a sheet into frame-exact tracks.
  - `library`, `playback_model`, `metadata_model`: assets, tracks, track
    indexes and metadata normalisation.
  - `scanner`, `library_service`, `db`, `store`: what a scan produces and how
    it is checked and recorded.
  - `playback_control`, `playback_queue`, `output_policy`: the playback state
    machine, the queue with its repeat modes, and the output rate choice.
  - `pcm`, `decoder`, `decode_stats`, `platform`: the sample ring, sample
    depth conversion, seeking arithmetic, digests of decoded audio and the
    output callback's decisions.
  - `ffi_model`: result codes, mode codes and buffer checks of the C interface.
- `tests/` — tests of the library on concrete values.
- `app/` — the parts that do I/O or floating point: decoding, the SQLite
  store, metadata reading, directory walking, resampling and equalising, and
  the C interface itself. It calls the library for every decision.
