//! Core logic of an offline music player: CUE sheet parsing, logical
//! tracks inside audio assets, output-rate planning, the playback queue and
//! the small decision procedures around decoding, storage and playback.

pub mod library;
pub mod playback_model;
pub mod output_policy;
pub mod text;
pub mod numeric;
pub mod lexical;
pub mod cue;
pub mod cue_tracks;
pub mod decoder;
pub mod playback_control;
pub mod playback_queue;
pub mod pcm;
pub mod metadata_model;
pub mod scanner;
pub mod db;
pub mod store;
pub mod ffi_model;
pub mod platform;
pub mod library_service;
pub mod decode_stats;
