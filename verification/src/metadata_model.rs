use vstd::prelude::*;

use crate::text::clone_text;

verus! {

/// A picture embedded in an audio file.
#[derive(Debug, Clone, PartialEq, Eq)]
pub struct EmbeddedArtwork {
    pub mime_type: Option<String>,
    pub data: Vec<u8>,
}

impl Default for EmbeddedArtwork {
    fn default() -> (r: Self)
        ensures
            r.mime_type is None,
            r.data@.len() == 0,
    {
        EmbeddedArtwork { mime_type: None, data: Vec::new() }
    }
}

/// The tags read from an audio file.
#[derive(Debug, Clone, PartialEq, Eq)]
pub struct EmbeddedMetadata {
    pub title: Option<String>,
    pub artist: Option<String>,
    pub album: Option<String>,
    pub album_artist: Option<String>,
    pub composer: Option<String>,
    pub genre: Option<String>,
    pub date: Option<String>,
    pub track_number: Option<u32>,
    pub disc_number: Option<u32>,
    pub artwork: Option<EmbeddedArtwork>,
}

impl Default for EmbeddedMetadata {
    /// No tags at all.
    fn default() -> (r: Self)
        ensures
            r == (EmbeddedMetadata {
                title: None,
                artist: None,
                album: None,
                album_artist: None,
                composer: None,
                genre: None,
                date: None,
                track_number: None,
                disc_number: None,
                artwork: None,
            }),
    {
        EmbeddedMetadata {
            title: None,
            artist: None,
            album: None,
            album_artist: None,
            composer: None,
            genre: None,
            date: None,
            track_number: None,
            disc_number: None,
            artwork: None,
        }
    }
}

#[derive(Debug, Clone, PartialEq, Eq)]
pub struct NormalizedAlbumMetadata {
    pub album: Option<String>,
    pub album_artist: Option<String>,
    pub date: Option<String>,
    pub genre: Option<String>,
}

impl Default for NormalizedAlbumMetadata {
    fn default() -> (r: Self)
        ensures
            r == (NormalizedAlbumMetadata { album: None, album_artist: None, date: None, genre: None }),
    {
        NormalizedAlbumMetadata { album: None, album_artist: None, date: None, genre: None }
    }
}

#[derive(Debug, Clone, PartialEq, Eq)]
pub struct NormalizedTrackMetadata {
    pub title: Option<String>,
    pub artist: Option<String>,
    pub track_number: Option<u32>,
    pub disc_number: Option<u32>,
    pub composer: Option<String>,
}

impl Default for NormalizedTrackMetadata {
    fn default() -> (r: Self)
        ensures
            r == (NormalizedTrackMetadata {
                title: None,
                artist: None,
                track_number: None,
                disc_number: None,
                composer: None,
            }),
    {
        NormalizedTrackMetadata {
            title: None,
            artist: None,
            track_number: None,
            disc_number: None,
            composer: None,
        }
    }
}

/// The metadata of one audio file, split into album-level and track-level
/// fields.
#[derive(Debug, Clone, PartialEq, Eq)]
pub struct NormalizedMetadata {
    pub source_path: String,
    pub album: NormalizedAlbumMetadata,
    pub track: NormalizedTrackMetadata,
}

/// The normalized form of embedded tags: each tag goes to its album- or
/// track-level field unchanged; the artwork is not part of it.
pub open spec fn normalized_of(source_path: String, e: EmbeddedMetadata) -> NormalizedMetadata {
    NormalizedMetadata {
        source_path,
        album: NormalizedAlbumMetadata {
            album: e.album,
            album_artist: e.album_artist,
            date: e.date,
            genre: e.genre,
        },
        track: NormalizedTrackMetadata {
            title: e.title,
            artist: e.artist,
            track_number: e.track_number,
            disc_number: e.disc_number,
            composer: e.composer,
        },
    }
}

impl NormalizedMetadata {
    pub fn from_embedded(source_path: String, embedded: EmbeddedMetadata) -> (r: Self)
        ensures
            r == normalized_of(source_path, embedded),
    {
        NormalizedMetadata {
            source_path,
            album: NormalizedAlbumMetadata {
                album: embedded.album,
                album_artist: embedded.album_artist,
                date: embedded.date,
                genre: embedded.genre,
            },
            track: NormalizedTrackMetadata {
                title: embedded.title,
                artist: embedded.artist,
                track_number: embedded.track_number,
                disc_number: embedded.disc_number,
                composer: embedded.composer,
            },
        }
    }
}

/// The normalized form of tags read from `path`, leaving the tags as they are.
pub fn normalize_metadata(path: &String, embedded: &EmbeddedMetadata) -> (r: NormalizedMetadata)
    ensures
        r == normalized_of(*path, *embedded),
{
    NormalizedMetadata {
        source_path: path.clone(),
        album: NormalizedAlbumMetadata {
            album: clone_text(&embedded.album),
            album_artist: clone_text(&embedded.album_artist),
            date: clone_text(&embedded.date),
            genre: clone_text(&embedded.genre),
        },
        track: NormalizedTrackMetadata {
            title: clone_text(&embedded.title),
            artist: clone_text(&embedded.artist),
            track_number: embedded.track_number,
            disc_number: embedded.disc_number,
            composer: clone_text(&embedded.composer),
        },
    }
}

/// Track fields a CUE sheet may set.
#[derive(Debug, Clone, PartialEq, Eq)]
pub struct CueMetadataOverride {
    pub title: Option<String>,
    pub artist: Option<String>,
    pub track_number: Option<u32>,
}

impl Default for CueMetadataOverride {
    fn default() -> (r: Self)
        ensures
            r == (CueMetadataOverride { title: None, artist: None, track_number: None }),
    {
        CueMetadataOverride { title: None, artist: None, track_number: None }
    }
}

/// The track metadata after a CUE override: every value the CUE sheet gives
/// wins, every value it lacks keeps the embedded one.
pub open spec fn overridden(t: NormalizedTrackMetadata, cue: CueMetadataOverride) -> NormalizedTrackMetadata {
    NormalizedTrackMetadata {
        title: if cue.title is Some { cue.title } else { t.title },
        artist: if cue.artist is Some { cue.artist } else { t.artist },
        track_number: if cue.track_number is Some { cue.track_number } else { t.track_number },
        ..t
    }
}

impl NormalizedTrackMetadata {
    pub fn apply_cue_override(&mut self, cue: &CueMetadataOverride)
        ensures
            *final(self) == overridden(*old(self), *cue),
    {
        if cue.title.is_some() {
            self.title = clone_text(&cue.title);
        }
        if cue.artist.is_some() {
            self.artist = clone_text(&cue.artist);
        }
        if cue.track_number.is_some() {
            self.track_number = cue.track_number;
        }
    }
}

/// Applying the same CUE override twice changes nothing more than applying it
/// once, and an empty override changes nothing.
pub proof fn lemma_cue_override_is_idempotent(t: NormalizedTrackMetadata, cue: CueMetadataOverride)
    ensures
        overridden(overridden(t, cue), cue) == overridden(t, cue),
        overridden(t, CueMetadataOverride { title: None, artist: None, track_number: None }) == t,
{
}

/// The kind of an embedded picture, as far as artwork selection cares.
#[derive(Debug, Clone, Copy, PartialEq, Eq, Structural)]
pub enum PictureRole {
    CoverFront,
    Other,
    Unlisted,
}

/// The picture used as artwork: the first front cover, else the first picture
/// of type "other", else the first picture.
pub open spec fn artwork_choice(roles: Seq<PictureRole>) -> Option<int> {
    if exists|i: int| 0 <= i < roles.len() && roles[i] is CoverFront {
        Some(choose|i: int| 0 <= i < roles.len() && roles[i] is CoverFront && forall|j: int| 0 <= j < i ==> !(roles[j] is CoverFront))
    } else if exists|i: int| 0 <= i < roles.len() && roles[i] is Other {
        Some(choose|i: int| 0 <= i < roles.len() && roles[i] is Other && forall|j: int| 0 <= j < i ==> !(roles[j] is Other))
    } else if roles.len() > 0 {
        Some(0)
    } else {
        None
    }
}

fn first_with_role(roles: &[PictureRole], role: PictureRole) -> (r: Option<usize>)
    ensures
        match r {
            Some(i) => i < roles@.len() && roles@[i as int] == role && forall|j: int|
                0 <= j < i ==> roles@[j] != role,
            None => forall|j: int| 0 <= j < roles@.len() ==> roles@[j] != role,
        },
{
    let mut i: usize = 0;
    while i < roles.len()
        invariant
            i <= roles@.len(),
            forall|j: int| 0 <= j < i ==> roles@[j] != role,
        decreases roles@.len() - i,
    {
        if roles[i] == role {
            return Some(i);
        }
        i = i + 1;
    }
    None
}

/// Which embedded picture becomes the artwork, by position.
pub fn select_artwork_index(roles: &[PictureRole]) -> (r: Option<usize>)
    ensures
        match r {
            Some(i) => artwork_choice(roles@) == Some(i as int),
            None => artwork_choice(roles@) is None,
        },
{
    match first_with_role(roles, PictureRole::CoverFront) {
        Some(i) => {
            proof {
                assert(roles@[i as int] is CoverFront);
                let k = choose|k: int|
                    0 <= k < roles@.len() && roles@[k] is CoverFront && forall|j: int|
                        0 <= j < k ==> !(roles@[j] is CoverFront);
                if k < i {
                    assert(roles@[k] != PictureRole::CoverFront);
                }
                if i < k {
                    assert(!(roles@[i as int] is CoverFront));
                }
            }
            return Some(i);
        },
        None => {},
    }
    assert(!exists|i: int| 0 <= i < roles@.len() && roles@[i] is CoverFront) by {
        assert forall|i: int| 0 <= i < roles@.len() implies !(roles@[i] is CoverFront) by {
            assert(roles@[i] != PictureRole::CoverFront);
        }
    }
    match first_with_role(roles, PictureRole::Other) {
        Some(i) => {
            proof {
                assert(roles@[i as int] is Other);
                let k = choose|k: int|
                    0 <= k < roles@.len() && roles@[k] is Other && forall|j: int|
                        0 <= j < k ==> !(roles@[j] is Other);
                if k < i {
                    assert(roles@[k] != PictureRole::Other);
                }
                if i < k {
                    assert(!(roles@[i as int] is Other));
                }
            }
            return Some(i);
        },
        None => {},
    }
    assert(!exists|i: int| 0 <= i < roles@.len() && roles@[i] is Other) by {
        assert forall|i: int| 0 <= i < roles@.len() implies !(roles@[i] is Other) by {
            assert(roles@[i] != PictureRole::Other);
        }
    }
    if roles.len() > 0 {
        Some(0)
    } else {
        None
    }
}

} // verus!
