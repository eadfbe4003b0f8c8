//! Tracks and the metadata extracted for them.
//!
//! A `Track` describes one audio file. It is built from a `RawTags` bag that
//! the tag-extraction collaborator hands in; absent tags fall back to the
//! `@UNKNOWN@` marker. The album identifier is the hexadecimal MD5 digest of
//! the album-name bytes followed by the primary-artist bytes (or the marker
//! when no artist is tagged), so two tracks that agree on that pair always
//! carry the same identifier.

use vstd::prelude::*;
use vstd::utf8::encode_utf8;

use crate::color::{spec_is_light, Color};
use crate::digest::{digest_id, digest_id_of};

verus! {

/// One timestamped lyric line; the timestamp is in milliseconds.
#[derive(Debug)]
pub struct LyricLine {
    pub start_time: i64,
    pub text: String,
}

pub ghost struct LyricLineV {
    pub start_time: i64,
    pub text: Seq<char>,
}

impl View for LyricLine {
    type V = LyricLineV;

    open spec fn view(&self) -> LyricLineV {
        LyricLineV { start_time: self.start_time, text: self.text@ }
    }
}

impl DeepView for LyricLine {
    type V = LyricLineV;

    open spec fn deep_view(&self) -> LyricLineV {
        self@
    }
}

impl Clone for LyricLine {
    fn clone(&self) -> (r: Self)
        ensures
            r@ == self@,
    {
        LyricLine { start_time: self.start_time, text: self.text.clone() }
    }
}

/// An embedded cover image: its raw bytes and the file extension its
/// encoding calls for.
#[derive(Debug)]
pub struct Cover {
    pub data: Vec<u8>,
    pub ext: String,
}

pub ghost struct CoverV {
    pub data: Seq<u8>,
    pub ext: Seq<char>,
}

impl View for Cover {
    type V = CoverV;

    open spec fn view(&self) -> CoverV {
        CoverV { data: self.data@, ext: self.ext@ }
    }
}

impl DeepView for Cover {
    type V = CoverV;

    open spec fn deep_view(&self) -> CoverV {
        self@
    }
}

/// The image encoding of an embedded cover, as the tag reports it.
#[derive(Debug)]
pub enum CoverMime {
    Png,
    Jpeg,
    Tiff,
    Bmp,
    Gif,
    Other(String),
}

/// The file extension used for a cover of the given encoding.
pub open spec fn spec_ext_of(m: CoverMime) -> Seq<char> {
    match m {
        CoverMime::Png => ".png"@,
        CoverMime::Jpeg => ".jpeg"@,
        CoverMime::Tiff => ".tiff"@,
        CoverMime::Bmp => ".bmp"@,
        CoverMime::Gif => ".gif"@,
        CoverMime::Other(o) => "."@ + o@,
    }
}

/// Map a cover encoding to the extension its cache file is stored under.
pub fn ext_of(m: &CoverMime) -> (r: String)
    ensures
        r@ == spec_ext_of(*m),
{
    match m {
        CoverMime::Png => ".png".to_owned(),
        CoverMime::Jpeg => ".jpeg".to_owned(),
        CoverMime::Tiff => ".tiff".to_owned(),
        CoverMime::Bmp => ".bmp".to_owned(),
        CoverMime::Gif => ".gif".to_owned(),
        CoverMime::Other(o) => {
            let mut r = ".".to_owned();
            r.append(o.as_str());
            r
        },
    }
}

/// The container format of an audio file, as the tag reader classifies it.
#[derive(Debug, Clone, Copy, PartialEq, Eq, Structural)]
pub enum AudioKind {
    Aac,
    Aiff,
    Ape,
    Flac,
    Mpeg,
    Mp4,
    Mpc,
    Opus,
    Vorbis,
    Speex,
    Wav,
    WavPack,
    Unknown,
}

/// The MIME type a track of the given container format is served under.
pub open spec fn spec_mime_of(k: AudioKind) -> Seq<char> {
    match k {
        AudioKind::Aac => "audio/aac"@,
        AudioKind::Aiff => "audio/aiff"@,
        AudioKind::Ape => "audio/ape"@,
        AudioKind::Flac => "audio/flac"@,
        AudioKind::Mpeg => "audio/mpeg"@,
        AudioKind::Mp4 => "audio/mp4"@,
        AudioKind::Mpc => "audio/mpc"@,
        AudioKind::Opus => "audio/webm"@,
        AudioKind::Vorbis => "audio/webm"@,
        AudioKind::Speex => "audio/speex"@,
        AudioKind::Wav => "audio/wav"@,
        AudioKind::WavPack => "audio/wav"@,
        AudioKind::Unknown => "application/octet-stream"@,
    }
}

/// Map a container format to the MIME type it is served under.
pub fn mime_of(k: AudioKind) -> (r: String)
    ensures
        r@ == spec_mime_of(k),
{
    match k {
        AudioKind::Aac => "audio/aac".to_owned(),
        AudioKind::Aiff => "audio/aiff".to_owned(),
        AudioKind::Ape => "audio/ape".to_owned(),
        AudioKind::Flac => "audio/flac".to_owned(),
        AudioKind::Mpeg => "audio/mpeg".to_owned(),
        AudioKind::Mp4 => "audio/mp4".to_owned(),
        AudioKind::Mpc => "audio/mpc".to_owned(),
        AudioKind::Opus => "audio/webm".to_owned(),
        AudioKind::Vorbis => "audio/webm".to_owned(),
        AudioKind::Speex => "audio/speex".to_owned(),
        AudioKind::Wav => "audio/wav".to_owned(),
        AudioKind::WavPack => "audio/wav".to_owned(),
        AudioKind::Unknown => "application/octet-stream".to_owned(),
    }
}

/// The raw metadata the tag-extraction collaborator reports for one file.
#[derive(Debug)]
pub struct RawTags {
    pub title: Option<String>,
    pub artists: Vec<String>,
    pub album: Option<String>,
    pub album_artist: Option<String>,
    pub track_no: Option<u32>,
    pub year: Option<u32>,
    pub duration: u64,
    pub bitrate: u32,
    pub kind: AudioKind,
    pub cover: Option<Cover>,
}

pub ghost struct RawTagsV {
    pub title: Option<Seq<char>>,
    pub artists: Seq<Seq<char>>,
    pub album: Option<Seq<char>>,
    pub album_artist: Option<Seq<char>>,
    pub track_no: Option<u32>,
    pub year: Option<u32>,
    pub duration: u64,
    pub bitrate: u32,
    pub kind: AudioKind,
    pub cover: Option<CoverV>,
}

impl View for RawTags {
    type V = RawTagsV;

    open spec fn view(&self) -> RawTagsV {
        RawTagsV {
            title: self.title.deep_view(),
            artists: self.artists.deep_view(),
            album: self.album.deep_view(),
            album_artist: self.album_artist.deep_view(),
            track_no: self.track_no,
            year: self.year,
            duration: self.duration,
            bitrate: self.bitrate,
            kind: self.kind,
            cover: self.cover.deep_view(),
        }
    }
}

/// The sentinel that stands in for an absent album, title or artist tag.
pub open spec fn unknown_marker() -> Seq<char> {
    "@UNKNOWN@"@
}

/// The artist whose name enters the album identity: the first tagged
/// artist, or the unknown marker when none is tagged.
pub open spec fn primary_artist_of(artists: Seq<Seq<char>>) -> Seq<char> {
    if artists.len() > 0 {
        artists[0]
    } else {
        unknown_marker()
    }
}

/// The byte string whose digest is the album identifier: the album-name
/// bytes followed by the primary-artist bytes.
pub open spec fn album_key_of(album: Seq<char>, artists: Seq<Seq<char>>) -> Seq<u8> {
    encode_utf8(album) + encode_utf8(primary_artist_of(artists))
}

/// The album identifier derived from an album name and an artist list.
pub open spec fn album_id_of(album: Seq<char>, artists: Seq<Seq<char>>) -> Seq<char> {
    digest_id_of(album_key_of(album, artists))
}

/// One audio file of the collection.
#[derive(Debug)]
pub struct Track {
    pub title: String,
    pub artists: Vec<String>,
    pub track: u32,
    pub album: String,
    pub album_artist: Option<String>,
    pub album_id: String,
    pub cover_ext: String,
    pub mime: String,
    pub album_year: Option<u32>,
    pub lyrics: Vec<LyricLine>,
    pub color: Option<Color>,
    pub is_light: Option<bool>,
    pub file_path: String,
    pub duration: u64,
    pub bitrate: u32,
    pub id: String,
    pub created_at: u64,
}

pub ghost struct TrackV {
    pub title: Seq<char>,
    pub artists: Seq<Seq<char>>,
    pub track: u32,
    pub album: Seq<char>,
    pub album_artist: Option<Seq<char>>,
    pub album_id: Seq<char>,
    pub cover_ext: Seq<char>,
    pub mime: Seq<char>,
    pub album_year: Option<u32>,
    pub lyrics: Seq<LyricLineV>,
    pub color: Option<Color>,
    pub is_light: Option<bool>,
    pub file_path: Seq<char>,
    pub duration: u64,
    pub bitrate: u32,
    pub id: Seq<char>,
    pub created_at: u64,
}

impl View for Track {
    type V = TrackV;

    open spec fn view(&self) -> TrackV {
        TrackV {
            title: self.title@,
            artists: self.artists.deep_view(),
            track: self.track,
            album: self.album@,
            album_artist: self.album_artist.deep_view(),
            album_id: self.album_id@,
            cover_ext: self.cover_ext@,
            mime: self.mime@,
            album_year: self.album_year,
            lyrics: self.lyrics.deep_view(),
            color: self.color,
            is_light: self.is_light,
            file_path: self.file_path@,
            duration: self.duration,
            bitrate: self.bitrate,
            id: self.id@,
            created_at: self.created_at,
        }
    }
}

impl DeepView for Track {
    type V = TrackV;

    open spec fn deep_view(&self) -> TrackV {
        self@
    }
}

/// A track carries the album identifier derived from its own album name
/// and artist list.
pub open spec fn track_well_keyed(t: TrackV) -> bool {
    t.album_id == album_id_of(t.album, t.artists)
}

fn clone_string_vec(v: &Vec<String>) -> (r: Vec<String>)
    ensures
        r@ == v@,
{
    let mut r: Vec<String> = Vec::new();
    let mut i: usize = 0;
    while i < v.len()
        invariant
            i <= v.len(),
            r@ =~= v@.subrange(0, i as int),
        decreases v.len() - i,
    {
        r.push(v[i].clone());
        proof {
            assert(r@ =~= v@.subrange(0, i + 1 as int));
        }
        i = i + 1;
    }
    proof {
        assert(r@ =~= v@);
    }
    r
}

fn clone_lyrics(v: &Vec<LyricLine>) -> (r: Vec<LyricLine>)
    ensures
        r.deep_view() == v.deep_view(),
{
    let mut r: Vec<LyricLine> = Vec::new();
    let mut i: usize = 0;
    while i < v.len()
        invariant
            i <= v.len(),
            r@.len() == i,
            forall|j: int| 0 <= j < i ==> r@[j]@ == v@[j]@,
        decreases v.len() - i,
    {
        r.push(v[i].clone());
        i = i + 1;
    }
    proof {
        assert forall|j: int| 0 <= j < v@.len() implies r.deep_view()[j] == v.deep_view()[j] by {
            assert(r@[j]@ == v@[j]@);
        }
        assert(r.deep_view() =~= v.deep_view());
    }
    r
}

fn clone_opt_string(v: &Option<String>) -> (r: Option<String>)
    ensures
        r.deep_view() == v.deep_view(),
{
    match v {
        Some(s) => Some(s.clone()),
        None => None,
    }
}

impl Clone for Track {
    fn clone(&self) -> (r: Self)
        ensures
            r@ == self@,
    {
        let r = Track {
            title: self.title.clone(),
            artists: clone_string_vec(&self.artists),
            track: self.track,
            album: self.album.clone(),
            album_artist: clone_opt_string(&self.album_artist),
            album_id: self.album_id.clone(),
            cover_ext: self.cover_ext.clone(),
            mime: self.mime.clone(),
            album_year: self.album_year,
            lyrics: clone_lyrics(&self.lyrics),
            color: self.color,
            is_light: self.is_light,
            file_path: self.file_path.clone(),
            duration: self.duration,
            bitrate: self.bitrate,
            id: self.id.clone(),
            created_at: self.created_at,
        };
        proof {
            assert(r.artists.deep_view() =~= self.artists.deep_view());
        }
        r
    }
}

/// Relies on uuid::Uuid::new_v4: a fresh random value; nothing is promised
/// of it.
#[verifier::external_body]
fn fresh_u128() -> u128 {
    uuid::Uuid::new_v4().as_u128()
}

/// Draw a fresh opaque track identifier: 32 hexadecimal digits, unique per
/// process lifetime up to random collision.
pub fn fresh_track_id() -> (r: String)
    ensures
        r@.len() == 32,
{
    let x = fresh_u128();
    let mut bytes: Vec<u8> = Vec::new();
    let mut v = x;
    let mut i: usize = 0;
    while i < 16
        invariant
            i <= 16,
            bytes@.len() == i,
        decreases 16 - i,
    {
        bytes.push((v % 256) as u8);
        v = v / 256;
        i = i + 1;
    }
    proof {
        crate::digest::lemma_hex_of_len(bytes@);
    }
    crate::digest::to_hex(&bytes)
}

/// Compute the album identifier for an album name and an artist list.
pub fn compute_album_id(album: &String, artists: &Vec<String>) -> (r: String)
    ensures
        r@ == album_id_of(album@, artists.deep_view()),
{
    let mut bytes = album.as_str().as_bytes_vec();
    let mut artist_bytes = if artists.len() > 0 {
        let a: &String = &artists[0];
        proof {
            assert(artists.deep_view()[0] == artists@[0]@);
        }
        a.as_str().as_bytes_vec()
    } else {
        "@UNKNOWN@".as_bytes_vec()
    };
    bytes.append(&mut artist_bytes);
    proof {
        assert(bytes@ == album_key_of(album@, artists.deep_view()));
    }
    digest_id(&bytes)
}

impl Track {
    /// Build a track from the raw tags read for `file_path`.
    ///
    /// Absent title and album tags fall back to the unknown marker; an
    /// absent track number becomes 0. The album identifier is derived from
    /// the album name and the primary artist. Lyrics and cover colour are
    /// attached separately, once their collaborators have run.
    pub fn from_tags(file_path: String, raw: &RawTags, id: String, created_at: u64) -> (t: Track)
        ensures
            t@.title == (match raw@.title {
                Some(s) => s,
                None => unknown_marker(),
            }),
            t@.artists == raw@.artists,
            t@.track == (match raw@.track_no {
                Some(n) => n,
                None => 0u32,
            }),
            t@.album == (match raw@.album {
                Some(s) => s,
                None => unknown_marker(),
            }),
            t@.album_artist == raw@.album_artist,
            t@.album_id == album_id_of(t@.album, t@.artists),
            t@.cover_ext == (match raw@.cover {
                Some(c) => c.ext,
                None => ".png"@,
            }),
            t@.mime == spec_mime_of(raw@.kind),
            t@.album_year == raw@.year,
            t@.lyrics == Seq::<LyricLineV>::empty(),
            t@.color is None,
            t@.is_light is None,
            t@.file_path == file_path@,
            t@.duration == raw@.duration,
            t@.bitrate == raw@.bitrate,
            t@.id == id@,
            t@.created_at == created_at,
            track_well_keyed(t@),
    {
        let title = match &raw.title {
            Some(s) => s.clone(),
            None => "@UNKNOWN@".to_owned(),
        };
        let album = match &raw.album {
            Some(s) => s.clone(),
            None => "@UNKNOWN@".to_owned(),
        };
        let artists = clone_string_vec(&raw.artists);
        let album_id = compute_album_id(&album, &artists);
        let cover_ext = match &raw.cover {
            Some(c) => c.ext.clone(),
            None => ".png".to_owned(),
        };
        let t = Track {
            title,
            artists,
            track: match raw.track_no {
                Some(n) => n,
                None => 0,
            },
            album,
            album_artist: clone_opt_string(&raw.album_artist),
            album_id,
            cover_ext,
            mime: mime_of(raw.kind),
            album_year: raw.year,
            lyrics: Vec::new(),
            color: None,
            is_light: None,
            file_path,
            duration: raw.duration,
            bitrate: raw.bitrate,
            id,
            created_at,
        };
        proof {
            assert(t.lyrics.deep_view() =~= Seq::<LyricLineV>::empty());
        }
        t
    }

    /// Record the dominant colour extracted from the track's cover, and its
    /// light/dark classification.
    pub fn set_cover_color(&mut self, c: Color)
        ensures
            final(self)@ == (TrackV {
                color: Some(c),
                is_light: Some(spec_is_light(c)),
                ..old(self)@
            }),
    {
        self.is_light = Some(c.is_light_color());
        self.color = Some(c);
    }

    /// Attach the parsed lyric lines.
    pub fn set_lyrics(&mut self, lines: Vec<LyricLine>)
        ensures
            final(self)@ == (TrackV { lyrics: lines.deep_view(), ..old(self)@ }),
    {
        self.lyrics = lines;
    }
}

} // verus!
