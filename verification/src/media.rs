//! The catalog: grouping tracks into albums and maintaining the published
//! snapshot.
//!
//! Tracks are grouped by album identifier. The first track seen for an
//! identifier fixes the album's name, artist and year; the album keeps its
//! tracks in the order they were seen. A published catalog never contains
//! an album without tracks.

use vstd::prelude::*;

use crate::album::{remove_path, string_eq, tracks_find, Album, AlbumV};
use crate::playlist::{Playlist, PlaylistV};
use crate::track::{primary_artist_of, Track, TrackV};

verus! {

/// The tracks of `tracks` carrying album identifier `id`, in order.
pub open spec fn group_of(tracks: Seq<TrackV>, id: Seq<char>) -> Seq<TrackV>
    decreases tracks.len(),
{
    if tracks.len() == 0 {
        Seq::empty()
    } else {
        group_of(tracks.drop_last(), id) + (if tracks.last().album_id == id {
            seq![tracks.last()]
        } else {
            Seq::empty()
        })
    }
}

/// The artist an album built from first track `t` is credited to: the
/// album-artist tag if present, else the track's primary artist.
pub open spec fn spec_album_artist(t: TrackV) -> Seq<char> {
    match t.album_artist {
        Some(a) => a,
        None => primary_artist_of(t.artists),
    }
}

/// The album's metadata comes from the first track grouped into it.
pub open spec fn album_meta_ok(a: AlbumV) -> bool {
    &&& a.tracks.len() > 0
    &&& a.name == a.tracks[0].album
    &&& a.artist == spec_album_artist(a.tracks[0])
    &&& a.year == a.tracks[0].album_year
    &&& a.id == a.tracks[0].album_id
}

/// `albums` is exactly the grouping of `tracks` by album identifier:
/// each album holds the tracks carrying its identifier in order, no album
/// is empty, identifiers are distinct, every track is covered, and each
/// album's metadata comes from its first track.
pub open spec fn grouped(albums: Seq<AlbumV>, tracks: Seq<TrackV>) -> bool {
    &&& forall|i: int|
        0 <= i < albums.len() ==> (#[trigger] albums[i]).tracks == group_of(tracks, albums[i].id)
    &&& forall|i: int, j: int| 0 <= i < j < albums.len() ==> albums[i].id != albums[j].id
    &&& forall|k: int|
        0 <= k < tracks.len() ==> exists|i: int|
            0 <= i < albums.len() && albums[i].id == (#[trigger] tracks[k]).album_id
    &&& forall|i: int| 0 <= i < albums.len() ==> album_meta_ok(#[trigger] albums[i])
}

/// Grouping a track list that has no track with identifier `id` yields no
/// group for `id`.
pub proof fn lemma_group_of_absent(tracks: Seq<TrackV>, id: Seq<char>)
    requires
        forall|k: int| 0 <= k < tracks.len() ==> (#[trigger] tracks[k]).album_id != id,
    ensures
        group_of(tracks, id) == Seq::<TrackV>::empty(),
    decreases tracks.len(),
{
    if tracks.len() > 0 {
        lemma_group_of_absent(tracks.drop_last(), id);
        assert(group_of(tracks, id) =~= Seq::<TrackV>::empty());
    }
}

/// Every track of a group occurs in the grouped list and carries the
/// group's identifier.
pub proof fn lemma_group_of_members(tracks: Seq<TrackV>, id: Seq<char>)
    ensures
        forall|k: int|
            0 <= k < group_of(tracks, id).len() ==> tracks.contains(
                #[trigger] group_of(tracks, id)[k],
            ) && group_of(tracks, id)[k].album_id == id,
    decreases tracks.len(),
{
    if tracks.len() > 0 {
        lemma_group_of_members(tracks.drop_last(), id);
        assert forall|k: int| 0 <= k < group_of(tracks, id).len() implies tracks.contains(
            #[trigger] group_of(tracks, id)[k],
        ) && group_of(tracks, id)[k].album_id == id by {
            let g = group_of(tracks, id);
            let gp = group_of(tracks.drop_last(), id);
            if k < gp.len() {
                assert(tracks.drop_last().contains(gp[k]));
                let w = choose|w: int| 0 <= w < tracks.drop_last().len()
                    && tracks.drop_last()[w] == gp[k];
                assert(tracks[w] == gp[k]);
            } else {
                assert(g[k] == tracks.last());
                assert(tracks[tracks.len() - 1] == tracks.last());
            }
        }
    }
}

/// Build a one-track album around `t`, taking the album metadata from it.
fn album_from_track(t: Track) -> (a: Album)
    ensures
        a@.name == t@.album,
        a@.artist == spec_album_artist(t@),
        a@.year == t@.album_year,
        a@.id == t@.album_id,
        a@.tracks == seq![t@],
{
    let name = t.album.clone();
    let artist = match &t.album_artist {
        Some(a) => a.clone(),
        None => {
            if t.artists.len() > 0 {
                proof {
                    assert(t.artists.deep_view()[0] == t.artists@[0]@);
                }
                t.artists[0].clone()
            } else {
                "@UNKNOWN@".to_owned()
            }
        },
    };
    let year = t.album_year;
    let id = t.album_id.clone();
    let ghost tv = t@;
    let mut tracks: Vec<Track> = Vec::new();
    tracks.push(t);
    proof {
        assert(tracks.deep_view() =~= seq![tv]);
    }
    Album { name, artist, tracks, year, id }
}

/// The tracks extracted in one scan, before grouping.
#[derive(Debug)]
pub struct Songs {
    pub audios: Vec<Track>,
}

pub ghost struct SongsV {
    pub audios: Seq<TrackV>,
}

impl View for Songs {
    type V = SongsV;

    open spec fn view(&self) -> SongsV {
        SongsV { audios: self.audios.deep_view() }
    }
}

impl Songs {
    /// Collect extracted tracks for grouping.
    pub fn new(audios: Vec<Track>) -> (r: Songs)
        ensures
            r@.audios == audios.deep_view(),
    {
        Songs { audios }
    }

    /// Group the tracks into albums by album identifier. Albums appear in
    /// first-seen order; each keeps its tracks in scan order.
    pub fn get_albums(self) -> (r: Vec<Album>)
        ensures
            grouped(r.deep_view(), self@.audios),
    {
        let ghost all = self.audios.deep_view();
        let mut albums: Vec<Album> = Vec::new();
        let mut i: usize = 0;
        proof {
            assert(all.subrange(0, 0) =~= Seq::<TrackV>::empty());
        }
        while i < self.audios.len()
            invariant
                i <= self.audios.len(),
                all == self.audios.deep_view(),
                grouped(albums.deep_view(), all.subrange(0, i as int)),
            decreases self.audios.len() - i,
        {
            let ghost pre = all.subrange(0, i as int);
            let ghost cur = all.subrange(0, i + 1 as int);
            let t = self.audios[i].clone();
            proof {
                assert(cur.drop_last() =~= pre);
                assert(cur.last() == t@);
            }
            let ghost dv = albums.deep_view();

            // Find the first album already carrying this track's identifier.
            let mut f: usize = albums.len();
            let mut j: usize = 0;
            while j < albums.len()
                invariant
                    j <= albums.len(),
                    dv == albums.deep_view(),
                    f == albums.len() || f < j,
                    f == albums.len() ==> forall|p: int|
                        0 <= p < j ==> (#[trigger] dv[p]).id != t@.album_id,
                    f < albums.len() ==> dv[f as int].id == t@.album_id,
                decreases albums.len() - j,
            {
                if f == albums.len() && string_eq(&albums[j].id, &t.album_id) {
                    proof {
                        assert(dv[j as int].id == t@.album_id);
                    }
                    f = j;
                }
                j = j + 1;
            }

            if f < albums.len() {
                let ghost old_albums = albums.deep_view();
                let mut a = albums.remove(f);
                a.tracks.push(t);
                proof {
                    assert(a.tracks.deep_view() =~= old_albums[f as int].tracks.push(cur.last()));
                }
                let ghost av = a@;
                albums.insert(f, a);
                proof {
                    let ndv = albums.deep_view();
                    assert(ndv =~= old_albums.update(f as int, av));
                    assert forall|q: int| 0 <= q < ndv.len() implies (#[trigger] ndv[q]).tracks
                        == group_of(cur, ndv[q].id) && album_meta_ok(ndv[q]) by {
                        if q == f {
                            assert(group_of(cur, ndv[q].id)
                                == group_of(pre, ndv[q].id) + seq![cur.last()]);
                            assert(ndv[q].tracks =~= group_of(cur, ndv[q].id));
                            assert(ndv[q].tracks[0] == old_albums[q].tracks[0]);
                        } else {
                            assert(ndv[q] == old_albums[q]);
                            assert(old_albums[q].id != t@.album_id);
                            assert(group_of(cur, ndv[q].id) =~= group_of(pre, ndv[q].id));
                        }
                    }
                    assert forall|k: int| 0 <= k < cur.len() implies exists|q: int|
                        0 <= q < ndv.len() && ndv[q].id == (#[trigger] cur[k]).album_id by {
                        if k < pre.len() {
                            assert(cur[k] == pre[k]);
                            let w = choose|w: int| 0 <= w < old_albums.len()
                                && old_albums[w].id == pre[k].album_id;
                            assert(ndv[w].id == cur[k].album_id);
                        } else {
                            assert(cur[k] == cur.last());
                            assert(ndv[f as int].id == cur[k].album_id);
                        }
                    }
                    assert(grouped(ndv, cur));
                }
            } else {
                let ghost old_albums = albums.deep_view();
                proof {
                    assert forall|k: int| 0 <= k < pre.len() implies (#[trigger] pre[k]).album_id
                        != t@.album_id by {
                        let w = choose|w: int| 0 <= w < old_albums.len()
                            && old_albums[w].id == pre[k].album_id;
                    }
                    lemma_group_of_absent(pre, t@.album_id);
                }
                let a = album_from_track(t);
                let ghost av = a@;
                albums.push(a);
                proof {
                    let ndv = albums.deep_view();
                    assert(ndv =~= old_albums.push(av));
                    assert forall|q: int| 0 <= q < ndv.len() implies (#[trigger] ndv[q]).tracks
                        == group_of(cur, ndv[q].id) && album_meta_ok(ndv[q]) by {
                        if q < old_albums.len() {
                            assert(ndv[q] == old_albums[q]);
                            assert(old_albums[q].id != cur.last().album_id);
                            assert(group_of(cur, ndv[q].id) =~= group_of(pre, ndv[q].id));
                        } else {
                            assert(ndv[q] == av);
                            assert(group_of(cur, av.id)
                                == group_of(pre, av.id) + seq![cur.last()]);
                            assert(ndv[q].tracks =~= group_of(cur, ndv[q].id));
                            assert(ndv[q].tracks[0] == cur.last());
                        }
                    }
                    assert forall|k: int| 0 <= k < cur.len() implies exists|q: int|
                        0 <= q < ndv.len() && ndv[q].id == (#[trigger] cur[k]).album_id by {
                        if k < pre.len() {
                            assert(cur[k] == pre[k]);
                            let w = choose|w: int| 0 <= w < old_albums.len()
                                && old_albums[w].id == pre[k].album_id;
                            assert(ndv[w].id == cur[k].album_id);
                        } else {
                            assert(ndv[old_albums.len() as int].id == (#[trigger] cur[k]).album_id);
                        }
                    }
                    assert(grouped(ndv, cur));
                }
            }
            i = i + 1;
        }
        proof {
            assert(all.subrange(0, all.len() as int) =~= all);
        }
        albums
    }
}

/// The album a lone track founds: metadata and identifier from the track.
pub open spec fn album_of_track(t: TrackV) -> AlbumV {
    AlbumV {
        name: t.album,
        artist: spec_album_artist(t),
        tracks: seq![t],
        year: t.album_year,
        id: t.album_id,
    }
}

/// The first album of `albums` with identifier `id`, if any.
pub open spec fn albums_find(albums: Seq<AlbumV>, id: Seq<char>) -> Option<AlbumV>
    decreases albums.len(),
{
    if albums.len() == 0 {
        None
    } else if albums[0].id == id {
        Some(albums[0])
    } else {
        albums_find(albums.drop_first(), id)
    }
}

/// The first track with identifier `id` found walking the albums in order.
pub open spec fn albums_song_find(albums: Seq<AlbumV>, id: Seq<char>) -> Option<TrackV>
    decreases albums.len(),
{
    if albums.len() == 0 {
        None
    } else {
        match tracks_find(albums[0].tracks, id) {
            Some(t) => Some(t),
            None => albums_song_find(albums.drop_first(), id),
        }
    }
}

/// The first track with identifier `id` found walking the playlists in
/// order.
pub open spec fn lists_song_find(lists: Seq<PlaylistV>, id: Seq<char>) -> Option<TrackV>
    decreases lists.len(),
{
    if lists.len() == 0 {
        None
    } else {
        match tracks_find(lists[0].tracks, id) {
            Some(t) => Some(t),
            None => lists_song_find(lists.drop_first(), id),
        }
    }
}

/// Strip every track with file path `p` from each album, then drop albums
/// left without tracks.
pub open spec fn remove_song_from_albums(albums: Seq<AlbumV>, p: Seq<char>) -> Seq<AlbumV>
    decreases albums.len(),
{
    if albums.len() == 0 {
        Seq::empty()
    } else {
        remove_song_from_albums(albums.drop_last(), p) + {
            let kept = remove_path(albums.last().tracks, p);
            if kept.len() > 0 {
                seq![AlbumV { tracks: kept, ..albums.last() }]
            } else {
                Seq::empty()
            }
        }
    }
}

/// Drop every playlist whose path is `p`, keeping the rest in order.
pub open spec fn remove_list_by_path(lists: Seq<PlaylistV>, p: Seq<char>) -> Seq<PlaylistV>
    decreases lists.len(),
{
    if lists.len() == 0 {
        Seq::empty()
    } else {
        remove_list_by_path(lists.drop_last(), p) + (if lists.last().path != p {
            seq![lists.last()]
        } else {
            Seq::empty()
        })
    }
}

/// Whether a path names a playlist file: it ends in `.m3u8`.
pub open spec fn spec_is_playlist_path(p: Seq<char>) -> bool {
    &&& p.len() >= 5
    &&& p[p.len() - 5] == '.'
    &&& p[p.len() - 4] == 'm'
    &&& p[p.len() - 3] == '3'
    &&& p[p.len() - 2] == 'u'
    &&& p[p.len() - 1] == '8'
}

/// Decide whether a path names a playlist file (extension `.m3u8`).
pub fn is_playlist_path(p: &String) -> (r: bool)
    ensures
        r == spec_is_playlist_path(p@),
{
    let n = p.as_str().unicode_len();
    if n < 5 {
        return false;
    }
    let s = p.as_str();
    s.get_char(n - 5) == '.' && s.get_char(n - 4) == 'm' && s.get_char(n - 3) == '3'
        && s.get_char(n - 2) == 'u' && s.get_char(n - 1) == '8'
}

/// One item handed in by the extraction step: a parsed track or a parsed
/// playlist.
#[derive(Debug)]
pub enum MediaEntry {
    Song(Track),
    List(Playlist),
}

/// The published catalog: all albums and playlists of one build.
#[derive(Debug)]
pub struct Media {
    pub albums: Vec<Album>,
    pub playlists: Vec<Playlist>,
}

pub ghost struct MediaV {
    pub albums: Seq<AlbumV>,
    pub playlists: Seq<PlaylistV>,
}

impl View for Media {
    type V = MediaV;

    open spec fn view(&self) -> MediaV {
        MediaV { albums: self.albums.deep_view(), playlists: self.playlists.deep_view() }
    }
}

fn clone_album_vec(v: &Vec<Album>) -> (r: Vec<Album>)
    ensures
        r.deep_view() == v.deep_view(),
{
    let mut r: Vec<Album> = Vec::new();
    let mut i: usize = 0;
    while i < v.len()
        invariant
            i <= v.len(),
            r@.len() == i,
            forall|j: int| 0 <= j < i ==> r@[j]@ == v@[j]@,
        decreases v.len() - i,
    {
        r.push(v[i].clone());
        i = i + 1;
    }
    proof {
        assert forall|j: int| 0 <= j < v@.len() implies r.deep_view()[j] == v.deep_view()[j] by {
            assert(r@[j]@ == v@[j]@);
        }
        assert(r.deep_view() =~= v.deep_view());
    }
    r
}

fn clone_playlist_vec(v: &Vec<Playlist>) -> (r: Vec<Playlist>)
    ensures
        r.deep_view() == v.deep_view(),
{
    let mut r: Vec<Playlist> = Vec::new();
    let mut i: usize = 0;
    while i < v.len()
        invariant
            i <= v.len(),
            r@.len() == i,
            forall|j: int| 0 <= j < i ==> r@[j]@ == v@[j]@,
        decreases v.len() - i,
    {
        r.push(v[i].clone());
        i = i + 1;
    }
    proof {
        assert forall|j: int| 0 <= j < v@.len() implies r.deep_view()[j] == v.deep_view()[j] by {
            assert(r@[j]@ == v@[j]@);
        }
        assert(r.deep_view() =~= v.deep_view());
    }
    r
}

impl Clone for Media {
    fn clone(&self) -> (r: Self)
        ensures
            r@ == self@,
    {
        Media {
            albums: clone_album_vec(&self.albums),
            playlists: clone_playlist_vec(&self.playlists),
        }
    }
}

impl Media {
    /// Build a catalog by grouping the scanned tracks; playlists start
    /// empty.
    pub fn new(songs: Songs) -> (r: Media)
        ensures
            grouped(r@.albums, songs@.audios),
            r@.playlists == Seq::<PlaylistV>::empty(),
    {
        let ghost audios = songs@.audios;
        let albums = songs.get_albums();
        let r = Media { albums, playlists: Vec::new() };
        proof {
            assert(r@.playlists =~= Seq::<PlaylistV>::empty());
        }
        r
    }

    /// Merge one track: append it to the first album already carrying its
    /// identifier, or found a new album for it.
    pub fn add_song(&mut self, song: Track)
        ensures
            final(self)@.playlists == old(self)@.playlists,
            (forall|p: int|
                0 <= p < old(self)@.albums.len() ==> (#[trigger] old(self)@.albums[p]).id
                    != song@.album_id) ==> final(self)@.albums == old(self)@.albums.push(
                album_of_track(song@),
            ),
            forall|f: int|
                (0 <= f < old(self)@.albums.len() && old(self)@.albums[f].id == song@.album_id
                    && (forall|p: int|
                    0 <= p < f ==> (#[trigger] old(self)@.albums[p]).id != song@.album_id))
                    ==> final(self)@.albums == old(self)@.albums.update(
                    f,
                    (AlbumV {
                        tracks: old(self)@.albums[f].tracks.push(song@),
                        ..old(self)@.albums[f]
                    }),
                ),
    {
        let ghost dv = self.albums.deep_view();
        let mut f: usize = self.albums.len();
        let mut j: usize = 0;
        while j < self.albums.len()
            invariant
                j <= self.albums.len(),
                dv == self.albums.deep_view(),
                f == self.albums.len() || f < j,
                f == self.albums@.len() ==> forall|p: int|
                    0 <= p < j ==> (#[trigger] dv[p]).id != song@.album_id,
                f < self.albums@.len() ==> dv[f as int].id == song@.album_id && forall|p: int|
                    0 <= p < f ==> (#[trigger] dv[p]).id != song@.album_id,
            decreases self.albums.len() - j,
        {
            if f == self.albums.len() && string_eq(&self.albums[j].id, &song.album_id) {
                proof {
                    assert(dv[j as int].id == song@.album_id);
                }
                f = j;
            }
            j = j + 1;
        }
        if f < self.albums.len() {
            let ghost sv = song@;
            let mut a = self.albums.remove(f);
            a.tracks.push(song);
            proof {
                assert(a.tracks.deep_view() =~= dv[f as int].tracks.push(sv));
            }
            let ghost av = a@;
            self.albums.insert(f, a);
            proof {
                assert(self.albums.deep_view() =~= dv.update(f as int, av));
            }
        } else {
            let a = album_from_track(song);
            let ghost av = a@;
            self.albums.push(a);
            proof {
                assert(self.albums.deep_view() =~= dv.push(av));
            }
        }
    }

    /// Merge one extracted item, track or playlist.
    pub fn add_media(&mut self, entry: MediaEntry)
        ensures
            entry matches MediaEntry::List(l) ==> final(self)@.albums == old(self)@.albums
                && final(self)@.playlists == old(self)@.playlists.push(l@),
            entry matches MediaEntry::Song(song) ==> {
                &&& final(self)@.playlists == old(self)@.playlists
                &&& (forall|p: int|
                    0 <= p < old(self)@.albums.len() ==> (#[trigger] old(self)@.albums[p]).id
                        != song@.album_id) ==> final(self)@.albums == old(self)@.albums.push(
                    album_of_track(song@),
                )
                &&& forall|f: int|
                    (0 <= f < old(self)@.albums.len() && old(self)@.albums[f].id == song@.album_id
                        && (forall|p: int|
                        0 <= p < f ==> (#[trigger] old(self)@.albums[p]).id != song@.album_id))
                        ==> final(self)@.albums == old(self)@.albums.update(
                        f,
                        (AlbumV {
                            tracks: old(self)@.albums[f].tracks.push(song@),
                            ..old(self)@.albums[f]
                        }),
                    )
            },
    {
        match entry {
            MediaEntry::Song(song) => self.add_song(song),
            MediaEntry::List(l) => self.add_playlist(l),
        }
    }

    /// Remove the item a path backs: a playlist for a playlist path, else
    /// every track with that file path.
    pub fn remove_media(&mut self, path: String)
        ensures
            spec_is_playlist_path(path@) ==> final(self)@.albums == old(self)@.albums
                && final(self)@.playlists == remove_list_by_path(old(self)@.playlists, path@),
            !spec_is_playlist_path(path@) ==> final(self)@.playlists == old(self)@.playlists
                && final(self)@.albums == remove_song_from_albums(old(self)@.albums, path@),
    {
        if is_playlist_path(&path) {
            self.remove_playlist(path);
        } else {
            self.remove_song(path);
        }
    }

    /// Append a parsed playlist.
    pub fn add_playlist(&mut self, playlist: Playlist)
        ensures
            final(self)@.albums == old(self)@.albums,
            final(self)@.playlists == old(self)@.playlists.push(playlist@),
    {
        let ghost pv = playlist@;
        self.playlists.push(playlist);
        proof {
            assert(self.playlists.deep_view() =~= old(self).playlists.deep_view().push(pv));
        }
    }

    /// Drop every playlist backed by `path`.
    pub fn remove_playlist(&mut self, path: String)
        ensures
            final(self)@.albums == old(self)@.albums,
            final(self)@.playlists == remove_list_by_path(old(self)@.playlists, path@),
    {
        let ghost all = self.playlists.deep_view();
        let mut kept: Vec<Playlist> = Vec::new();
        let mut i: usize = 0;
        proof {
            assert(all.subrange(0, 0) =~= Seq::<PlaylistV>::empty());
            assert(kept.deep_view() =~= remove_list_by_path(all.subrange(0, 0), path@));
        }
        while i < self.playlists.len()
            invariant
                i <= self.playlists.len(),
                all == self.playlists.deep_view(),
                kept.deep_view() == remove_list_by_path(all.subrange(0, i as int), path@),
            decreases self.playlists.len() - i,
        {
            let ghost pre = all.subrange(0, i as int);
            let ghost cur = all.subrange(0, i + 1 as int);
            if !string_eq(&self.playlists[i].path, &path) {
                kept.push(self.playlists[i].clone());
            }
            proof {
                assert(cur.drop_last() =~= pre);
                assert(cur.last() == all[i as int]);
                assert(kept.deep_view() =~= remove_list_by_path(cur, path@));
            }
            i = i + 1;
        }
        proof {
            assert(all.subrange(0, all.len() as int) =~= all);
        }
        self.playlists = kept;
    }

    /// Strip every track with file path `path` from each album, pruning
    /// albums left empty.
    pub fn remove_song(&mut self, path: String)
        ensures
            final(self)@.playlists == old(self)@.playlists,
            final(self)@.albums == remove_song_from_albums(old(self)@.albums, path@),
    {
        let ghost all = self.albums.deep_view();
        let mut kept: Vec<Album> = Vec::new();
        let mut i: usize = 0;
        proof {
            assert(all.subrange(0, 0) =~= Seq::<AlbumV>::empty());
            assert(kept.deep_view() =~= remove_song_from_albums(all.subrange(0, 0), path@));
        }
        while i < self.albums.len()
            invariant
                i <= self.albums.len(),
                all == self.albums.deep_view(),
                kept.deep_view() == remove_song_from_albums(all.subrange(0, i as int), path@),
            decreases self.albums.len() - i,
        {
            let ghost pre = all.subrange(0, i as int);
            let ghost cur = all.subrange(0, i + 1 as int);
            let mut a = self.albums[i].clone();
            a.remove_track(path.clone());
            proof {
                assert(cur.drop_last() =~= pre);
                assert(cur.last() == all[i as int]);
                assert(a@.tracks == remove_path(cur.last().tracks, path@));
            }
            if a.tracks.len() > 0 {
                kept.push(a);
            }
            proof {
                assert(kept.deep_view() =~= remove_song_from_albums(cur, path@));
            }
            i = i + 1;
        }
        proof {
            assert(all.subrange(0, all.len() as int) =~= all);
        }
        self.albums = kept;
    }

    /// Look up an album by identifier; the first match wins.
    pub fn get_album(&self, id: &String) -> (r: Option<Album>)
        ensures
            r.deep_view() == albums_find(self@.albums, id@),
    {
        let ghost all = self.albums.deep_view();
        proof {
            assert(all.skip(0) =~= all);
        }
        let mut i: usize = 0;
        while i < self.albums.len()
            invariant
                i <= self.albums.len(),
                all == self.albums.deep_view(),
                albums_find(all, id@) == albums_find(all.skip(i as int), id@),
            decreases self.albums.len() - i,
        {
            let ghost rest = all.skip(i as int);
            if string_eq(&self.albums[i].id, id) {
                proof {
                    assert(rest[0] == all[i as int]);
                }
                return Some(self.albums[i].clone());
            }
            proof {
                assert(rest[0] == all[i as int]);
                assert(rest.drop_first() =~= all.skip(i + 1 as int));
            }
            i = i + 1;
        }
        proof {
            assert(all.skip(all.len() as int) =~= Seq::<AlbumV>::empty());
        }
        None
    }

    /// Look up a track by identifier: albums first, then playlists, first
    /// match wins.
    pub fn get_song(&self, id: &String) -> (r: Option<Track>)
        ensures
            r.deep_view() == (match albums_song_find(self@.albums, id@) {
                Some(t) => Some(t),
                None => lists_song_find(self@.playlists, id@),
            }),
    {
        let ghost av = self.albums.deep_view();
        proof {
            assert(av.skip(0) =~= av);
        }
        let mut i: usize = 0;
        while i < self.albums.len()
            invariant
                i <= self.albums.len(),
                av == self.albums.deep_view(),
                albums_song_find(av, id@) == albums_song_find(av.skip(i as int), id@),
            decreases self.albums.len() - i,
        {
            let ghost rest = av.skip(i as int);
            let found = self.albums[i].get_song(id);
            proof {
                assert(rest[0] == av[i as int]);
                assert(rest.drop_first() =~= av.skip(i + 1 as int));
                assert(tracks_find(rest[0].tracks, id@) == found.deep_view());
            }
            if found.is_some() {
                proof {
                    assert(albums_song_find(rest, id@) == found.deep_view());
                }
                return found;
            }
            i = i + 1;
        }
        proof {
            assert(av.skip(av.len() as int) =~= Seq::<AlbumV>::empty());
        }
        let ghost lv = self.playlists.deep_view();
        proof {
            assert(lv.skip(0) =~= lv);
        }
        let mut i: usize = 0;
        while i < self.playlists.len()
            invariant
                i <= self.playlists.len(),
                lv == self.playlists.deep_view(),
                av == self.albums.deep_view(),
                albums_song_find(av, id@) is None,
                lists_song_find(lv, id@) == lists_song_find(lv.skip(i as int), id@),
            decreases self.playlists.len() - i,
        {
            let ghost rest = lv.skip(i as int);
            let found = self.playlists[i].get_song(id);
            proof {
                assert(rest[0] == lv[i as int]);
                assert(rest.drop_first() =~= lv.skip(i + 1 as int));
                assert(tracks_find(rest[0].tracks, id@) == found.deep_view());
            }
            if found.is_some() {
                proof {
                    assert(lists_song_find(rest, id@) == found.deep_view());
                }
                return found;
            }
            i = i + 1;
        }
        proof {
            assert(lv.skip(lv.len() as int) =~= Seq::<PlaylistV>::empty());
        }
        None
    }

    /// Replace the published catalog with `other` in one step: after the
    /// call the whole value is `other`, never a mixture.
    pub fn swap_with(&mut self, other: Media)
        ensures
            final(self)@ == other@,
    {
        *self = other;
    }
}

} // verus!
