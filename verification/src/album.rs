//! Albums: ordered groups of tracks sharing one album identifier.

use vstd::prelude::*;

use crate::track::{LyricLine, Track, TrackV};

verus! {

/// An album of the catalog: its metadata and its tracks, in the order they
/// were grouped.
#[derive(Debug)]
pub struct Album {
    pub name: String,
    pub artist: String,
    pub tracks: Vec<Track>,
    pub year: Option<u32>,
    pub id: String,
}

pub ghost struct AlbumV {
    pub name: Seq<char>,
    pub artist: Seq<char>,
    pub tracks: Seq<TrackV>,
    pub year: Option<u32>,
    pub id: Seq<char>,
}

impl View for Album {
    type V = AlbumV;

    open spec fn view(&self) -> AlbumV {
        AlbumV {
            name: self.name@,
            artist: self.artist@,
            tracks: self.tracks.deep_view(),
            year: self.year,
            id: self.id@,
        }
    }
}

impl DeepView for Album {
    type V = AlbumV;

    open spec fn deep_view(&self) -> AlbumV {
        self@
    }
}

pub(crate) fn clone_track_vec(v: &Vec<Track>) -> (r: Vec<Track>)
    ensures
        r.deep_view() == v.deep_view(),
{
    let mut r: Vec<Track> = Vec::new();
    let mut i: usize = 0;
    while i < v.len()
        invariant
            i <= v.len(),
            r@.len() == i,
            forall|j: int| 0 <= j < i ==> r@[j]@ == v@[j]@,
        decreases v.len() - i,
    {
        r.push(v[i].clone());
        i = i + 1;
    }
    proof {
        assert forall|j: int| 0 <= j < v@.len() implies r.deep_view()[j] == v.deep_view()[j] by {
            assert(r@[j]@ == v@[j]@);
        }
        assert(r.deep_view() =~= v.deep_view());
    }
    r
}

impl Clone for Album {
    fn clone(&self) -> (r: Self)
        ensures
            r@ == self@,
    {
        Album {
            name: self.name.clone(),
            artist: self.artist.clone(),
            tracks: clone_track_vec(&self.tracks),
            year: self.year,
            id: self.id.clone(),
        }
    }
}

/// The tracks of `tracks` whose file path is not `path`, in order.
pub open spec fn remove_path(tracks: Seq<TrackV>, path: Seq<char>) -> Seq<TrackV>
    decreases tracks.len(),
{
    if tracks.len() == 0 {
        Seq::empty()
    } else {
        remove_path(tracks.drop_last(), path) + (if tracks.last().file_path != path {
            seq![tracks.last()]
        } else {
            Seq::empty()
        })
    }
}

/// The first track of `tracks` with identifier `id`, if any.
pub open spec fn tracks_find(tracks: Seq<TrackV>, id: Seq<char>) -> Option<TrackV>
    decreases tracks.len(),
{
    if tracks.len() == 0 {
        None
    } else if tracks[0].id == id {
        Some(tracks[0])
    } else {
        tracks_find(tracks.drop_first(), id)
    }
}

impl Album {
    /// Drop every track whose file path is `path`, keeping the rest in
    /// order.
    pub fn remove_track(&mut self, path: String)
        ensures
            final(self)@ == (AlbumV {
                tracks: remove_path(old(self)@.tracks, path@),
                ..old(self)@
            }),
    {
        let mut kept: Vec<Track> = Vec::new();
        let mut i: usize = 0;
        while i < self.tracks.len()
            invariant
                i <= self.tracks.len(),
                kept.deep_view() == remove_path(self.tracks.deep_view().subrange(0, i as int), path@),
            decreases self.tracks.len() - i,
        {
            let ghost pre = self.tracks.deep_view().subrange(0, i as int);
            let ghost cur = self.tracks.deep_view().subrange(0, i + 1 as int);
            let keep = !string_eq(&self.tracks[i].file_path, &path);
            if keep {
                kept.push(self.tracks[i].clone());
            }
            proof {
                assert(cur.drop_last() =~= pre);
                assert(cur.last() == self.tracks.deep_view()[i as int]);
                assert(kept.deep_view() =~= remove_path(cur, path@));
            }
            i = i + 1;
        }
        proof {
            assert(self.tracks.deep_view().subrange(0, self.tracks@.len() as int)
                =~= self.tracks.deep_view());
        }
        self.tracks = kept;
    }

    /// Look up a track by its identifier; the first match wins.
    pub fn get_song(&self, id: &String) -> (r: Option<Track>)
        ensures
            r.deep_view() == tracks_find(self@.tracks, id@),
    {
        let ghost all = self.tracks.deep_view();
        proof {
            assert(all.skip(0) =~= all);
        }
        let mut i: usize = 0;
        while i < self.tracks.len()
            invariant
                i <= self.tracks.len(),
                all == self.tracks.deep_view(),
                tracks_find(all, id@) == tracks_find(all.skip(i as int), id@),
            decreases self.tracks.len() - i,
        {
            let ghost rest = all.skip(i as int);
            if string_eq(&self.tracks[i].id, id) {
                proof {
                    assert(rest[0] == all[i as int]);
                }
                return Some(self.tracks[i].clone());
            }
            proof {
                assert(rest[0] == all[i as int]);
                assert(rest.drop_first() =~= all.skip(i + 1 as int));
            }
            i = i + 1;
        }
        proof {
            assert(all.skip(all.len() as int) =~= Seq::<TrackV>::empty());
        }
        None
    }
}

/// Equality of two strings, decided over their character views.
pub(crate) fn string_eq(a: &String, b: &String) -> (r: bool)
    ensures
        r == (a@ == b@),
{
    a.eq(b)
}

} // verus!
