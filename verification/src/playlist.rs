//! Playlists: ordered track references with a path-based identity.
//!
//! A playlist is produced by the playlist-parsing collaborator; the catalog
//! only stores it, removes it by path and looks tracks up in it.

use vstd::prelude::*;

use crate::album::{clone_track_vec, string_eq, tracks_find};
use crate::track::{Track, TrackV};

verus! {

/// One playlist: the file it came from and the tracks it references.
#[derive(Debug)]
pub struct Playlist {
    pub path: String,
    pub tracks: Vec<Track>,
}

pub ghost struct PlaylistV {
    pub path: Seq<char>,
    pub tracks: Seq<TrackV>,
}

impl View for Playlist {
    type V = PlaylistV;

    open spec fn view(&self) -> PlaylistV {
        PlaylistV { path: self.path@, tracks: self.tracks.deep_view() }
    }
}

impl DeepView for Playlist {
    type V = PlaylistV;

    open spec fn deep_view(&self) -> PlaylistV {
        self@
    }
}

impl Clone for Playlist {
    fn clone(&self) -> (r: Self)
        ensures
            r@ == self@,
    {
        Playlist { path: self.path.clone(), tracks: clone_track_vec(&self.tracks) }
    }
}

impl Playlist {
    /// Look up a referenced track by its identifier; the first match wins.
    pub fn get_song(&self, id: &String) -> (r: Option<Track>)
        ensures
            r.deep_view() == tracks_find(self@.tracks, id@),
    {
        let ghost all = self.tracks.deep_view();
        proof {
            assert(all.skip(0) =~= all);
        }
        let mut i: usize = 0;
        while i < self.tracks.len()
            invariant
                i <= self.tracks.len(),
                all == self.tracks.deep_view(),
                tracks_find(all, id@) == tracks_find(all.skip(i as int), id@),
            decreases self.tracks.len() - i,
        {
            let ghost rest = all.skip(i as int);
            if string_eq(&self.tracks[i].id, id) {
                proof {
                    assert(rest[0] == all[i as int]);
                }
                return Some(self.tracks[i].clone());
            }
            proof {
                assert(rest[0] == all[i as int]);
                assert(rest.drop_first() =~= all.skip(i + 1 as int));
            }
            i = i + 1;
        }
        proof {
            assert(all.skip(all.len() as int) =~= Seq::<TrackV>::empty());
        }
        None
    }
}

} // verus!
