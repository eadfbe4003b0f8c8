//! The catalog's published guarantees, proved once over the grouping
//! predicate so every build path shares them.

use vstd::prelude::*;

use crate::album::AlbumV;
use crate::media::{group_of, grouped, lemma_group_of_members, remove_song_from_albums};
use crate::track::{album_id_of, track_well_keyed, TrackV};

verus! {

/// Every track of the grouped list with the group's identifier occurs in
/// its group.
proof fn lemma_group_of_complete(tracks: Seq<TrackV>, id: Seq<char>, k: int)
    requires
        0 <= k < tracks.len(),
        tracks[k].album_id == id,
    ensures
        group_of(tracks, id).contains(tracks[k]),
    decreases tracks.len(),
{
    if k == tracks.len() - 1 {
        let g = group_of(tracks, id);
        assert(g.last() == tracks[k]);
        assert(g.contains(tracks[k]));
    } else {
        lemma_group_of_complete(tracks.drop_last(), id, k);
        let gp = group_of(tracks.drop_last(), id);
        let g = group_of(tracks, id);
        let w = choose|w: int| 0 <= w < gp.len() && gp[w] == tracks[k];
        assert(g[w] == tracks[k]);
        assert(g.contains(tracks[k]));
    }
}

/// In a published catalog every album's identifier is the digest derived
/// from any of its own tracks' album name and artists: the identifier can
/// be recomputed from each track it covers.
pub proof fn lemma_album_identity(albums: Seq<AlbumV>, tracks: Seq<TrackV>, i: int, k: int)
    requires
        grouped(albums, tracks),
        forall|j: int| 0 <= j < tracks.len() ==> track_well_keyed(#[trigger] tracks[j]),
        0 <= i < albums.len(),
        0 <= k < albums[i].tracks.len(),
    ensures
        albums[i].id == album_id_of(albums[i].tracks[k].album, albums[i].tracks[k].artists),
{
    lemma_group_of_members(tracks, albums[i].id);
    let t = albums[i].tracks[k];
    assert(tracks.contains(t));
    let w = choose|w: int| 0 <= w < tracks.len() && tracks[w] == t;
    assert(track_well_keyed(tracks[w]));
}

/// A published catalog contains no album with an empty track sequence.
pub proof fn lemma_no_empty_albums(albums: Seq<AlbumV>, tracks: Seq<TrackV>, i: int)
    requires
        grouped(albums, tracks),
        0 <= i < albums.len(),
    ensures
        albums[i].tracks.len() > 0,
{
}

/// Removing a file path prunes rather than keeps emptied albums: after a
/// removal no album is left without tracks either.
pub proof fn lemma_removal_prunes_empty(albums: Seq<AlbumV>, p: Seq<char>, i: int)
    requires
        0 <= i < remove_song_from_albums(albums, p).len(),
    ensures
        remove_song_from_albums(albums, p)[i].tracks.len() > 0,
    decreases albums.len(),
{
    if albums.len() > 0 {
        let r = remove_song_from_albums(albums, p);
        let rp = remove_song_from_albums(albums.drop_last(), p);
        if i < rp.len() {
            lemma_removal_prunes_empty(albums.drop_last(), p, i);
        }
    }
}

/// The file paths grouped under one album identifier.
pub open spec fn catalog_paths(tracks: Seq<TrackV>, id: Seq<char>) -> Set<Seq<char>> {
    Set::new(
        |p: Seq<char>|
            exists|k: int|
                0 <= k < tracks.len() && (#[trigger] tracks[k]).album_id == id
                    && tracks[k].file_path == p,
    )
}

/// The album-identifier to file-path-set pairs a track list gives rise to.
pub open spec fn catalog_index(tracks: Seq<TrackV>) -> Map<Seq<char>, Set<Seq<char>>> {
    Map::new(
        |id: Seq<char>|
            exists|k: int| 0 <= k < tracks.len() && (#[trigger] tracks[k]).album_id == id,
        |id: Seq<char>| catalog_paths(tracks, id),
    )
}

/// The album-identifier to file-path-set pairs a built album list shows.
pub open spec fn albums_index(albums: Seq<AlbumV>) -> Map<Seq<char>, Set<Seq<char>>> {
    Map::new(
        |id: Seq<char>| exists|i: int| 0 <= i < albums.len() && (#[trigger] albums[i]).id == id,
        |id: Seq<char>|
            Set::new(
                |p: Seq<char>|
                    exists|i: int, k: int|
                        0 <= i < albums.len() && albums[i].id == id && 0 <= k
                            < albums[i].tracks.len() && (#[trigger] albums[i].tracks[k]).file_path
                            == p,
            ),
    )
}

/// A grouping shows exactly the identifier → path-set pairs of the tracks
/// it was built from.
pub proof fn lemma_grouped_index(albums: Seq<AlbumV>, tracks: Seq<TrackV>)
    requires
        grouped(albums, tracks),
    ensures
        albums_index(albums) == catalog_index(tracks),
{
    let ai = albums_index(albums);
    let ci = catalog_index(tracks);
    assert forall|id: Seq<char>| ai.dom().contains(id) implies ci.dom().contains(id) by {
        let i = choose|i: int| 0 <= i < albums.len() && albums[i].id == id;
        lemma_group_of_members(tracks, id);
        let t = albums[i].tracks[0];
        assert(tracks.contains(t));
        let w = choose|w: int| 0 <= w < tracks.len() && tracks[w] == t;
    }
    assert forall|id: Seq<char>| ci.dom().contains(id) implies ai.dom().contains(id) by {
        let k = choose|k: int| 0 <= k < tracks.len() && tracks[k].album_id == id;
    }
    assert forall|id: Seq<char>| ai.dom().contains(id) implies ai[id] =~= ci[id] by {
        assert forall|p: Seq<char>| ai[id].contains(p) implies ci[id].contains(p) by {
            let (i, k) = choose|i: int, k: int|
                0 <= i < albums.len() && albums[i].id == id && 0 <= k < albums[i].tracks.len()
                    && albums[i].tracks[k].file_path == p;
            lemma_group_of_members(tracks, id);
            let t = albums[i].tracks[k];
            assert(tracks.contains(t));
            let w = choose|w: int| 0 <= w < tracks.len() && tracks[w] == t;
            assert(tracks[w].album_id == id && tracks[w].file_path == p);
        }
        assert forall|p: Seq<char>| ci[id].contains(p) implies ai[id].contains(p) by {
            let k = choose|k: int|
                0 <= k < tracks.len() && tracks[k].album_id == id && tracks[k].file_path == p;
            let i = choose|i: int| 0 <= i < albums.len() && albums[i].id == tracks[k].album_id;
            lemma_group_of_complete(tracks, id, k);
            let g = group_of(tracks, id);
            let w = choose|w: int| 0 <= w < g.len() && g[w] == tracks[k];
            assert(albums[i].tracks[w].file_path == p);
        }
    }
    assert(ai =~~= ci);
}

/// A track list's identifier → path-set pairs depend only on which tracks
/// occur, not on their enumeration order.
proof fn lemma_catalog_index_permutation(t1: Seq<TrackV>, t2: Seq<TrackV>)
    requires
        t1.to_multiset() == t2.to_multiset(),
    ensures
        catalog_index(t1) == catalog_index(t2),
{
    t1.to_multiset_ensures();
    t2.to_multiset_ensures();
    let c1 = catalog_index(t1);
    let c2 = catalog_index(t2);
    assert forall|id: Seq<char>| c1.dom().contains(id) implies c2.dom().contains(id) by {
        let k = choose|k: int| 0 <= k < t1.len() && t1[k].album_id == id;
        assert(t1.contains(t1[k]));
        assert(t1.to_multiset().count(t1[k]) > 0);
        assert(t2.to_multiset().count(t1[k]) > 0);
        assert(t2.contains(t1[k]));
        let w = choose|w: int| 0 <= w < t2.len() && t2[w] == t1[k];
    }
    assert forall|id: Seq<char>| c2.dom().contains(id) implies c1.dom().contains(id) by {
        let k = choose|k: int| 0 <= k < t2.len() && t2[k].album_id == id;
        assert(t2.contains(t2[k]));
        assert(t2.to_multiset().count(t2[k]) > 0);
        assert(t1.to_multiset().count(t2[k]) > 0);
        assert(t1.contains(t2[k]));
        let w = choose|w: int| 0 <= w < t1.len() && t1[w] == t2[k];
    }
    assert forall|id: Seq<char>| c1.dom().contains(id) implies c1[id] =~= c2[id] by {
        assert forall|p: Seq<char>| catalog_paths(t1, id).contains(p) implies catalog_paths(
            t2,
            id,
        ).contains(p) by {
            let k = choose|k: int|
                0 <= k < t1.len() && t1[k].album_id == id && t1[k].file_path == p;
            assert(t1.contains(t1[k]));
            assert(t1.to_multiset().count(t1[k]) > 0);
            assert(t2.to_multiset().count(t1[k]) > 0);
            assert(t2.contains(t1[k]));
            let w = choose|w: int| 0 <= w < t2.len() && t2[w] == t1[k];
        }
        assert forall|p: Seq<char>| catalog_paths(t2, id).contains(p) implies catalog_paths(
            t1,
            id,
        ).contains(p) by {
            let k = choose|k: int|
                0 <= k < t2.len() && t2[k].album_id == id && t2[k].file_path == p;
            assert(t2.contains(t2[k]));
            assert(t2.to_multiset().count(t2[k]) > 0);
            assert(t1.to_multiset().count(t2[k]) > 0);
            assert(t1.contains(t2[k]));
            let w = choose|w: int| 0 <= w < t1.len() && t1[w] == t2[k];
        }
    }
    assert(c1 =~~= c2);
}

/// Rebuilding from the same tracks, in whatever enumeration order the
/// filesystem yields them, publishes the same album-identifier →
/// file-path-set pairs.
pub proof fn lemma_rebuild_order_independent(
    a1: Seq<AlbumV>,
    t1: Seq<TrackV>,
    a2: Seq<AlbumV>,
    t2: Seq<TrackV>,
)
    requires
        grouped(a1, t1),
        grouped(a2, t2),
        t1.to_multiset() == t2.to_multiset(),
    ensures
        albums_index(a1) == albums_index(a2),
{
    lemma_grouped_index(a1, t1);
    lemma_grouped_index(a2, t2);
    lemma_catalog_index_permutation(t1, t2);
}

} // verus!
