use mud::media::{Media, MediaEntry, Songs};
use mud::playlist::Playlist;
use mud::track::{AudioKind, RawTags, Track};

fn raw_tags(album: &str, artist: &str) -> RawTags {
    RawTags {
        title: Some(format!("song of {album}")),
        artists: if artist.is_empty() { vec![] } else { vec![artist.to_string()] },
        album: Some(album.to_string()),
        album_artist: None,
        track_no: Some(1),
        year: Some(2020),
        duration: 100,
        bitrate: 320,
        kind: AudioKind::Mpeg,
        cover: None,
    }
}

fn track_for(album: &str, artist: &str, path: &str) -> Track {
    let raw = raw_tags(album, artist);
    Track::from_tags(path.to_string(), &raw, mud::track::fresh_track_id(), 0)
}

fn build(tracks: Vec<Track>) -> Media {
    Media::new(Songs::new(tracks))
}

#[test]
fn two_matching_tracks_share_one_album() {
    let m = build(vec![
        track_for("Foo", "Bar", "/m/a.mp3"),
        track_for("Foo", "Bar", "/m/b.mp3"),
        track_for("Foo", "Baz", "/m/c.mp3"),
    ]);
    assert_eq!(m.albums.len(), 2);
    assert_eq!(m.albums[0].tracks.len(), 2);
    assert_eq!(m.albums[1].tracks.len(), 1);
    assert_ne!(m.albums[0].id, m.albums[1].id);
}

#[test]
fn album_id_is_md5_of_album_and_primary_artist() {
    let t = track_for("Foo", "Bar", "/m/a.mp3");
    let expected = format!("{:x}", md5::compute("FooBar".as_bytes()));
    assert_eq!(t.album_id, expected);
}

#[test]
fn album_id_falls_back_to_unknown_artist() {
    let t = track_for("Foo", "", "/m/a.mp3");
    let expected = format!("{:x}", md5::compute("Foo@UNKNOWN@".as_bytes()));
    assert_eq!(t.album_id, expected);
}

#[test]
fn album_metadata_comes_from_first_track() {
    let mut first = raw_tags("Foo", "Bar");
    first.year = Some(1999);
    let mut second = raw_tags("Foo", "Bar");
    second.year = Some(2001);
    let t1 = Track::from_tags("/m/a.mp3".to_string(), &first, mud::track::fresh_track_id(), 0);
    let t2 = Track::from_tags("/m/b.mp3".to_string(), &second, mud::track::fresh_track_id(), 0);
    let m = build(vec![t1, t2]);
    assert_eq!(m.albums.len(), 1);
    assert_eq!(m.albums[0].name, "Foo");
    assert_eq!(m.albums[0].artist, "Bar");
    assert_eq!(m.albums[0].year, Some(1999));
}

#[test]
fn no_published_album_is_empty() {
    let m = build(vec![
        track_for("Foo", "Bar", "/m/a.mp3"),
        track_for("Quux", "Baz", "/m/b.mp3"),
    ]);
    for album in &m.albums {
        assert!(!album.tracks.is_empty());
    }
}

#[test]
fn removing_last_track_prunes_album() {
    let mut m = build(vec![
        track_for("Foo", "Bar", "/m/a.mp3"),
        track_for("Quux", "Baz", "/m/b.mp3"),
    ]);
    m.remove_song("/m/b.mp3".to_string());
    assert_eq!(m.albums.len(), 1);
    assert_eq!(m.albums[0].name, "Foo");
    // A full rebuild without the file gives the same shape.
    let rebuilt = build(vec![track_for("Foo", "Bar", "/m/a.mp3")]);
    assert_eq!(rebuilt.albums.len(), 1);
    assert_eq!(rebuilt.albums[0].id, m.albums[0].id);
}

#[test]
fn rebuild_is_enumeration_order_independent() {
    let order1 = vec![
        track_for("Foo", "Bar", "/m/a.mp3"),
        track_for("Quux", "Baz", "/m/b.mp3"),
        track_for("Foo", "Bar", "/m/c.mp3"),
    ];
    let order2 = vec![
        track_for("Foo", "Bar", "/m/c.mp3"),
        track_for("Foo", "Bar", "/m/a.mp3"),
        track_for("Quux", "Baz", "/m/b.mp3"),
    ];
    let index = |m: &Media| {
        let mut pairs: Vec<(String, Vec<String>)> = m
            .albums
            .iter()
            .map(|a| {
                let mut paths: Vec<String> =
                    a.tracks.iter().map(|t| t.file_path.clone()).collect();
                paths.sort();
                (a.id.clone(), paths)
            })
            .collect();
        pairs.sort();
        pairs
    };
    let m1 = build(order1);
    let m2 = build(order2);
    assert_eq!(index(&m1), index(&m2));
}

#[test]
fn add_song_merges_into_matching_album() {
    let mut m = build(vec![track_for("Foo", "Bar", "/m/a.mp3")]);
    m.add_song(track_for("Foo", "Bar", "/m/b.mp3"));
    assert_eq!(m.albums.len(), 1);
    assert_eq!(m.albums[0].tracks.len(), 2);
    m.add_song(track_for("Other", "Who", "/m/c.mp3"));
    assert_eq!(m.albums.len(), 2);
    assert_eq!(m.albums[1].name, "Other");
}

#[test]
fn get_album_and_get_song_find_or_report_absence() {
    let m = build(vec![track_for("Foo", "Bar", "/m/a.mp3")]);
    let id = m.albums[0].id.clone();
    let song_id = m.albums[0].tracks[0].id.clone();
    assert!(m.get_album(&id).is_some());
    assert_eq!(m.get_album(&id).unwrap().name, "Foo");
    assert!(m.get_album(&"nope".to_string()).is_none());
    assert!(m.get_song(&song_id).is_some());
    assert_eq!(m.get_song(&song_id).unwrap().file_path, "/m/a.mp3");
    assert!(m.get_song(&"nope".to_string()).is_none());
}

#[test]
fn playlists_are_added_removed_and_searched() {
    let mut m = build(vec![]);
    let t = track_for("Foo", "Bar", "/m/a.mp3");
    let tid = t.id.clone();
    m.add_media(MediaEntry::List(Playlist { path: "/m/p.m3u8".to_string(), tracks: vec![t] }));
    assert_eq!(m.playlists.len(), 1);
    assert!(m.get_song(&tid).is_some());
    m.remove_media("/m/p.m3u8".to_string());
    assert!(m.playlists.is_empty());
    assert!(m.get_song(&tid).is_none());
}

#[test]
fn remove_media_dispatches_on_extension() {
    let mut m = build(vec![track_for("Foo", "Bar", "/m/a.mp3")]);
    m.add_playlist(Playlist { path: "/m/p.m3u8".to_string(), tracks: vec![] });
    m.remove_media("/m/a.mp3".to_string());
    assert!(m.albums.is_empty());
    assert_eq!(m.playlists.len(), 1);
    m.remove_media("/m/p.m3u8".to_string());
    assert!(m.playlists.is_empty());
}

#[test]
fn swap_with_replaces_the_whole_catalog() {
    let mut published = build(vec![track_for("Old", "One", "/m/old.mp3")]);
    let fresh = build(vec![
        track_for("New", "Two", "/m/new1.mp3"),
        track_for("Newer", "Three", "/m/new2.mp3"),
    ]);
    let fresh_ids: Vec<String> = fresh.albums.iter().map(|a| a.id.clone()).collect();
    published.swap_with(fresh);
    let got_ids: Vec<String> = published.albums.iter().map(|a| a.id.clone()).collect();
    assert_eq!(got_ids, fresh_ids);
    assert_eq!(published.albums.len(), 2);
}

#[test]
fn album_remove_track_and_get_song() {
    let m = build(vec![
        track_for("Foo", "Bar", "/m/a.mp3"),
        track_for("Foo", "Bar", "/m/b.mp3"),
    ]);
    let mut album = m.albums[0].clone();
    let sid = album.tracks[1].id.clone();
    assert!(album.get_song(&sid).is_some());
    album.remove_track("/m/a.mp3".to_string());
    assert_eq!(album.tracks.len(), 1);
    assert_eq!(album.tracks[0].file_path, "/m/b.mp3");
    assert!(album.get_song(&"missing".to_string()).is_none());
}

#[test]
fn tracks_sharing_album_identity_share_one_cover_path() {
    let a = track_for("Foo", "Bar", "/m/a.mp3");
    let b = track_for("Foo", "Bar", "/m/b.mp3");
    let covers = "/cache/covers".to_string();
    let ext = ".png".to_string();
    let pa = mud::cover::cover_path(&covers, &a.album_id, &ext);
    let pb = mud::cover::cover_path(&covers, &b.album_id, &ext);
    // The second extraction addresses the same cache file: a hit, so the
    // image is decoded and quantized only for the first one.
    assert_eq!(pa, pb);
}
