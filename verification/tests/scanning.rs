use mud::scan::{
    decode_path_list, encode_path_list, filter_audio_paths, fingerprint_paths, needs_rescan,
};

#[test]
fn audio_files_are_kept_others_dropped() {
    let paths = vec![
        "/m/a.mp3".to_string(),
        "/m/notes.txt".to_string(),
        "/m/b.flac".to_string(),
        "/m/cover.png".to_string(),
        "/m/c.ogg".to_string(),
    ];
    let audio = filter_audio_paths(&paths);
    assert_eq!(audio, vec!["/m/a.mp3", "/m/b.flac", "/m/c.ogg"]);
}

#[test]
fn fingerprint_is_md5_of_concatenated_paths() {
    let paths = vec!["/m/a.mp3".to_string(), "/m/b.mp3".to_string()];
    let expected = format!("{:x}", md5::compute("/m/a.mp3/m/b.mp3".as_bytes()));
    assert_eq!(fingerprint_paths(&paths), expected);
}

#[test]
fn unchanged_roots_fingerprint_alike_and_skip_rescan() {
    let paths = vec!["/m/a.mp3".to_string(), "/m/b.mp3".to_string()];
    let again = paths.clone();
    let f1 = fingerprint_paths(&paths);
    let f2 = fingerprint_paths(&again);
    assert_eq!(f1, f2);
    assert!(!needs_rescan(&Some(f1), &f2));
}

#[test]
fn changed_path_invalidates_fingerprint() {
    let before = vec!["/m/a.mp3".to_string(), "/m/b.mp3".to_string()];
    let after = vec!["/m/a.mp3".to_string(), "/m/renamed.mp3".to_string()];
    let f1 = fingerprint_paths(&before);
    let f2 = fingerprint_paths(&after);
    assert_ne!(f1, f2);
    assert!(needs_rescan(&Some(f1), &f2));
}

#[test]
fn missing_stored_fingerprint_forces_rescan() {
    let current = fingerprint_paths(&vec!["/m/a.mp3".to_string()]);
    assert!(needs_rescan(&None, &current));
}

#[test]
fn path_list_encoding_round_trips() {
    let paths = vec!["/m/a.mp3".to_string(), "/m/sub dir/b.mp3".to_string()];
    let text = encode_path_list(&paths);
    assert_eq!(text, "/m/a.mp3\n/m/sub dir/b.mp3");
    assert_eq!(decode_path_list(&text), paths);
}

#[test]
fn empty_path_list_round_trips() {
    let paths: Vec<String> = vec![];
    let text = encode_path_list(&paths);
    assert_eq!(text, "");
    assert!(decode_path_list(&text).is_empty());
}
