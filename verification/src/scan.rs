//! Scanning support: audio-file classification, the watched-root
//! fingerprint, and the persisted file-path list.
//!
//! The fingerprint is the digest of all enumerated paths' bytes in
//! enumeration order; it gates re-enumeration. The persisted path list is a
//! newline-joined text. Enumeration itself is filesystem work and happens
//! outside the library; it hands plain path strings in.

use vstd::prelude::*;
use vstd::utf8::encode_utf8;

use crate::digest::{digest_id, digest_id_of};

verus! {

/// Whether the MIME-guessing collaborator classes a path as audio.
pub uninterp spec fn audio_guess(path: Seq<char>) -> bool;

/// Relies on mime_guess::from_path: the guess is a function of the path
/// alone; true when the guessed type's top level is audio, with text/plain
/// assumed for paths nothing is known about.
#[verifier::external_body]
fn guess_is_audio(path: &String) -> (r: bool)
    ensures
        r == audio_guess(path@),
{
    mime_guess::from_path(path.as_str()).first_or_text_plain().type_() == mime_guess::mime::AUDIO
}

/// The paths classed as audio, in order.
pub open spec fn audio_paths_of(paths: Seq<Seq<char>>) -> Seq<Seq<char>>
    decreases paths.len(),
{
    if paths.len() == 0 {
        Seq::empty()
    } else {
        audio_paths_of(paths.drop_last()) + (if audio_guess(paths.last()) {
            seq![paths.last()]
        } else {
            Seq::empty()
        })
    }
}

/// Keep the paths the MIME guess classes as audio, in order.
pub fn filter_audio_paths(paths: &Vec<String>) -> (r: Vec<String>)
    ensures
        r.deep_view() == audio_paths_of(paths.deep_view()),
{
    let ghost all = paths.deep_view();
    let mut r: Vec<String> = Vec::new();
    let mut i: usize = 0;
    proof {
        assert(r.deep_view() =~= audio_paths_of(all.subrange(0, 0)));
    }
    while i < paths.len()
        invariant
            i <= paths.len(),
            all == paths.deep_view(),
            r.deep_view() == audio_paths_of(all.subrange(0, i as int)),
        decreases paths.len() - i,
    {
        let ghost pre = all.subrange(0, i as int);
        let ghost cur = all.subrange(0, i + 1 as int);
        proof {
            assert(cur.drop_last() =~= pre);
            assert(cur.last() == all[i as int]);
            assert(all[i as int] == paths@[i as int]@);
        }
        if guess_is_audio(&paths[i]) {
            r.push(paths[i].clone());
        }
        proof {
            assert(r.deep_view() =~~= audio_paths_of(cur));
        }
        i = i + 1;
    }
    proof {
        assert(all.subrange(0, all.len() as int) =~= all);
    }
    r
}

/// The bytes of all paths, concatenated in enumeration order.
pub open spec fn concat_path_bytes(paths: Seq<Seq<char>>) -> Seq<u8>
    decreases paths.len(),
{
    if paths.len() == 0 {
        Seq::empty()
    } else {
        concat_path_bytes(paths.drop_last()) + encode_utf8(paths.last())
    }
}

/// The fingerprint of an enumeration: the digest of its concatenated path
/// bytes. Equal enumerations always fingerprint alike.
pub open spec fn fingerprint_of(paths: Seq<Seq<char>>) -> Seq<char> {
    digest_id_of(concat_path_bytes(paths))
}

/// Compute the fingerprint of an enumerated path list.
pub fn fingerprint_paths(paths: &Vec<String>) -> (r: String)
    ensures
        r@ == fingerprint_of(paths.deep_view()),
{
    let ghost all = paths.deep_view();
    let mut bytes: Vec<u8> = Vec::new();
    let mut i: usize = 0;
    proof {
        assert(bytes@ =~= concat_path_bytes(all.subrange(0, 0)));
    }
    while i < paths.len()
        invariant
            i <= paths.len(),
            all == paths.deep_view(),
            bytes@ == concat_path_bytes(all.subrange(0, i as int)),
        decreases paths.len() - i,
    {
        let ghost pre = all.subrange(0, i as int);
        let ghost cur = all.subrange(0, i + 1 as int);
        let mut piece = paths[i].as_str().as_bytes_vec();
        proof {
            assert(cur.drop_last() =~= pre);
            assert(cur.last() == all[i as int]);
            assert(all[i as int] == paths@[i as int]@);
        }
        bytes.append(&mut piece);
        proof {
            assert(bytes@ =~= concat_path_bytes(cur));
        }
        i = i + 1;
    }
    proof {
        assert(all.subrange(0, all.len() as int) =~= all);
    }
    digest_id(&bytes)
}

/// Whether a full re-enumeration is needed: yes unless a stored
/// fingerprint exists and matches the current one.
pub open spec fn spec_needs_rescan(stored: Option<Seq<char>>, current: Seq<char>) -> bool {
    !(stored is Some && stored->0 == current)
}

/// Decide whether the scanner must re-enumerate the watched root: only a
/// stored fingerprint equal to the current one lets the persisted path
/// list be reused.
pub fn needs_rescan(stored: &Option<String>, current: &String) -> (r: bool)
    ensures
        r == spec_needs_rescan(stored.deep_view(), current@),
{
    match stored {
        Some(s) => !crate::album::string_eq(s, current),
        None => true,
    }
}

/// A watched root whose enumeration is unchanged fingerprints alike, so
/// the resolver reuses the persisted path list instead of re-enumerating.
pub proof fn lemma_unchanged_root_reuses_list(paths: Seq<Seq<char>>, stored: Seq<char>)
    requires
        stored == fingerprint_of(paths),
    ensures
        !spec_needs_rescan(Some(stored), fingerprint_of(paths)),
{
}

/// Paths joined by single newlines, with no trailing newline: the
/// persisted form of the enumerated file list.
pub open spec fn joined_paths(paths: Seq<Seq<char>>) -> Seq<char>
    decreases paths.len(),
{
    if paths.len() == 0 {
        Seq::empty()
    } else if paths.len() == 1 {
        paths[0]
    } else {
        joined_paths(paths.drop_last()) + seq!['\n'] + paths.last()
    }
}

/// Encode a path list for persisting: newline-joined, no trailing newline.
pub fn encode_path_list(paths: &Vec<String>) -> (r: String)
    ensures
        r@ == joined_paths(paths.deep_view()),
{
    let ghost all = paths.deep_view();
    let mut r = String::new();
    let mut i: usize = 0;
    proof {
        assert(r@ =~= joined_paths(all.subrange(0, 0)));
    }
    while i < paths.len()
        invariant
            i <= paths.len(),
            all == paths.deep_view(),
            r@ == joined_paths(all.subrange(0, i as int)),
        decreases paths.len() - i,
    {
        let ghost pre = all.subrange(0, i as int);
        let ghost cur = all.subrange(0, i + 1 as int);
        proof {
            assert(cur.drop_last() =~= pre);
            assert(cur.last() == all[i as int]);
            assert(all[i as int] == paths@[i as int]@);
        }
        if i > 0 {
            r.append("\n");
        }
        r.append(paths[i].as_str());
        proof {
            reveal_strlit("\n");
            assert("\n"@ =~= seq!['\n']);
            assert(r@ =~= joined_paths(cur));
        }
        i = i + 1;
    }
    proof {
        assert(all.subrange(0, all.len() as int) =~= all);
    }
    r
}

pub open spec fn split_lines_rec(t: Seq<char>, cur: Seq<char>, out: Seq<Seq<char>>) -> Seq<
    Seq<char>,
>
    decreases t.len(),
{
    if t.len() == 0 {
        if cur.len() > 0 {
            out.push(cur)
        } else {
            out
        }
    } else if t[0] == '\n' {
        split_lines_rec(t.drop_first(), Seq::empty(), out.push(cur))
    } else {
        split_lines_rec(t.drop_first(), cur.push(t[0]), out)
    }
}

/// The lines of a persisted path list: split on newlines, with no line
/// after a trailing newline.
pub open spec fn spec_split_lines(t: Seq<char>) -> Seq<Seq<char>> {
    split_lines_rec(t, Seq::empty(), Seq::empty())
}

/// Decode a persisted path list: one path per line.
pub fn decode_path_list(text: &String) -> (r: Vec<String>)
    ensures
        r.deep_view() == spec_split_lines(text@),
{
    let ghost all = text@;
    let s = text.as_str();
    let n = s.unicode_len();
    let mut r: Vec<String> = Vec::new();
    let mut start: usize = 0;
    let mut i: usize = 0;
    proof {
        assert(all.skip(0) =~= all);
        assert(all.subrange(0, 0) =~= Seq::<char>::empty());
        assert(r.deep_view() =~= Seq::<Seq<char>>::empty());
    }
    while i < n
        invariant
            start <= i <= n,
            n == all.len(),
            all == text@,
            s@ == all,
            spec_split_lines(all) == split_lines_rec(
                all.skip(i as int),
                all.subrange(start as int, i as int),
                r.deep_view(),
            ),
        decreases n - i,
    {
        let ghost rest = all.skip(i as int);
        let ghost cur = all.subrange(start as int, i as int);
        let ghost dv = r.deep_view();
        let c = s.get_char(i);
        proof {
            assert(rest[0] == all[i as int]);
            assert(rest.drop_first() =~= all.skip(i + 1 as int));
        }
        if c == '\n' {
            let piece = s.substring_char(start, i).to_owned();
            r.push(piece);
            proof {
                assert(r.deep_view() =~~= dv.push(cur));
                assert(all.subrange(i + 1 as int, i + 1 as int) =~= Seq::<char>::empty());
            }
            start = i + 1;
        } else {
            proof {
                assert(all.subrange(start as int, i + 1 as int) =~= cur.push(all[i as int]));
            }
        }
        i = i + 1;
    }
    let ghost dv = r.deep_view();
    let ghost cur = all.subrange(start as int, n as int);
    if start < n {
        let piece = s.substring_char(start, n).to_owned();
        r.push(piece);
        proof {
            assert(r.deep_view() =~~= dv.push(cur));
        }
    }
    proof {
        assert(all.skip(n as int) =~= Seq::<char>::empty());
        if start == n {
            assert(cur =~= Seq::<char>::empty());
        }
        assert(r.deep_view() == spec_split_lines(all));
    }
    r
}


/// A path fit for the persisted list: nonempty and free of newlines.
pub open spec fn plain_path(p: Seq<char>) -> bool {
    p.len() > 0 && forall|j: int| 0 <= j < p.len() ==> p[j] != '\n'
}

proof fn lemma_split_consumes_plain(x: Seq<char>, t: Seq<char>, cur: Seq<char>, out: Seq<Seq<char>>)
    requires
        forall|j: int| 0 <= j < x.len() ==> x[j] != '\n',
    ensures
        split_lines_rec(x + t, cur, out) == split_lines_rec(t, cur + x, out),
    decreases x.len(),
{
    if x.len() == 0 {
        assert(x + t =~= t);
        assert(cur + x =~= cur);
    } else {
        let xt = x + t;
        assert(xt[0] == x[0]);
        assert(xt.drop_first() =~= x.drop_first() + t);
        lemma_split_consumes_plain(x.drop_first(), t, cur.push(x[0]), out);
        assert(cur.push(x[0]) + x.drop_first() =~= cur + x);
    }
}

proof fn lemma_joined_front(paths: Seq<Seq<char>>)
    requires
        paths.len() >= 2,
    ensures
        joined_paths(paths) == paths[0] + seq!['\n'] + joined_paths(paths.drop_first()),
    decreases paths.len(),
{
    if paths.len() == 2 {
        assert(paths.drop_last() =~= seq![paths[0]]);
        assert(paths.drop_first() =~= seq![paths[1]]);
        assert(joined_paths(seq![paths[0]]) == seq![paths[0]][0]);
        assert(joined_paths(seq![paths[1]]) == seq![paths[1]][0]);
        assert(joined_paths(paths) =~= paths[0] + seq!['\n'] + joined_paths(paths.drop_first()));
    } else {
        let dl = paths.drop_last();
        let df = paths.drop_first();
        lemma_joined_front(dl);
        assert(df.drop_last() =~= dl.drop_first());
        assert(df.last() == paths.last());
        assert(dl[0] == paths[0]);
        assert(joined_paths(paths) =~= paths[0] + seq!['\n'] + joined_paths(df));
    }
}

proof fn lemma_split_of_joined(paths: Seq<Seq<char>>, out: Seq<Seq<char>>)
    requires
        forall|i: int| 0 <= i < paths.len() ==> plain_path(#[trigger] paths[i]),
    ensures
        split_lines_rec(joined_paths(paths), Seq::empty(), out) == out + paths,
    decreases paths.len(),
{
    if paths.len() == 0 {
        assert(out + paths =~= out);
    } else if paths.len() == 1 {
        lemma_split_consumes_plain(paths[0], Seq::empty(), Seq::empty(), out);
        assert(paths[0] + Seq::<char>::empty() =~= joined_paths(paths));
        assert(Seq::<char>::empty() + paths[0] =~= paths[0]);
        assert(out.push(paths[0]) =~= out + paths);
    } else {
        lemma_joined_front(paths);
        let j = joined_paths(paths.drop_first());
        let tail = seq!['\n'] + j;
        lemma_split_consumes_plain(paths[0], tail, Seq::empty(), out);
        assert(paths[0] + tail =~= joined_paths(paths));
        assert(Seq::<char>::empty() + paths[0] =~= paths[0]);
        assert(tail[0] == '\n');
        assert(tail.drop_first() =~= j);
        lemma_split_of_joined(paths.drop_first(), out.push(paths[0]));
        assert(out.push(paths[0]) + paths.drop_first() =~= out + paths);
    }
}

/// A persisted path list decodes back to exactly the paths that were
/// encoded, for any list of nonempty, newline-free paths.
pub proof fn lemma_path_list_round_trip(paths: Seq<Seq<char>>)
    requires
        forall|i: int| 0 <= i < paths.len() ==> plain_path(#[trigger] paths[i]),
    ensures
        spec_split_lines(joined_paths(paths)) == paths,
{
    lemma_split_of_joined(paths, Seq::empty());
    assert(Seq::<Seq<char>>::empty() + paths =~= paths);
}

} // verus!
