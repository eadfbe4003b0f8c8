//! Timed lyrics: filtering a lyrics file down to its timed lines and
//! handing them to the lyrics-parsing collaborator.
//!
//! A lyrics file mixes timed lines (`[mm:ss.xx] text`) with metadata lines.
//! Only lines that begin with `[` followed by a digit are kept; the kept
//! lines, joined by newlines, go to the parser. A parse failure is not
//! fatal: the track then simply carries no lyrics.

use vstd::prelude::*;

use crate::track::{LyricLine, LyricLineV};

verus! {

/// The newline byte that separates lines.
pub open spec fn nl() -> u8 {
    10
}

/// A line is timed when it begins with `[` (0x5b) followed by an ASCII
/// digit.
pub open spec fn timed_line(l: Seq<u8>) -> bool {
    l.len() >= 2 && l[0] == 0x5bu8 && 0x30 <= l[1] <= 0x39
}

pub open spec fn timed_lines_rec(b: Seq<u8>, cur: Seq<u8>, out: Seq<Seq<u8>>) -> Seq<Seq<u8>>
    decreases b.len(),
{
    if b.len() == 0 {
        if timed_line(cur) {
            out.push(cur)
        } else {
            out
        }
    } else if b[0] == nl() {
        timed_lines_rec(
            b.drop_first(),
            Seq::empty(),
            if timed_line(cur) {
                out.push(cur)
            } else {
                out
            },
        )
    } else {
        timed_lines_rec(b.drop_first(), cur.push(b[0]), out)
    }
}

/// The timed lines of a lyrics buffer, in order.
pub open spec fn timed_lines_of(b: Seq<u8>) -> Seq<Seq<u8>> {
    timed_lines_rec(b, Seq::empty(), Seq::empty())
}

/// Lines joined by single newlines, with no trailing newline.
pub open spec fn joined_lines(lines: Seq<Seq<u8>>) -> Seq<u8>
    decreases lines.len(),
{
    if lines.len() == 0 {
        Seq::empty()
    } else if lines.len() == 1 {
        lines[0]
    } else {
        joined_lines(lines.drop_last()) + seq![nl()] + lines.last()
    }
}

/// A lyrics buffer reduced to its timed lines, newline-separated.
pub open spec fn strip_untimed(b: Seq<u8>) -> Seq<u8> {
    joined_lines(timed_lines_of(b))
}

fn clone_bytes(v: &Vec<u8>) -> (r: Vec<u8>)
    ensures
        r@ == v@,
{
    let mut r: Vec<u8> = Vec::new();
    let mut i: usize = 0;
    while i < v.len()
        invariant
            i <= v.len(),
            r@ =~= v@.subrange(0, i as int),
        decreases v.len() - i,
    {
        r.push(v[i]);
        proof {
            assert(r@ =~= v@.subrange(0, i + 1 as int));
        }
        i = i + 1;
    }
    proof {
        assert(r@ =~= v@);
    }
    r
}

/// Decide whether a line is timed: `[` followed by an ASCII digit.
fn line_is_timed(l: &Vec<u8>) -> (r: bool)
    ensures
        r == timed_line(l@),
{
    l.len() >= 2 && l[0] == 0x5b && 0x30 <= l[1] && l[1] <= 0x39
}

/// Keep only the timed lines of a lyrics buffer, joined by newlines.
pub fn remove_lyrics_tags(buf: &Vec<u8>) -> (r: Vec<u8>)
    ensures
        r@ == strip_untimed(buf@),
{
    let ghost all = buf@;
    // Split into lines and keep the timed ones.
    let mut lines: Vec<Vec<u8>> = Vec::new();
    let mut cur: Vec<u8> = Vec::new();
    let mut i: usize = 0;
    proof {
        assert(all.skip(0) =~= all);
        assert(cur@ =~= Seq::<u8>::empty());
        assert(lines.deep_view() =~= Seq::<Seq<u8>>::empty());
    }
    while i < buf.len()
        invariant
            i <= buf.len(),
            all == buf@,
            timed_lines_of(all) == timed_lines_rec(all.skip(i as int), cur@, lines.deep_view()),
        decreases buf.len() - i,
    {
        let ghost rest = all.skip(i as int);
        let ghost dvl = lines.deep_view();
        let ghost cv = cur@;
        let b = buf[i];
        proof {
            assert(rest[0] == all[i as int]);
            assert(rest.drop_first() =~= all.skip(i + 1 as int));
        }
        if b == 10 {
            if line_is_timed(&cur) {
                lines.push(cur);
                proof {
                    assert(lines.deep_view() =~~= dvl.push(cv));
                }
            }
            cur = Vec::new();
            proof {
                assert(cur@ =~= Seq::<u8>::empty());
            }
        } else {
            cur.push(b);
        }
        i = i + 1;
    }
    let ghost final_lines = timed_lines_of(all);
    let ghost dvl = lines.deep_view();
    let ghost cv = cur@;
    if line_is_timed(&cur) {
        lines.push(cur);
        proof {
            assert(lines.deep_view() =~~= dvl.push(cv));
        }
    }
    proof {
        assert(all.skip(all.len() as int) =~= Seq::<u8>::empty());
        assert(lines.deep_view() == final_lines);
    }

    // Join the kept lines with newlines.
    let ghost lv = lines.deep_view();
    let mut r: Vec<u8> = Vec::new();
    let mut k: usize = 0;
    proof {
        assert(r@ =~= joined_lines(lv.subrange(0, 0)));
    }
    while k < lines.len()
        invariant
            k <= lines.len(),
            lv == lines.deep_view(),
            r@ == joined_lines(lv.subrange(0, k as int)),
        decreases lines.len() - k,
    {
        let ghost pre = lv.subrange(0, k as int);
        let ghost curj = lv.subrange(0, k + 1 as int);
        if k > 0 {
            r.push(10);
        }
        let mut piece = clone_bytes(&lines[k]);
        proof {
            assert(piece@ =~= lv[k as int]);
        }
        r.append(&mut piece);
        proof {
            assert(curj.drop_last() =~= pre);
            assert(curj.last() == lv[k as int]);
            if k == 0 {
                assert(r@ =~= joined_lines(curj));
            } else {
                assert(r@ =~= joined_lines(curj));
            }
        }
        k = k + 1;
    }
    proof {
        assert(lv.subrange(0, lv.len() as int) =~= lv);
    }
    r
}

/// The timestamped lines the lyrics collaborator parses out of a text, a
/// function of the text alone; nothing when the text is malformed.
pub uninterp spec fn lrc_lines_of(text: Seq<u8>) -> Option<Seq<(i64, Seq<char>)>>;

/// Relies on lrc::Lyrics::from_str and lrc::Lyrics::get_timed_lines: the
/// parse is a function of the text alone; it either fails or yields the
/// timed lines in time order, each a millisecond timestamp and its text.
#[verifier::external_body]
fn parse_timed_lyrics(text: &Vec<u8>) -> (r: Option<Vec<(i64, String)>>)
    ensures
        r is Some <==> lrc_lines_of(text@) is Some,
        r is Some ==> r->0.deep_view() == lrc_lines_of(text@)->0,
{
    let s = match core::str::from_utf8(text.as_slice()) {
        Ok(s) => s,
        Err(_) => return None,
    };
    let lyrics = match lrc::Lyrics::from_str(s) {
        Ok(l) => l,
        Err(_) => return None,
    };
    Some(
        lyrics
            .get_timed_lines()
            .iter()
            .map(|(tag, line)| (tag.get_timestamp(), line.to_string()))
            .collect(),
    )
}

/// The lyric lines a track gets for a lyrics buffer: the parse of its
/// timed lines, or none at all when that parse fails.
pub open spec fn spec_lyrics_of(text: Seq<u8>) -> Seq<LyricLineV> {
    match lrc_lines_of(strip_untimed(text)) {
        Some(lines) => lines.map_values(
            |p: (i64, Seq<char>)| LyricLineV { start_time: p.0, text: p.1 },
        ),
        None => Seq::empty(),
    }
}

/// Parse a lyrics buffer: strip untimed lines, hand the rest to the
/// collaborator, and fall back to no lyrics when it cannot parse them.
pub fn lyrics_from_text(text: &Vec<u8>) -> (r: Vec<LyricLine>)
    ensures
        r.deep_view() == spec_lyrics_of(text@),
{
    let filtered = remove_lyrics_tags(text);
    match parse_timed_lyrics(&filtered) {
        Some(pairs) => {
            let ghost pv = pairs.deep_view();
            let mut r: Vec<LyricLine> = Vec::new();
            let mut i: usize = 0;
            while i < pairs.len()
                invariant
                    i <= pairs.len(),
                    pv == pairs.deep_view(),
                    r@.len() == i,
                    forall|j: int|
                        0 <= j < i ==> r@[j]@ == (LyricLineV {
                            start_time: pv[j].0,
                            text: pv[j].1,
                        }),
                decreases pairs.len() - i,
            {
                let start_time = pairs[i].0;
                let text_piece = pairs[i].1.clone();
                proof {
                    assert(pv[i as int].0 == pairs@[i as int].0);
                    assert(pv[i as int].1 == pairs@[i as int].1@);
                }
                r.push(LyricLine { start_time, text: text_piece });
                i = i + 1;
            }
            proof {
                assert(r.deep_view() =~= spec_lyrics_of(text@));
            }
            r
        },
        None => {
            let r: Vec<LyricLine> = Vec::new();
            proof {
                assert(r.deep_view() =~= spec_lyrics_of(text@));
            }
            r
        },
    }
}

} // verus!
