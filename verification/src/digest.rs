//! Content digests and their hexadecimal rendering.
//!
//! Album identity and the watched-root fingerprint are both digests over
//! byte strings, rendered as lower-case hexadecimal. The digest itself is
//! computed by an outside routine and is only named here; everything said
//! about an identifier goes through that name, so two equal byte strings
//! always yield the same identifier.

use vstd::prelude::*;

verus! {

/// The 16-byte digest that the outside MD5 routine computes for `data`.
pub uninterp spec fn md5_of(data: Seq<u8>) -> Seq<u8>;

/// Relies on md5::compute: the digest is a function of the input bytes
/// alone, and is always 16 bytes long.
#[verifier::external_body]
fn md5_digest(data: &Vec<u8>) -> (r: [u8; 16])
    ensures
        r@ == md5_of(data@),
{
    md5::compute(data.as_slice()).0
}

/// The hexadecimal digit for a value below 16.
pub open spec fn hex_digit(n: u8) -> char {
    "0123456789abcdef"@[n as int]
}

/// Lower-case hexadecimal rendering of a byte string, two digits per byte.
pub open spec fn hex_of(bytes: Seq<u8>) -> Seq<char>
    decreases bytes.len(),
{
    if bytes.len() == 0 {
        seq![]
    } else {
        hex_of(bytes.drop_last()) + seq![
            hex_digit(bytes.last() / 16),
            hex_digit(bytes.last() % 16),
        ]
    }
}

pub proof fn lemma_hex_of_len(bytes: Seq<u8>)
    ensures
        hex_of(bytes).len() == 2 * bytes.len(),
    decreases bytes.len(),
{
    if bytes.len() > 0 {
        lemma_hex_of_len(bytes.drop_last());
    }
}

/// Render one byte string as lower-case hexadecimal.
pub fn to_hex(bytes: &Vec<u8>) -> (r: String)
    ensures
        r@ == hex_of(bytes@),
{
    let table = "0123456789abcdef";
    proof {
        reveal_strlit("0123456789abcdef");
    }
    let mut r = String::new();
    let mut i: usize = 0;
    while i < bytes.len()
        invariant
            i <= bytes.len(),
            table@ == "0123456789abcdef"@,
            table.is_ascii(),
            table@.len() == 16,
            r@ == hex_of(bytes@.subrange(0, i as int)),
        decreases bytes.len() - i,
    {
        let b = bytes[i];
        let hi = (b / 16) as usize;
        let lo = (b % 16) as usize;
        r.append(table.substring_ascii(hi, hi + 1));
        r.append(table.substring_ascii(lo, lo + 1));
        proof {
            let pre = bytes@.subrange(0, i as int);
            let cur = bytes@.subrange(0, i + 1 as int);
            assert(cur.drop_last() =~= pre);
            assert(cur.last() == b);
            assert(table@.subrange(hi as int, hi + 1 as int) =~= seq![hex_digit(b / 16)]);
            assert(table@.subrange(lo as int, lo + 1 as int) =~= seq![hex_digit(b % 16)]);
            assert(r@ =~= hex_of(cur));
        }
        i = i + 1;
    }
    proof {
        assert(bytes@.subrange(0, bytes@.len() as int) =~= bytes@);
    }
    r
}

/// The lower-case hexadecimal MD5 identifier of a byte string.
pub open spec fn digest_id_of(data: Seq<u8>) -> Seq<char> {
    hex_of(md5_of(data))
}

/// Compute the hexadecimal MD5 identifier of `data`.
pub fn digest_id(data: &Vec<u8>) -> (r: String)
    ensures
        r@ == digest_id_of(data@),
{
    let d = md5_digest(data);
    let mut v: Vec<u8> = Vec::new();
    let mut i: usize = 0;
    while i < 16
        invariant
            i <= 16,
            v@ =~= d@.subrange(0, i as int),
        decreases 16 - i,
    {
        v.push(d[i]);
        proof {
            assert(v@ =~= d@.subrange(0, i + 1 as int));
        }
        i = i + 1;
    }
    proof {
        assert(v@ =~= d@);
    }
    to_hex(&v)
}

} // verus!
