//! Cover artwork: the content-addressed cache path and colour extraction.
//!
//! A cover is cached at `{covers_dir}/{album identifier}{ext}`; the path is
//! a function of the album identity alone, so tracks sharing an album name
//! and primary artist share one cache file, and the presence of that file
//! is the cache-hit signal. Decoding the image and quantizing its dominant
//! colour are done by outside collaborators whose results are only named.

use vstd::prelude::*;

use crate::color::Color;
use crate::track::{primary_artist_of, track_well_keyed, TrackV};

verus! {

/// The raw 8-bit RGB pixel buffer the image collaborator decodes `data`
/// to, when `data` is a supported image in that layout.
pub uninterp spec fn rgb8_pixels_of(data: Seq<u8>) -> Option<Seq<u8>>;

/// Relies on image::load_from_memory: decoding is a function of the input
/// bytes alone; the raw buffer is returned only when the bytes decode to an
/// 8-bit RGB image.
#[verifier::external_body]
fn decode_rgb8(data: &Vec<u8>) -> (r: Option<Vec<u8>>)
    ensures
        r is Some <==> rgb8_pixels_of(data@) is Some,
        r is Some ==> r->0@ == rgb8_pixels_of(data@)->0,
{
    match image::load_from_memory(data.as_slice()) {
        Ok(image::DynamicImage::ImageRgb8(buf)) => Some(buf.into_raw()),
        _ => None,
    }
}

/// The dominant colour the quantizer reports for an RGB pixel buffer, if
/// any.
pub uninterp spec fn dominant_rgb_of(pixels: Seq<u8>) -> Option<(u8, u8, u8)>;

/// Relies on color_thief::get_palette: the palette is a function of the
/// pixel buffer alone. The call asks for the smallest palette the routine
/// accepts (two slots, full quality) and keeps its first entry.
#[verifier::external_body]
fn palette_primary(pixels: &Vec<u8>) -> (r: Option<(u8, u8, u8)>)
    ensures
        r == dominant_rgb_of(pixels@),
{
    match color_thief::get_palette(pixels.as_slice(), color_thief::ColorFormat::Rgb, 1, 2) {
        Ok(colors) => colors.first().map(|c| (c.r, c.g, c.b)),
        Err(_) => None,
    }
}

/// The dominant colour of an encoded cover image: decode, then quantize.
pub open spec fn spec_color_of_cover(data: Seq<u8>) -> Option<Color> {
    match rgb8_pixels_of(data) {
        Some(p) => match dominant_rgb_of(p) {
            Some(c) => Some(Color { r: c.0, g: c.1, b: c.2 }),
            None => None,
        },
        None => None,
    }
}

/// Extract the dominant colour of an encoded cover image, if the image
/// decodes and quantizes.
pub fn color_of_cover(data: &Vec<u8>) -> (r: Option<Color>)
    ensures
        r == spec_color_of_cover(data@),
{
    match decode_rgb8(data) {
        Some(pixels) => match palette_primary(&pixels) {
            Some(c) => Some(Color { r: c.0, g: c.1, b: c.2 }),
            None => None,
        },
        None => None,
    }
}

/// The cache path of a cover: `{dir}/{id}{ext}`.
pub open spec fn spec_cover_path(dir: Seq<char>, id: Seq<char>, ext: Seq<char>) -> Seq<char> {
    dir + "/"@ + id + ext
}

/// Build the cache path a cover with album identifier `id` is stored at.
pub fn cover_path(dir: &String, id: &String, ext: &String) -> (r: String)
    ensures
        r@ == spec_cover_path(dir@, id@, ext@),
{
    let mut r = dir.clone();
    r.append("/");
    r.append(id.as_str());
    r.append(ext.as_str());
    r
}

/// Two tracks that agree on album name and primary artist share one album
/// identifier, hence one cover cache path: the second extraction finds the
/// file the first one wrote and skips decoding and colour extraction.
pub proof fn lemma_shared_cover_path(t1: TrackV, t2: TrackV, dir: Seq<char>, ext: Seq<char>)
    requires
        track_well_keyed(t1),
        track_well_keyed(t2),
        t1.album == t2.album,
        primary_artist_of(t1.artists) == primary_artist_of(t2.artists),
    ensures
        t1.album_id == t2.album_id,
        spec_cover_path(dir, t1.album_id, ext) == spec_cover_path(dir, t2.album_id, ext),
{
}

} // verus!
