//! Recognition of image payloads by their leading magic bytes.

use vstd::prelude::*;

verus! {

/// JPEG data starts with `FF D8 FF`.
pub open spec fn has_jpeg_magic(d: Seq<u8>) -> bool {
    d.len() >= 3 && d[0] == 0xFF && d[1] == 0xD8 && d[2] == 0xFF
}

/// PNG data starts with `89 50 4E 47`.
pub open spec fn has_png_magic(d: Seq<u8>) -> bool {
    d.len() >= 4 && d[0] == 0x89 && d[1] == 0x50 && d[2] == 0x4E && d[3] == 0x47
}

/// GIF data starts with `47 49 46 38`.
pub open spec fn has_gif_magic(d: Seq<u8>) -> bool {
    d.len() >= 4 && d[0] == 0x47 && d[1] == 0x49 && d[2] == 0x46 && d[3] == 0x38
}

/// Data that starts like a JPEG, PNG or GIF file.
pub open spec fn is_image_data(d: Seq<u8>) -> bool {
    has_jpeg_magic(d) || has_png_magic(d) || has_gif_magic(d)
}

/// Whether `data` starts with the magic bytes of a JPEG, PNG or GIF file.
pub fn is_image(data: &[u8]) -> (r: bool)
    ensures
        r == is_image_data(data@),
{
    if data.len() >= 3 && data[0] == 0xFF && data[1] == 0xD8 && data[2] == 0xFF {
        return true;
    }
    if data.len() >= 4 && data[0] == 0x89 && data[1] == 0x50 && data[2] == 0x4E && data[3] == 0x47 {
        return true;
    }
    if data.len() >= 4 && data[0] == 0x47 && data[1] == 0x49 && data[2] == 0x46 && data[3] == 0x38 {
        return true;
    }
    false
}

/// Data that begins with a JPEG, PNG or GIF signature is an image whatever
/// follows, and data whose first byte begins none of the signatures is not.
pub proof fn lemma_image_signatures(rest: Seq<u8>, d: Seq<u8>)
    ensures
        is_image_data(seq![0xFFu8, 0xD8u8, 0xFFu8] + rest),
        is_image_data(seq![0x89u8, 0x50u8, 0x4Eu8, 0x47u8] + rest),
        is_image_data(seq![0x47u8, 0x49u8, 0x46u8, 0x38u8] + rest),
        d.len() < 3 ==> !is_image_data(d),
        d.len() > 0 && d[0] != 0xFF && d[0] != 0x89 && d[0] != 0x47 ==> !is_image_data(d),
{
    let j = seq![0xFFu8, 0xD8u8, 0xFFu8] + rest;
    let p = seq![0x89u8, 0x50u8, 0x4Eu8, 0x47u8] + rest;
    let g = seq![0x47u8, 0x49u8, 0x46u8, 0x38u8] + rest;
    assert(j[0] == 0xFF && j[1] == 0xD8 && j[2] == 0xFF);
    assert(p[0] == 0x89 && p[1] == 0x50 && p[2] == 0x4E && p[3] == 0x47);
    assert(g[0] == 0x47 && g[1] == 0x49 && g[2] == 0x46 && g[3] == 0x38);
}

/// Only the first four bytes decide: bytes appended to image data leave it
/// image data, and data that is not an image stays so whatever follows its
/// first four bytes.
pub proof fn lemma_image_decided_by_prefix(d: Seq<u8>, rest: Seq<u8>)
    ensures
        is_image_data(d) ==> is_image_data(d + rest),
        d.len() >= 4 ==> (is_image_data(d + rest) == is_image_data(d)),
{
    let e = d + rest;
    if d.len() >= 3 {
        assert(e[0] == d[0] && e[1] == d[1] && e[2] == d[2]);
    }
    if d.len() >= 4 {
        assert(e[3] == d[3]);
    }
}

} // verus!
