//! The cover image of a track.

use vstd::prelude::*;
use vstd::string::*;

verus! {

/// The eight bytes that every PNG file begins with.
pub open spec fn png_signature() -> Seq<u8> {
    seq![0x89u8, 0x50u8, 0x4Eu8, 0x47u8, 0x0Du8, 0x0Au8, 0x1Au8, 0x0Au8]
}

/// Whether an image begins as a PNG file does.
pub open spec fn is_png(image: Seq<u8>) -> bool {
    image.len() >= 8 && image.subrange(0, 8) == png_signature()
}

/// The media type under which an image is embedded: PNG where it begins as
/// one, JPEG otherwise.
pub open spec fn media_type(image: Seq<u8>) -> Seq<u8> {
    if is_png(image) {
        vstd::utf8::encode_utf8("image/png"@)
    } else {
        vstd::utf8::encode_utf8("image/jpeg"@)
    }
}

/// Tells a PNG image by its first eight bytes.
pub fn looks_like_png(image: &[u8]) -> (r: bool)
    ensures
        r == is_png(image@),
{
    if image.len() < 8 {
        return false;
    }
    let r = image[0] == 0x89 && image[1] == 0x50 && image[2] == 0x4E && image[3] == 0x47
        && image[4] == 0x0D && image[5] == 0x0A && image[6] == 0x1A && image[7] == 0x0A;
    assert(r == (image@.subrange(0, 8) =~= png_signature()));
    r
}

/// The media type under which the image is embedded.
pub fn media_type_of(image: &[u8]) -> (r: &'static [u8])
    ensures
        r@ == media_type(image@),
{
    if looks_like_png(image) {
        "image/png".as_bytes()
    } else {
        "image/jpeg".as_bytes()
    }
}

} // verus!
