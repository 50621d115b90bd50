//! FLAC PICTURE block payloads for cover art, with the image size read from
//! the JPEG or PNG header.

use vstd::prelude::*;
use vstd::string::StringSliceAdditionalSpecFns;
use crate::bytes::{be16_at, be32_at, be32_bytes, push_all, push_be32, range_equals, read_be16, read_be32};

verus! {

/// Picture type of a front cover.
pub const PICTURE_TYPE_FRONT: u32 = 3;

/// Whether a JPEG marker starts a frame (SOFn, without DHT, JPG and DAC).
pub open spec fn is_sof_marker(m: u8) -> bool {
    m == 0xC0 || m == 0xC1 || m == 0xC2 || m == 0xC3 || m == 0xC5 || m == 0xC6 || m == 0xC7
        || m == 0xC9 || m == 0xCA || m == 0xCB || m == 0xCD || m == 0xCE || m == 0xCF
}

/// Whether a JPEG marker stands alone, without a length: SOI, EOI and RST0..RST7.
pub open spec fn is_standalone_marker(m: u8) -> bool {
    m == 0xD8 || m == 0xD9 || (0xD0 <= m && m <= 0xD7)
}

/// The scan for a frame header from `index` on: (width, height), or (0, 0)
/// when no frame header is reached while ten bytes remain.
pub open spec fn jpeg_scan(d: Seq<u8>, index: int) -> (u32, u32)
    decreases d.len() - index,
{
    if index < 0 || index + 9 >= d.len() {
        (0, 0)
    } else if d[index] != 0xFF {
        jpeg_scan(d, index + 1)
    } else {
        let marker = d[index + 1];
        if is_standalone_marker(marker) {
            jpeg_scan(d, index + 2)
        } else if is_sof_marker(marker) && index + 9 <= d.len() {
            (be16_at(d, index + 7) as u32, be16_at(d, index + 5) as u32)
        } else {
            let next = index + 2 + be16_at(d, index + 2);
            if next + 9 >= d.len() {
                (0, 0)
            } else {
                jpeg_scan(d, next)
            }
        }
    }
}

/// (width, height) of a JPEG image, scanning from just after SOI.
pub open spec fn jpeg_size(d: Seq<u8>) -> (u32, u32) {
    jpeg_scan(d, 2)
}

/// The eight-byte PNG signature.
pub open spec fn png_signature() -> Seq<u8> {
    seq![0x89u8, 0x50u8, 0x4Eu8, 0x47u8, 0x0Du8, 0x0Au8, 0x1Au8, 0x0Au8]
}

/// (width, height) from a PNG's IHDR, or (0, 0) when it is not a PNG.
pub open spec fn png_size(d: Seq<u8>) -> (u32, u32) {
    if d.len() >= 24 && d.subrange(0, 8) == png_signature() {
        (be32_at(d, 16) as u32, be32_at(d, 20) as u32)
    } else {
        (0, 0)
    }
}

/// Whether the image starts like a PNG: `\x89PNG`.
pub open spec fn looks_like_png(d: Seq<u8>) -> bool {
    d.len() >= 4 && d.subrange(0, 4) == png_signature().subrange(0, 4)
}

/// `image/png`.
pub open spec fn mime_png() -> Seq<u8> {
    seq![0x69u8, 0x6Du8, 0x61u8, 0x67u8, 0x65u8, 0x2Fu8, 0x70u8, 0x6Eu8, 0x67u8]
}

/// `image/jpeg`.
pub open spec fn mime_jpeg() -> Seq<u8> {
    seq![0x69u8, 0x6Du8, 0x61u8, 0x67u8, 0x65u8, 0x2Fu8, 0x6Au8, 0x70u8, 0x65u8, 0x67u8]
}

/// The MIME type written for an image.
pub open spec fn picture_mime(image: Seq<u8>) -> Seq<u8> {
    if looks_like_png(image) {
        mime_png()
    } else {
        mime_jpeg()
    }
}

/// The (width, height) written for an image.
pub open spec fn picture_size(image: Seq<u8>) -> (u32, u32) {
    if looks_like_png(image) {
        png_size(image)
    } else {
        jpeg_size(image)
    }
}

/// The PICTURE payload of a front cover: type 3, MIME type, description,
/// width, height, colour depth 24, no palette, then the image, each length
/// and number a big-endian `u32`.
pub open spec fn picture_payload(image: Seq<u8>, description: Seq<u8>) -> Seq<u8> {
    let mime = picture_mime(image);
    let (width, height) = picture_size(image);
    be32_bytes(PICTURE_TYPE_FRONT) + be32_bytes(mime.len() as u32) + mime + be32_bytes(
        description.len() as u32,
    ) + description + be32_bytes(width) + be32_bytes(height) + be32_bytes(24) + be32_bytes(0)
        + be32_bytes(image.len() as u32) + image
}

/// The picture type stored in a PICTURE payload: its first four bytes, big-endian,
/// or `u32::MAX` when the payload is shorter.
pub open spec fn picture_type(data: Seq<u8>) -> u32 {
    if data.len() >= 4 {
        be32_at(data, 0) as u32
    } else {
        u32::MAX
    }
}

/// (width, height) of a JPEG image; (0, 0) when no frame header is found.
pub fn jpeg_dimensions(data: &[u8]) -> (size: (u32, u32))
    ensures
        size == jpeg_size(data@),
{
    let n = data.len();
    let mut index: usize = 2;
    while index < n && n - index > 9
        invariant
            n == data@.len(),
            jpeg_scan(data@, index as int) == jpeg_size(data@),
        decreases n - index,
    {
        if data[index] != 0xFF {
            index = index + 1;
            continue;
        }
        let marker = data[index + 1];
        if marker == 0xD8 || marker == 0xD9 || (0xD0 <= marker && marker <= 0xD7) {
            index = index + 2;
            continue;
        }
        let length = read_be16(data, index + 2);
        let is_sof = marker == 0xC0 || marker == 0xC1 || marker == 0xC2 || marker == 0xC3
            || marker == 0xC5 || marker == 0xC6 || marker == 0xC7 || marker == 0xC9 || marker
            == 0xCA || marker == 0xCB || marker == 0xCD || marker == 0xCE || marker == 0xCF;
        if is_sof && index + 9 <= n {
            let height = read_be16(data, index + 5);
            let width = read_be16(data, index + 7);
            return (width, height);
        }
        assert(is_sof == is_sof_marker(marker));
        if (length as usize) + 11 >= n - index {
            return (0, 0);
        }
        index = index + 2 + (length as usize);
    }
    (0, 0)
}

/// (width, height) from a PNG's IHDR; (0, 0) when `data` is not a PNG.
pub fn png_dimensions(data: &[u8]) -> (size: (u32, u32))
    ensures
        size == png_size(data@),
{
    let signature: [u8; 8] = [0x89, 0x50, 0x4E, 0x47, 0x0D, 0x0A, 0x1A, 0x0A];
    assert(signature@ =~= png_signature());
    if data.len() >= 24 && range_equals(data, 0, &signature) {
        let width = read_be32(data, 16);
        let height = read_be32(data, 20);
        return (width, height);
    }
    (0, 0)
}

/// The PICTURE payload for `image` as the front cover, described by `description`.
pub fn build_picture_block(image: &[u8], description: &str) -> (block: Vec<u8>)
    ensures
        block@ == picture_payload(image@, description.spec_bytes()),
{
    let prefix: [u8; 4] = [0x89, 0x50, 0x4E, 0x47];
    assert(prefix@ =~= png_signature().subrange(0, 4));
    let png = range_equals(image, 0, &prefix);
    let mime: Vec<u8> = if png {
        vec![0x69, 0x6D, 0x61, 0x67, 0x65, 0x2F, 0x70, 0x6E, 0x67]
    } else {
        vec![0x69, 0x6D, 0x61, 0x67, 0x65, 0x2F, 0x6A, 0x70, 0x65, 0x67]
    };
    assert(mime@ =~= picture_mime(image@));
    let (width, height) = if png {
        png_dimensions(image)
    } else {
        jpeg_dimensions(image)
    };
    let desc = description.as_bytes();
    let mut block: Vec<u8> = Vec::new();
    push_be32(&mut block, PICTURE_TYPE_FRONT);
    push_be32(&mut block, mime.len() as u32);
    push_all(&mut block, mime.as_slice());
    push_be32(&mut block, desc.len() as u32);
    push_all(&mut block, desc);
    push_be32(&mut block, width);
    push_be32(&mut block, height);
    push_be32(&mut block, 24);
    push_be32(&mut block, 0);
    push_be32(&mut block, image.len() as u32);
    push_all(&mut block, image);
    block
}

/// The picture type of a PICTURE payload.
pub fn read_picture_type(data: &[u8]) -> (t: u32)
    ensures
        t == picture_type(data@),
{
    if data.len() >= 4 {
        read_be32(data, 0)
    } else {
        u32::MAX
    }
}

/// Every payload that `build_picture_block` writes declares a front cover.
pub proof fn lemma_payload_is_front_cover(image: Seq<u8>, description: Seq<u8>)
    ensures
        picture_type(picture_payload(image, description)) == PICTURE_TYPE_FRONT,
{
    let p = picture_payload(image, description);
    assert(p.subrange(0, 4) =~= be32_bytes(PICTURE_TYPE_FRONT));
    assert(p[0] == 0 && p[1] == 0 && p[2] == 0 && p[3] == 3);
}

/// The fields of a PICTURE payload as a FLAC reader takes them apart: picture
/// type, MIME type, description, width, height, colour depth, palette size
/// and picture data, each text or data preceded by its big-endian `u32`
/// length; `None` unless the fields end exactly at the end of the payload.
pub open spec fn read_picture_fields(p: Seq<u8>) -> Option<
    (u32, Seq<u8>, Seq<u8>, u32, u32, u32, u32, Seq<u8>),
> {
    if p.len() < 8 {
        None
    } else {
        let m = be32_at(p, 4);
        let d_at = 8 + m;
        if d_at + 4 > p.len() {
            None
        } else {
            let d = be32_at(p, d_at);
            let w_at = d_at + 4 + d;
            if w_at + 20 > p.len() {
                None
            } else {
                let n = be32_at(p, w_at + 16);
                if w_at + 20 + n != p.len() {
                    None
                } else {
                    Some(
                        (
                            be32_at(p, 0) as u32,
                            p.subrange(8, d_at),
                            p.subrange(d_at + 4, w_at),
                            be32_at(p, w_at) as u32,
                            be32_at(p, w_at + 4) as u32,
                            be32_at(p, w_at + 8) as u32,
                            be32_at(p, w_at + 12) as u32,
                            p.subrange(w_at + 20, p.len() as int),
                        ),
                    )
                }
            }
        }
    }
}

/// A big-endian `u32` reads back as the value written.
pub proof fn lemma_be32_reads_back(s: Seq<u8>, i: int, v: u32)
    requires
        0 <= i,
        i + 4 <= s.len(),
        s.subrange(i, i + 4) == be32_bytes(v),
    ensures
        be32_at(s, i) == v,
{
    assert(s[i] == s.subrange(i, i + 4)[0]);
    assert(s[i + 1] == s.subrange(i, i + 4)[1]);
    assert(s[i + 2] == s.subrange(i, i + 4)[2]);
    assert(s[i + 3] == s.subrange(i, i + 4)[3]);
    assert((v / 0x1000000) as u8 as int * 0x1000000 + ((v / 0x10000) % 0x100) as u8 as int
        * 0x10000 + ((v / 0x100) % 0x100) as u8 as int * 0x100 + (v % 0x100) as u8 as int == v)
        by (bit_vector);
}

/// A written cover reads back field by field: a FLAC reader finds the front
/// cover type, the MIME type, exactly the description's bytes, the image's
/// width and height, depth 24, no palette, and exactly the image.
#[verifier::rlimit(50)]
pub proof fn lemma_picture_reads_back(image: Seq<u8>, description: Seq<u8>)
    requires
        image.len() <= u32::MAX,
        description.len() <= u32::MAX,
    ensures
        read_picture_fields(picture_payload(image, description)) == Some(
            (
                PICTURE_TYPE_FRONT,
                picture_mime(image),
                description,
                picture_size(image).0,
                picture_size(image).1,
                24u32,
                0u32,
                image,
            ),
        ),
{
    let mime = picture_mime(image);
    let (width, height) = picture_size(image);
    let p = picture_payload(image, description);
    let s0 = be32_bytes(PICTURE_TYPE_FRONT);
    let s1 = s0 + be32_bytes(mime.len() as u32);
    let s2 = s1 + mime;
    let s3 = s2 + be32_bytes(description.len() as u32);
    let s4 = s3 + description;
    let s5 = s4 + be32_bytes(width);
    let s6 = s5 + be32_bytes(height);
    let s7 = s6 + be32_bytes(24);
    let s8 = s7 + be32_bytes(0);
    let s9 = s8 + be32_bytes(image.len() as u32);
    assert(p =~= s9 + image);
    let m = mime.len() as int;
    let d = description.len() as int;
    assert(m <= 10);
    assert(p.subrange(0, 4) =~= s0);
    lemma_be32_reads_back(p, 0, PICTURE_TYPE_FRONT);
    assert(p.subrange(4, 8) =~= be32_bytes(mime.len() as u32));
    lemma_be32_reads_back(p, 4, mime.len() as u32);
    assert(p.subrange(8, 8 + m) =~= mime);
    assert(p.subrange(8 + m, 12 + m) =~= be32_bytes(description.len() as u32));
    lemma_be32_reads_back(p, 8 + m, description.len() as u32);
    assert(p.subrange(12 + m, 12 + m + d) =~= description);
    let w = 12 + m + d;
    assert(p.subrange(w, w + 4) =~= be32_bytes(width));
    lemma_be32_reads_back(p, w, width);
    assert(p.subrange(w + 4, w + 8) =~= be32_bytes(height));
    lemma_be32_reads_back(p, w + 4, height);
    assert(p.subrange(w + 8, w + 12) =~= be32_bytes(24));
    lemma_be32_reads_back(p, w + 8, 24);
    assert(p.subrange(w + 12, w + 16) =~= be32_bytes(0));
    lemma_be32_reads_back(p, w + 12, 0);
    assert(p.subrange(w + 16, w + 20) =~= be32_bytes(image.len() as u32));
    lemma_be32_reads_back(p, w + 16, image.len() as u32);
    assert(p.subrange(w + 20, p.len() as int) =~= image);
}

} // verus!
