//! STREAMINFO: sample rate and bit depth of a FLAC stream, and the quality
//! markers that QQ Music stores for them.

use vstd::prelude::*;
use crate::bytes::{be32_at, read_be32};
use crate::flac::{blocks_view, parse_flac, read_blocks, BlockView, BLOCK_STREAMINFO};

verus! {

/// The 64-bit big-endian field at bytes 10..18 of STREAMINFO, which packs
/// sample rate (20 bits), channels - 1 (3 bits), bits per sample - 1 (5 bits)
/// and the total sample count (36 bits).
pub open spec fn packed_field(d: Seq<u8>) -> int {
    be32_at(d, 10) * 0x1_0000_0000 + be32_at(d, 14)
}

/// (sample rate, bit depth) of a STREAMINFO payload; `None` when it is
/// shorter than 18 bytes or declares a sample rate of 0.
pub open spec fn stream_info(d: Seq<u8>) -> Option<(u32, u32)> {
    if d.len() < 18 {
        None
    } else {
        let bits = packed_field(d);
        let rate = bits / 0x1000_0000_0000;
        let depth = (bits / 0x10_0000_0000) % 32 + 1;
        if rate == 0 {
            None
        } else {
            Some((rate as u32, depth as u32))
        }
    }
}

/// The first STREAMINFO block among `bs`, from `i` on.
pub open spec fn first_stream_info_from(bs: Seq<BlockView>, i: int) -> Option<Seq<u8>>
    decreases bs.len() - i,
{
    if i < 0 || i >= bs.len() {
        None
    } else if bs[i].kind == BLOCK_STREAMINFO {
        Some(bs[i].data)
    } else {
        first_stream_info_from(bs, i + 1)
    }
}

/// (sample rate, bit depth) of a FLAC file, read from its first STREAMINFO block.
pub open spec fn file_stream_info(file: Seq<u8>) -> Option<(u32, u32)> {
    match parse_flac(file) {
        None => None,
        Some((bs, _)) => match first_stream_info_from(bs, 0) {
            None => None,
            Some(d) => stream_info(d),
        },
    }
}

/// The (songQuality, songRate) pair QQ Music writes for a sample rate and
/// depth: 24-bit at 176.4 kHz or more is (7, 204), 16-bit 44.1 kHz is (2, 7);
/// any other format has none.
pub open spec fn quality_for(sample_rate: u32, depth: u32) -> Option<(u32, u32)> {
    if depth == 24 && sample_rate >= 176_400 {
        Some((7, 204))
    } else if sample_rate == 44_100 && depth == 16 {
        Some((2, 7))
    } else {
        None
    }
}

/// Reads (sample rate, bit depth) from a STREAMINFO payload.
pub fn parse_stream_info(data: &[u8]) -> (r: Option<(u32, u32)>)
    ensures
        r == stream_info(data@),
{
    if data.len() < 18 {
        return None;
    }
    let high = read_be32(data, 10) as u64;
    let low = read_be32(data, 14) as u64;
    let bits: u64 = high * 0x1_0000_0000 + low;
    let sample_rate = (bits / 0x1000_0000_0000) as u32;
    let depth = ((bits / 0x10_0000_0000) % 32) as u32 + 1;
    if sample_rate == 0 {
        None
    } else {
        Some((sample_rate, depth))
    }
}

/// (sample rate, bit depth) of a FLAC file; `None` when the file is not
/// readable FLAC, has no STREAMINFO, or that block is unusable.
pub fn flac_stream_info(file: &[u8]) -> (r: Option<(u32, u32)>)
    ensures
        r == file_stream_info(file@),
{
    let meta = match read_blocks(file) {
        Ok(m) => m,
        Err(_) => return None,
    };
    let ghost bs = blocks_view(meta.blocks@);
    let mut i: usize = 0;
    while i < meta.blocks.len()
        invariant
            bs == blocks_view(meta.blocks@),
            parse_flac(file@) == Some((bs, meta.audio_offset as int)),
            i <= meta.blocks@.len(),
            first_stream_info_from(bs, 0) == first_stream_info_from(bs, i as int),
        decreases meta.blocks@.len() - i,
    {
        assert(bs[i as int] == meta.blocks@[i as int]@);
        if meta.blocks[i].kind == BLOCK_STREAMINFO {
            assert(first_stream_info_from(bs, i as int) == Some(meta.blocks@[i as int].data@));
            let r = parse_stream_info(meta.blocks[i].data.as_slice());
            return r;
        }
        i = i + 1;
    }
    None
}

/// The (songQuality, songRate) markers for a sample rate and depth.
pub fn quality_markers(sample_rate: u32, depth: u32) -> (r: Option<(u32, u32)>)
    ensures
        r == quality_for(sample_rate, depth),
{
    if depth == 24 && sample_rate >= 176_400 {
        Some((7, 204))
    } else if sample_rate == 44_100 && depth == 16 {
        Some((2, 7))
    } else {
        None
    }
}

/// A STREAMINFO payload reads back the sample rate and bit depth written
/// into it: with the minimum and maximum block and frame sizes in the first
/// ten bytes, the packed field holds the 20-bit sample rate, channels - 1 in
/// three bits, bits per sample - 1 in five bits and the 36-bit sample count.
pub proof fn lemma_stream_info_reads_back(
    head: Seq<u8>,
    rate: u32,
    channels: u32,
    depth: u32,
    samples_high: u32,
    samples_low: u32,
    tail: Seq<u8>,
)
    requires
        head.len() == 10,
        0 < rate < 0x10_0000,
        1 <= channels <= 8,
        1 <= depth <= 32,
        samples_high < 16,
    ensures
        stream_info(
            head + crate::bytes::be32_bytes(
                (rate * 4096 + (channels - 1) * 512 + (depth - 1) * 16 + samples_high) as u32,
            ) + crate::bytes::be32_bytes(samples_low) + tail,
        ) == Some((rate, depth)),
{
    let hi = (rate * 4096 + (channels - 1) * 512 + (depth - 1) * 16 + samples_high) as u32;
    let d = head + crate::bytes::be32_bytes(hi) + crate::bytes::be32_bytes(samples_low) + tail;
    assert(d.subrange(10, 14) =~= crate::bytes::be32_bytes(hi));
    assert(d.subrange(14, 18) =~= crate::bytes::be32_bytes(samples_low));
    crate::picture::lemma_be32_reads_back(d, 10, hi);
    crate::picture::lemma_be32_reads_back(d, 14, samples_low);
    let bits = packed_field(d);
    assert(bits == hi * 0x1_0000_0000 + samples_low);
    let low_part = (channels - 1) * 512 + (depth - 1) * 16 + samples_high;
    assert(0 <= low_part < 4096);
    assert(hi == rate * 4096 + low_part);
    assert(bits / 0x1000_0000_0000 == rate) by (nonlinear_arith)
        requires
            bits == hi * 0x1_0000_0000 + samples_low,
            hi == rate * 4096 + low_part,
            0 <= low_part < 4096,
            0 <= samples_low < 0x1_0000_0000,
    ;
    assert(bits / 0x10_0000_0000 == hi / 16) by (nonlinear_arith)
        requires
            bits == hi * 0x1_0000_0000 + samples_low,
            0 <= samples_low < 0x1_0000_0000,
            0 <= hi,
    ;
    let x = rate * 8 + (channels - 1);
    assert(hi == (x * 32 + (depth - 1)) * 16 + samples_high);
    assert(hi / 16 == x * 32 + (depth - 1));
    assert((x * 32 + (depth - 1)) % 32 == depth - 1) by (nonlinear_arith)
        requires
            0 <= x,
            0 <= depth - 1 < 32,
    ;
}

} // verus!
