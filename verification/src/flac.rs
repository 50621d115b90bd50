//! The FLAC metadata block layer: `fLaC`, then blocks of a one-byte header
//! (high bit: last block, low seven bits: kind), a 24-bit big-endian length
//! and the block's data; the audio frames follow the last block.

use vstd::prelude::*;
use crate::bytes::{copy_range, push_all, range_equals};

verus! {

/// Kind of a STREAMINFO block.
pub const BLOCK_STREAMINFO: u8 = 0;

/// Kind of a VORBIS_COMMENT block.
pub const BLOCK_VORBIS_COMMENT: u8 = 4;

/// Kind of a PICTURE block.
pub const BLOCK_PICTURE: u8 = 6;

/// Largest data length a block header can express.
pub const MAX_BLOCK_LEN: usize = 0xFF_FFFF;

/// One metadata block.
pub struct MetadataBlock {
    pub kind: u8,
    pub data: Vec<u8>,
}

/// The mathematical value of a metadata block.
pub struct BlockView {
    pub kind: u8,
    pub data: Seq<u8>,
}

impl View for MetadataBlock {
    type V = BlockView;

    open spec fn view(&self) -> BlockView {
        BlockView { kind: self.kind, data: self.data@ }
    }
}

/// The views of a sequence of blocks.
pub open spec fn blocks_view(v: Seq<MetadataBlock>) -> Seq<BlockView> {
    v.map_values(|b: MetadataBlock| b@)
}

/// The four bytes `fLaC` that open every FLAC stream.
pub open spec fn flac_magic() -> Seq<u8> {
    seq![0x66u8, 0x4Cu8, 0x61u8, 0x43u8]
}

/// The data length written in the header at `pos`.
pub open spec fn header_len(s: Seq<u8>, pos: int) -> int {
    s[pos + 1] * 0x10000 + s[pos + 2] * 0x100 + s[pos + 3]
}

/// Parses the blocks that start at `pos`, up to and including the one
/// flagged last; gives the blocks and the offset just after them.
pub open spec fn parse_blocks_from(s: Seq<u8>, pos: int) -> Option<(Seq<BlockView>, int)>
    decreases s.len() - pos,
{
    if pos < 0 || pos + 4 > s.len() {
        None
    } else {
        let end = pos + 4 + header_len(s, pos);
        if end > s.len() {
            None
        } else {
            let b = BlockView { kind: (s[pos] % 128) as u8, data: s.subrange(pos + 4, end) };
            if s[pos] >= 128 {
                Some((seq![b], end))
            } else {
                match parse_blocks_from(s, end) {
                    Some((rest, off)) => Some((seq![b] + rest, off)),
                    None => None,
                }
            }
        }
    }
}

/// Parsed blocks are non-empty and writable, and end within the stream.
pub proof fn lemma_parsed_blocks(s: Seq<u8>, pos: int)
    ensures
        parse_blocks_from(s, pos) matches Some((bs, off)) ==> bs.len() > 0 && writable_blocks(bs)
            && pos < off <= s.len(),
    decreases s.len() - pos,
{
    if 0 <= pos && pos + 4 <= s.len() {
        let end = pos + 4 + header_len(s, pos);
        if end <= s.len() && s[pos] < 128 {
            lemma_parsed_blocks(s, end);
            if let Some((rest, off)) = parse_blocks_from(s, end) {
                let b = BlockView { kind: (s[pos] % 128) as u8, data: s.subrange(pos + 4, end) };
                let bs = seq![b] + rest;
                assert forall|j: int| 0 <= j < bs.len() implies (#[trigger] bs[j]).kind < 128
                    && bs[j].data.len() <= 0xFF_FFFF by {
                    if j > 0 {
                        assert(bs[j] == rest[j - 1]);
                    }
                }
            }
        }
    }
}

/// Whether `s` opens with `fLaC`.
pub open spec fn has_flac_magic(s: Seq<u8>) -> bool {
    s.len() >= 4 && s.subrange(0, 4) == flac_magic()
}

/// The metadata blocks of a FLAC stream and the offset of its audio frames.
pub open spec fn parse_flac(s: Seq<u8>) -> Option<(Seq<BlockView>, int)> {
    if has_flac_magic(s) {
        parse_blocks_from(s, 4)
    } else {
        None
    }
}

/// The header byte of a block: its kind, with the high bit set on the last block.
pub open spec fn header_byte(kind: u8, last: bool) -> u8 {
    if last {
        0x80u8 | kind
    } else {
        kind
    }
}

/// The bytes of one block as written: header byte, 24-bit length, data.
pub open spec fn block_bytes(b: BlockView, last: bool) -> Seq<u8> {
    let n = b.data.len();
    seq![
        header_byte(b.kind, last),
        ((n / 0x10000) % 0x100) as u8,
        ((n / 0x100) % 0x100) as u8,
        (n % 0x100) as u8,
    ] + b.data
}

/// The bytes of the blocks from index `i` on, the final one flagged last.
pub open spec fn blocks_bytes_from(bs: Seq<BlockView>, i: int) -> Seq<u8>
    decreases bs.len() - i,
{
    if i < 0 || i >= bs.len() {
        seq![]
    } else {
        block_bytes(bs[i], i + 1 == bs.len()) + blocks_bytes_from(bs, i + 1)
    }
}

/// The metadata part of a FLAC stream holding `bs`.
pub open spec fn flac_bytes(bs: Seq<BlockView>) -> Seq<u8> {
    flac_magic() + blocks_bytes_from(bs, 0)
}

/// Blocks that can be written and read back unchanged: a kind that fits in
/// seven bits and data that fits the 24-bit length.
pub open spec fn writable_blocks(bs: Seq<BlockView>) -> bool {
    forall|j: int|
        0 <= j < bs.len() ==> (#[trigger] bs[j]).kind < 128 && bs[j].data.len() <= 0xFF_FFFF
}

/// Why a byte string is not a readable FLAC stream.
#[derive(Debug, Clone, Copy, PartialEq, Eq)]
pub enum FlacError {
    /// The stream does not start with `fLaC`.
    NotFlac,
    /// The stream ends inside the magic or inside a metadata block.
    Truncated,
}

/// The metadata blocks of a FLAC stream and where its audio starts.
pub struct FlacMetadata {
    pub blocks: Vec<MetadataBlock>,
    pub audio_offset: usize,
}

/// Reads the metadata blocks of a FLAC stream.
pub fn read_blocks(data: &[u8]) -> (r: Result<FlacMetadata, FlacError>)
    ensures
        match r {
            Ok(m) => parse_flac(data@) == Some((blocks_view(m.blocks@), m.audio_offset as int))
                && m.audio_offset <= data@.len(),
            Err(FlacError::NotFlac) => data@.len() >= 4 && !has_flac_magic(data@),
            Err(FlacError::Truncated) => data@.len() < 4 || (has_flac_magic(data@)
                && parse_flac(data@) is None),
        },
{
    let n = data.len();
    proof {
        lemma_parsed_blocks(data@, 4);
    }
    if n < 4 {
        return Err(FlacError::Truncated);
    }
    let magic: [u8; 4] = [0x66, 0x4C, 0x61, 0x43];
    if !range_equals(data, 0, &magic) {
        assert(magic@ =~= flac_magic());
        return Err(FlacError::NotFlac);
    }
    assert(magic@ =~= flac_magic());
    let mut blocks: Vec<MetadataBlock> = Vec::new();
    let mut pos: usize = 4;
    loop
        invariant
            n == data@.len(),
            4 <= pos <= n,
            has_flac_magic(data@),
            parse_flac(data@) == match parse_blocks_from(data@, pos as int) {
                Some((rest, off)) => Some((blocks_view(blocks@) + rest, off)),
                None => None::<(Seq<BlockView>, int)>,
            },
        decreases n - pos,
    {
        if n - pos < 4 {
            return Err(FlacError::Truncated);
        }
        let header = data[pos];
        let length: usize = (data[pos + 1] as usize) * 0x10000 + (data[pos + 2] as usize) * 0x100
            + (data[pos + 3] as usize);
        assert(length == header_len(data@, pos as int));
        if length > n - pos - 4 {
            return Err(FlacError::Truncated);
        }
        let end = pos + 4 + length;
        let block = MetadataBlock { kind: header % 128, data: copy_range(data, pos + 4, end) };
        let ghost before = blocks_view(blocks@);
        blocks.push(block);
        assert(blocks_view(blocks@) =~= before + seq![block@]);
        if header >= 128 {
            assert(before + seq![block@] =~= blocks_view(blocks@));
            return Ok(FlacMetadata { blocks, audio_offset: end });
        }
        proof {
            match parse_blocks_from(data@, end as int) {
                Some((rest, off)) => {
                    assert(before + (seq![block@] + rest) =~= blocks_view(blocks@) + rest);
                },
                None => {},
            }
        }
        pos = end;
    }
}

/// Writes the metadata part of a FLAC stream: `fLaC` and the blocks, the
/// final one flagged last.
pub fn write_blocks(blocks: &Vec<MetadataBlock>) -> (out: Vec<u8>)
    ensures
        out@ == flac_bytes(blocks_view(blocks@)),
{
    let ghost bs = blocks_view(blocks@);
    let mut out: Vec<u8> = Vec::new();
    out.push(0x66);
    out.push(0x4C);
    out.push(0x61);
    out.push(0x43);
    assert(out@ =~= flac_magic());
    let total = blocks.len();
    let mut index: usize = 0;
    while index < total
        invariant
            total == blocks@.len(),
            bs == blocks_view(blocks@),
            index <= total,
            out@ + blocks_bytes_from(bs, index as int) == flac_bytes(bs),
        decreases total - index,
    {
        let block = &blocks[index];
        let last = index + 1 == total;
        let flag: u8 = if last { 0x80 } else { 0x00 };
        let length = block.data.len();
        let ghost before = out@;
        proof {
            assert(bs[index as int] == block@);
        }
        out.push(flag | block.kind);
        out.push(((length / 0x10000) % 0x100) as u8);
        out.push(((length / 0x100) % 0x100) as u8);
        out.push((length % 0x100) as u8);
        push_all(&mut out, block.data.as_slice());
        proof {
            let k = block.kind;
            assert(0x00u8 | k == k) by (bit_vector);
            assert(out@ =~= before + block_bytes(bs[index as int], last));
            assert(before + blocks_bytes_from(bs, index as int) =~= out@ + blocks_bytes_from(
                bs,
                index + 1,
            ));
        }
        index = index + 1;
    }
    out
}

/// Header byte decoding undoes header byte encoding for a seven-bit kind.
proof fn lemma_header_byte(kind: u8, last: bool)
    requires
        kind < 128,
    ensures
        header_byte(kind, last) % 128 == kind,
        header_byte(kind, last) >= 128 <==> last,
{
    assert(kind < 128 ==> (0x80u8 | kind) % 128 == kind && (0x80u8 | kind) >= 128)
        by (bit_vector);
}

/// The three length bytes of a block give back its length.
proof fn lemma_length_bytes(n: int)
    requires
        0 <= n <= 0xFF_FFFF,
    ensures
        ((n / 0x10000) % 0x100) * 0x10000 + ((n / 0x100) % 0x100) * 0x100 + (n % 0x100) == n,
{
    assert(((n / 0x10000) % 0x100) * 0x10000 + ((n / 0x100) % 0x100) * 0x100 + (n % 0x100) == n)
        by (nonlinear_arith)
        requires
            0 <= n <= 0xFF_FFFF,
    ;
}

/// Parsing the written blocks from `i` on, placed after any prefix and
/// followed by any bytes, gives those blocks back and ends right after them.
proof fn lemma_parse_written_blocks(bs: Seq<BlockView>, i: int, prefix: Seq<u8>, rest: Seq<u8>)
    requires
        0 <= i < bs.len(),
        writable_blocks(bs),
    ensures
        parse_blocks_from(prefix + blocks_bytes_from(bs, i) + rest, prefix.len() as int) == Some(
            (bs.subrange(i, bs.len() as int), (prefix.len() + blocks_bytes_from(bs, i).len()) as int),
        ),
    decreases bs.len() - i,
{
    let s = prefix + blocks_bytes_from(bs, i) + rest;
    let pos = prefix.len() as int;
    let b = bs[i];
    let last = i + 1 == bs.len();
    let bb = block_bytes(b, last);
    assert(b.kind < 128 && b.data.len() <= 0xFF_FFFF);
    lemma_header_byte(b.kind, last);
    lemma_length_bytes(b.data.len() as int);
    assert(blocks_bytes_from(bs, i) == bb + blocks_bytes_from(bs, i + 1));
    assert(s =~= prefix + bb + blocks_bytes_from(bs, i + 1) + rest);
    assert(s[pos] == header_byte(b.kind, last));
    assert(s[pos + 1] == bb[1]);
    assert(s[pos + 2] == bb[2]);
    assert(s[pos + 3] == bb[3]);
    assert(header_len(s, pos) == b.data.len());
    let end = pos + 4 + b.data.len();
    assert(s.subrange(pos + 4, end) =~= b.data);
    let pb = BlockView { kind: (s[pos] % 128) as u8, data: s.subrange(pos + 4, end) };
    assert(pb == b);
    if last {
        assert(blocks_bytes_from(bs, i + 1) == Seq::<u8>::empty());
        assert(bs.subrange(i, bs.len() as int) =~= seq![b]);
    } else {
        let prefix2 = prefix + bb;
        assert(s =~= prefix2 + blocks_bytes_from(bs, i + 1) + rest);
        lemma_parse_written_blocks(bs, i + 1, prefix2, rest);
        assert(bs.subrange(i, bs.len() as int) =~= seq![b] + bs.subrange(i + 1, bs.len() as int));
    }
}

/// Reading back what `write_blocks` wrote, whatever audio follows, gives the
/// same blocks, and the audio starts right after them.
pub proof fn lemma_read_written(bs: Seq<BlockView>, audio: Seq<u8>)
    requires
        bs.len() > 0,
        writable_blocks(bs),
    ensures
        parse_flac(flac_bytes(bs) + audio) == Some((bs, flac_bytes(bs).len() as int)),
{
    let s = flac_bytes(bs) + audio;
    assert(s =~= flac_magic() + blocks_bytes_from(bs, 0) + audio);
    assert(s.subrange(0, 4) =~= flac_magic());
    lemma_parse_written_blocks(bs, 0, flac_magic(), audio);
    assert(bs.subrange(0, bs.len() as int) =~= bs);
}

} // verus!
