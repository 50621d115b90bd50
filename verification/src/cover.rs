//! Replacing the front cover of a FLAC file: every PICTURE block of type 3 is
//! dropped, one new front cover goes in after the Vorbis comment (or after the
//! first block), and every other block and the audio frames stay as they were.

use vstd::prelude::*;
use vstd::string::StringSliceAdditionalSpecFns;
use crate::bytes::{copy_range, push_range};
use crate::flac::{
    blocks_view, lemma_parsed_blocks, flac_bytes, has_flac_magic, lemma_read_written, parse_blocks_from, parse_flac,
    read_blocks, write_blocks, writable_blocks, BlockView, FlacError, MetadataBlock,
    BLOCK_PICTURE, BLOCK_VORBIS_COMMENT,
};
use crate::picture::{
    build_picture_block, lemma_payload_is_front_cover, picture_payload, picture_type,
    read_picture_type, PICTURE_TYPE_FRONT,
};

verus! {

/// A PICTURE block holding a front cover.
pub open spec fn is_front_picture(b: BlockView) -> bool {
    b.kind == BLOCK_PICTURE && picture_type(b.data) == PICTURE_TYPE_FRONT
}

/// A PICTURE block holding any other picture (back cover, artist, ...).
pub open spec fn is_other_picture(b: BlockView) -> bool {
    b.kind == BLOCK_PICTURE && !is_front_picture(b)
}

/// How many blocks satisfy `p`.
pub open spec fn count_where(bs: Seq<BlockView>, p: spec_fn(BlockView) -> bool) -> nat
    decreases bs.len(),
{
    if bs.len() == 0 {
        0
    } else {
        count_where(bs.drop_last(), p) + if p(bs.last()) {
            1nat
        } else {
            0nat
        }
    }
}

/// The front-cover test as a predicate.
pub open spec fn front_pred() -> spec_fn(BlockView) -> bool {
    |b: BlockView| is_front_picture(b)
}

/// The other-picture test as a predicate.
pub open spec fn other_pred() -> spec_fn(BlockView) -> bool {
    |b: BlockView| is_other_picture(b)
}

/// Number of front covers.
pub open spec fn count_front(bs: Seq<BlockView>) -> nat {
    count_where(bs, front_pred())
}

/// Number of other pictures.
pub open spec fn count_other(bs: Seq<BlockView>) -> nat {
    count_where(bs, other_pred())
}

/// The blocks, in order, without the front covers.
pub open spec fn without_front(bs: Seq<BlockView>) -> Seq<BlockView>
    decreases bs.len(),
{
    if bs.len() == 0 {
        seq![]
    } else if is_front_picture(bs.last()) {
        without_front(bs.drop_last())
    } else {
        without_front(bs.drop_last()).push(bs.last())
    }
}

/// Index of the first Vorbis comment block at or after `i`, if any.
pub open spec fn first_comment_from(bs: Seq<BlockView>, i: int) -> Option<int>
    decreases bs.len() - i,
{
    if i < 0 || i >= bs.len() {
        None
    } else if bs[i].kind == BLOCK_VORBIS_COMMENT {
        Some(i)
    } else {
        first_comment_from(bs, i + 1)
    }
}

/// The first Vorbis comment found from `i` on lies in range.
proof fn lemma_first_comment_in_range(bs: Seq<BlockView>, i: int)
    ensures
        first_comment_from(bs, i) matches Some(k) ==> 0 <= i <= k < bs.len() && bs[k].kind
            == BLOCK_VORBIS_COMMENT,
    decreases bs.len() - i,
{
    if 0 <= i < bs.len() && bs[i].kind != BLOCK_VORBIS_COMMENT {
        lemma_first_comment_in_range(bs, i + 1);
    }
}

/// Where the new cover goes: right after the first Vorbis comment, else
/// after the first block (at 0 when there is none).
pub open spec fn cover_position(bs: Seq<BlockView>) -> int {
    match first_comment_from(bs, 0) {
        Some(i) => i + 1,
        None => if bs.len() >= 1 {
            1
        } else {
            0
        },
    }
}

/// The blocks after the cover is replaced by the PICTURE payload `picture`.
pub open spec fn with_new_cover(bs: Seq<BlockView>, picture: Seq<u8>) -> Seq<BlockView> {
    let kept = without_front(bs);
    kept.insert(cover_position(kept), BlockView { kind: BLOCK_PICTURE, data: picture })
}

/// Why the cover could not be written.
#[derive(Debug, Clone, Copy, PartialEq, Eq)]
pub enum EmbedError {
    /// The file does not start with `fLaC`.
    NotFlac,
    /// The file ends inside its metadata.
    Truncated,
    /// The rewritten metadata cannot be read back.
    CheckUnreadable,
    /// The rewritten file does not hold exactly one front cover, the other
    /// pictures and the audio of the input file.
    CheckFailed {
        front_pictures: usize,
        kept_pictures: usize,
        expected_kept: usize,
        target_audio: usize,
        source_audio: usize,
    },
}

/// The outcome of writing `image` as the front cover of the FLAC file `file`:
/// the new file, once it reads back with exactly one front cover, as many
/// other pictures as before, and audio of the same length.
pub open spec fn embed_outcome(file: Seq<u8>, image: Seq<u8>, description: Seq<u8>) -> Result<
    Seq<u8>,
    EmbedError,
> {
    match parse_flac(file) {
        None => Err(
            if file.len() >= 4 && !has_flac_magic(file) {
                EmbedError::NotFlac
            } else {
                EmbedError::Truncated
            },
        ),
        Some((bs, off)) => {
            let out = flac_bytes(with_new_cover(bs, picture_payload(image, description)))
                + file.subrange(off, file.len() as int);
            match parse_flac(out) {
                None => Err(EmbedError::CheckUnreadable),
                Some((check, check_off)) => {
                    let fronts = count_front(check);
                    let kept = count_other(check);
                    let expected = count_other(bs);
                    let source_audio = file.len() - off;
                    let target_audio = out.len() - check_off;
                    if fronts == 1 && kept == expected && source_audio == target_audio {
                        Ok(out)
                    } else {
                        Err(
                            EmbedError::CheckFailed {
                                front_pictures: fronts as usize,
                                kept_pictures: kept as usize,
                                expected_kept: expected as usize,
                                target_audio: target_audio as usize,
                                source_audio: source_audio as usize,
                            },
                        )
                    }
                },
            }
        },
    }
}

/// Whether a block holds a front cover.
pub fn is_front_block(block: &MetadataBlock) -> (b: bool)
    ensures
        b == is_front_picture(block@),
{
    block.kind == BLOCK_PICTURE && read_picture_type(block.data.as_slice()) == PICTURE_TYPE_FRONT
}

/// The other pictures among `blocks`.
fn count_other_pictures(blocks: &Vec<MetadataBlock>) -> (c: usize)
    ensures
        c == count_other(blocks_view(blocks@)),
{
    let ghost bs = blocks_view(blocks@);
    let mut c: usize = 0;
    let mut i: usize = 0;
    while i < blocks.len()
        invariant
            bs == blocks_view(blocks@),
            i <= blocks@.len(),
            c == count_other(bs.take(i as int)),
            c <= i,
        decreases blocks@.len() - i,
    {
        assert(bs.take(i + 1).drop_last() =~= bs.take(i as int));
        assert(bs.take(i + 1).last() == blocks@[i as int]@);
        if blocks[i].kind == BLOCK_PICTURE && !is_front_block(&blocks[i]) {
            c = c + 1;
        }
        i = i + 1;
    }
    assert(bs.take(blocks@.len() as int) =~= bs);
    c
}

/// The front covers among `blocks`.
fn count_front_pictures(blocks: &Vec<MetadataBlock>) -> (c: usize)
    ensures
        c == count_front(blocks_view(blocks@)),
{
    let ghost bs = blocks_view(blocks@);
    let mut c: usize = 0;
    let mut i: usize = 0;
    while i < blocks.len()
        invariant
            bs == blocks_view(blocks@),
            i <= blocks@.len(),
            c == count_front(bs.take(i as int)),
            c <= i,
        decreases blocks@.len() - i,
    {
        assert(bs.take(i + 1).drop_last() =~= bs.take(i as int));
        assert(bs.take(i + 1).last() == blocks@[i as int]@);
        if is_front_block(&blocks[i]) {
            c = c + 1;
        }
        i = i + 1;
    }
    assert(bs.take(blocks@.len() as int) =~= bs);
    c
}

/// Copies of the blocks that are not front covers, in order.
fn drop_front_pictures(blocks: &Vec<MetadataBlock>) -> (kept: Vec<MetadataBlock>)
    ensures
        blocks_view(kept@) == without_front(blocks_view(blocks@)),
{
    let ghost bs = blocks_view(blocks@);
    let mut kept: Vec<MetadataBlock> = Vec::new();
    let mut i: usize = 0;
    while i < blocks.len()
        invariant
            bs == blocks_view(blocks@),
            i <= blocks@.len(),
            blocks_view(kept@) == without_front(bs.take(i as int)),
        decreases blocks@.len() - i,
    {
        assert(bs.take(i + 1).drop_last() =~= bs.take(i as int));
        assert(bs.take(i + 1).last() == blocks@[i as int]@);
        if !is_front_block(&blocks[i]) {
            let block = &blocks[i];
            let copy = MetadataBlock {
                kind: block.kind,
                data: copy_range(block.data.as_slice(), 0, block.data.len()),
            };
            assert(block.data@.subrange(0, block.data@.len() as int) =~= block.data@);
            let ghost before = kept@;
            kept.push(copy);
            assert(blocks_view(kept@) =~= blocks_view(before).push(copy@));
        }
        i = i + 1;
    }
    assert(bs.take(blocks@.len() as int) =~= bs);
    kept
}

/// Where the new cover goes among `blocks`.
fn cover_index(blocks: &Vec<MetadataBlock>) -> (i: usize)
    ensures
        i == cover_position(blocks_view(blocks@)),
        i <= blocks@.len(),
{
    proof {
        lemma_first_comment_in_range(blocks_view(blocks@), 0);
    }
    let ghost bs = blocks_view(blocks@);
    let mut i: usize = 0;
    while i < blocks.len()
        invariant
            bs == blocks_view(blocks@),
            i <= blocks@.len(),
            first_comment_from(bs, 0) == first_comment_from(bs, i as int),
        decreases blocks@.len() - i,
    {
        assert(bs[i as int] == blocks@[i as int]@);
        if blocks[i].kind == BLOCK_VORBIS_COMMENT {
            return i + 1;
        }
        i = i + 1;
    }
    if blocks.len() >= 1 {
        1
    } else {
        0
    }
}

/// Writes `image` as the front cover of the FLAC file `file` and gives the new
/// file: front covers removed, the new one placed after the Vorbis comment,
/// other blocks and the audio frames unchanged. The result is read back
/// before it is returned: it must hold exactly one front cover, as many other
/// pictures as the input, and audio of the same length.
pub fn embed_cover(file: &[u8], image: &[u8], description: &str) -> (r: Result<Vec<u8>, EmbedError>)
    ensures
        match r {
            Ok(out) => embed_outcome(file@, image@, description.spec_bytes()) == Ok::<
                Seq<u8>,
                EmbedError,
            >(out@),
            Err(e) => embed_outcome(file@, image@, description.spec_bytes()) == Err::<
                Seq<u8>,
                EmbedError,
            >(e),
        },
{
    let meta = match read_blocks(file) {
        Ok(m) => m,
        Err(FlacError::NotFlac) => return Err(EmbedError::NotFlac),
        Err(FlacError::Truncated) => return Err(EmbedError::Truncated),
    };
    let ghost bs = blocks_view(meta.blocks@);
    let expected_kept = count_other_pictures(&meta.blocks);
    let mut merged = drop_front_pictures(&meta.blocks);
    let at = cover_index(&merged);
    let picture = build_picture_block(image, description);
    let ghost kept_view = blocks_view(merged@);
    let new_block = MetadataBlock { kind: BLOCK_PICTURE, data: picture };
    merged.insert(at, new_block);
    assert(blocks_view(merged@) =~= kept_view.insert(at as int, new_block@));
    let mut out = write_blocks(&merged);
    push_range(&mut out, file, meta.audio_offset, file.len());
    let check = match read_blocks(out.as_slice()) {
        Ok(m) => m,
        Err(_) => return Err(EmbedError::CheckUnreadable),
    };
    let fronts = count_front_pictures(&check.blocks);
    let kept = count_other_pictures(&check.blocks);
    let source_audio = file.len() - meta.audio_offset;
    let target_audio = out.len() - check.audio_offset;
    if fronts != 1 || kept != expected_kept || source_audio != target_audio {
        return Err(
            EmbedError::CheckFailed {
                front_pictures: fronts,
                kept_pictures: kept,
                expected_kept,
                target_audio,
                source_audio,
            },
        );
    }
    Ok(out)
}

/// Counting distributes over concatenation.
proof fn lemma_count_concat(a: Seq<BlockView>, b: Seq<BlockView>, p: spec_fn(BlockView) -> bool)
    ensures
        count_where(a + b, p) == count_where(a, p) + count_where(b, p),
    decreases b.len(),
{
    if b.len() == 0 {
        assert(a + b =~= a);
    } else {
        assert((a + b).drop_last() =~= a + b.drop_last());
        assert((a + b).last() == b.last());
        lemma_count_concat(a, b.drop_last(), p);
    }
}

/// Dropping the front covers distributes over concatenation.
proof fn lemma_without_front_concat(a: Seq<BlockView>, b: Seq<BlockView>)
    ensures
        without_front(a + b) == without_front(a) + without_front(b),
    decreases b.len(),
{
    if b.len() == 0 {
        assert(a + b =~= a);
        assert(without_front(a) + without_front(b) =~= without_front(a));
    } else {
        assert((a + b).drop_last() =~= a + b.drop_last());
        assert((a + b).last() == b.last());
        lemma_without_front_concat(a, b.drop_last());
        if !is_front_picture(b.last()) {
            assert(without_front(a) + without_front(b.drop_last()).push(b.last()) =~= (
            without_front(a) + without_front(b.drop_last())).push(b.last()));
        }
    }
}

/// What is left after dropping the front covers: no front cover, the same
/// other pictures, only blocks of the input, and dropping again changes nothing.
proof fn lemma_without_front(bs: Seq<BlockView>)
    ensures
        count_front(without_front(bs)) == 0,
        count_other(without_front(bs)) == count_other(bs),
        without_front(without_front(bs)) == without_front(bs),
        forall|j: int|
            0 <= j < without_front(bs).len() ==> exists|k: int|
                0 <= k < bs.len() && #[trigger] without_front(bs)[j] == bs[k],
    decreases bs.len(),
{
    if bs.len() > 0 {
        let init = bs.drop_last();
        let x = bs.last();
        lemma_without_front(init);
        let w = without_front(init);
        assert forall|j: int| 0 <= j < w.len() implies exists|k: int|
            0 <= k < bs.len() && #[trigger] w[j] == bs[k] by {
            let k = choose|k: int| 0 <= k < init.len() && w[j] == init[k];
            assert(bs[k] == init[k]);
        }
        if !is_front_picture(x) {
            let wx = w.push(x);
            assert(wx.drop_last() =~= w);
            assert(wx.last() == x);
            assert(without_front(wx) == without_front(w).push(x));
            assert forall|j: int| 0 <= j < wx.len() implies exists|k: int|
                0 <= k < bs.len() && #[trigger] wx[j] == bs[k] by {
                if j == w.len() {
                    assert(wx[j] == bs[bs.len() - 1]);
                } else {
                    assert(wx[j] == w[j]);
                }
            }
        }
    }
}

/// Dropping the front covers keeps writable blocks writable.
proof fn lemma_without_front_writable(bs: Seq<BlockView>)
    requires
        writable_blocks(bs),
    ensures
        writable_blocks(without_front(bs)),
{
    lemma_without_front(bs);
    let w = without_front(bs);
    assert forall|j: int| 0 <= j < w.len() implies (#[trigger] w[j]).kind < 128 && w[j].data.len()
        <= 0xFF_FFFF by {
        let k = choose|k: int| 0 <= k < bs.len() && w[j] == bs[k];
        assert(bs[k].kind < 128);
    }
}

/// The cover position lies within the blocks.
proof fn lemma_cover_position(bs: Seq<BlockView>)
    ensures
        0 <= cover_position(bs) <= bs.len(),
{
    lemma_first_comment_in_range(bs, 0);
}

/// The block list after a cover replacement: exactly one front cover, the
/// new one; every other block of the input, in order; the same number of
/// other pictures.
pub proof fn lemma_with_new_cover(bs: Seq<BlockView>, picture: Seq<u8>)
    requires
        picture_type(picture) == PICTURE_TYPE_FRONT,
    ensures
        count_front(with_new_cover(bs, picture)) == 1,
        count_other(with_new_cover(bs, picture)) == count_other(bs),
        without_front(with_new_cover(bs, picture)) == without_front(bs),
        with_new_cover(bs, picture).len() == without_front(bs).len() + 1,
        with_new_cover(bs, picture).contains(BlockView { kind: BLOCK_PICTURE, data: picture }),
{
    let kept = without_front(bs);
    let pic = BlockView { kind: BLOCK_PICTURE, data: picture };
    let at = cover_position(kept);
    lemma_cover_position(kept);
    lemma_without_front(bs);
    let a = kept.take(at);
    let b = kept.skip(at);
    let merged = kept.insert(at, pic);
    assert(merged =~= a + seq![pic] + b);
    assert(kept =~= a + b);
    assert(merged[at] == pic);
    lemma_count_concat(a + seq![pic], b, front_pred());
    lemma_count_concat(a, seq![pic], front_pred());
    lemma_count_concat(a, b, front_pred());
    lemma_count_concat(a + seq![pic], b, other_pred());
    lemma_count_concat(a, seq![pic], other_pred());
    lemma_count_concat(a, b, other_pred());
    assert(seq![pic].drop_last() =~= Seq::<BlockView>::empty());
    assert(count_where(Seq::<BlockView>::empty(), front_pred()) == 0);
    assert(count_where(Seq::<BlockView>::empty(), other_pred()) == 0);
    assert(seq![pic].last() == pic);
    assert(is_front_picture(pic));
    assert(count_where(seq![pic], front_pred()) == 1);
    assert(count_where(seq![pic], other_pred()) == 0);
    lemma_without_front_concat(a + seq![pic], b);
    lemma_without_front_concat(a, seq![pic]);
    lemma_without_front_concat(a, b);
    assert(without_front(Seq::<BlockView>::empty()) =~= Seq::<BlockView>::empty());
    assert(without_front(seq![pic]) == without_front(seq![pic].drop_last()));
    assert(without_front(seq![pic]) =~= Seq::<BlockView>::empty());
    assert(without_front(a) + Seq::<BlockView>::empty() =~= without_front(a));
}

/// Replacing the front cover of a readable FLAC file succeeds whenever the
/// new PICTURE payload fits a block, and the file it gives reads back as the
/// input's blocks without their front covers plus the one new front cover,
/// with the same other pictures and exactly the same audio bytes.
pub proof fn lemma_embed_cover(file: Seq<u8>, image: Seq<u8>, description: Seq<u8>)
    requires
        parse_flac(file) is Some,
        picture_payload(image, description).len() <= 0xFF_FFFF,
    ensures
        ({
            let (bs, off) = parse_flac(file).unwrap();
            let blocks = with_new_cover(bs, picture_payload(image, description));
            &&& embed_outcome(file, image, description) is Ok
            &&& parse_flac(embed_outcome(file, image, description).unwrap()) == Some(
                (blocks, flac_bytes(blocks).len() as int),
            )
            &&& count_front(blocks) == 1
            &&& count_other(blocks) == count_other(bs)
            &&& without_front(blocks) == without_front(bs)
            &&& embed_outcome(file, image, description).unwrap().subrange(
                flac_bytes(blocks).len() as int,
                embed_outcome(file, image, description).unwrap().len() as int,
            ) == file.subrange(off, file.len() as int)
        }),
{
    let (bs, off) = parse_flac(file).unwrap();
    let picture = picture_payload(image, description);
    let blocks = with_new_cover(bs, picture);
    let audio = file.subrange(off, file.len() as int);
    lemma_parsed_blocks(file, 4);
    lemma_payload_is_front_cover(image, description);
    lemma_with_new_cover(bs, picture);
    lemma_without_front_writable(bs);
    let kept = without_front(bs);
    let at = cover_position(kept);
    lemma_cover_position(kept);
    let pic = BlockView { kind: BLOCK_PICTURE, data: picture };
    assert forall|j: int| 0 <= j < blocks.len() implies (#[trigger] blocks[j]).kind < 128
        && blocks[j].data.len() <= 0xFF_FFFF by {
        if j < at {
            assert(blocks[j] == kept[j]);
        } else if j > at {
            assert(blocks[j] == kept[j - 1]);
        }
    }
    lemma_read_written(blocks, audio);
    let out = flac_bytes(blocks) + audio;
    assert(out.subrange(flac_bytes(blocks).len() as int, out.len() as int) =~= audio);
}

/// Embedding the same cover again changes nothing: run on its own output,
/// the embedding gives back that output.
pub proof fn lemma_embed_cover_idempotent(file: Seq<u8>, image: Seq<u8>, description: Seq<u8>)
    requires
        parse_flac(file) is Some,
        picture_payload(image, description).len() <= 0xFF_FFFF,
    ensures
        embed_outcome(file, image, description) is Ok,
        embed_outcome(embed_outcome(file, image, description).unwrap(), image, description)
            == embed_outcome(file, image, description),
{
    let (bs, off) = parse_flac(file).unwrap();
    let picture = picture_payload(image, description);
    let blocks = with_new_cover(bs, picture);
    lemma_embed_cover(file, image, description);
    let out = embed_outcome(file, image, description).unwrap();
    lemma_embed_cover(out, image, description);
    lemma_payload_is_front_cover(image, description);
    lemma_with_new_cover(bs, picture);
    assert(with_new_cover(blocks, picture) == blocks);
    let len = flac_bytes(blocks).len() as int;
    assert(out =~= flac_bytes(blocks) + file.subrange(off, file.len() as int));
    assert(flac_bytes(with_new_cover(blocks, picture)) + out.subrange(len, out.len() as int)
        =~= out);
}

/// The search for a Vorbis comment stops at the first one.
proof fn lemma_first_comment_at(bs: Seq<BlockView>, i: int, k: int)
    requires
        0 <= i <= k < bs.len(),
        bs[k].kind == BLOCK_VORBIS_COMMENT,
        forall|j: int| i <= j < k ==> bs[j].kind != BLOCK_VORBIS_COMMENT,
    ensures
        first_comment_from(bs, i) == Some(k),
    decreases k - i,
{
    if i < k {
        lemma_first_comment_at(bs, i + 1, k);
    }
}

/// Without a Vorbis comment from `i` on, the search finds none.
proof fn lemma_no_comment_from(bs: Seq<BlockView>, i: int)
    requires
        0 <= i,
        forall|j: int| i <= j < bs.len() ==> bs[j].kind != BLOCK_VORBIS_COMMENT,
    ensures
        first_comment_from(bs, i) is None,
    decreases bs.len() - i,
{
    if i < bs.len() {
        lemma_no_comment_from(bs, i + 1);
    }
}

/// Where the new cover goes among the kept blocks (the input without its
/// front covers): right after the first Vorbis comment; when there is none,
/// right after the first block; the kept blocks keep their order around it.
pub proof fn lemma_new_cover_position(bs: Seq<BlockView>, picture: Seq<u8>)
    ensures
        ({
            let kept = without_front(bs);
            let r = with_new_cover(bs, picture);
            let pic = BlockView { kind: BLOCK_PICTURE, data: picture };
            &&& forall|i: int|
                0 <= i < kept.len() && kept[i].kind == BLOCK_VORBIS_COMMENT && (forall|j: int|
                    0 <= j < i ==> kept[j].kind != BLOCK_VORBIS_COMMENT) ==> r[i + 1] == pic
                    && r.take(i + 1) == kept.take(i + 1) && r.skip(i + 2) == kept.skip(i + 1)
            &&& (forall|j: int| 0 <= j < kept.len() ==> kept[j].kind != BLOCK_VORBIS_COMMENT)
                ==> (if kept.len() == 0 {
                r == seq![pic]
            } else {
                r[1] == pic && r[0] == kept[0] && r.skip(2) == kept.skip(1)
            })
        }),
{
    let kept = without_front(bs);
    let r = with_new_cover(bs, picture);
    let pic = BlockView { kind: BLOCK_PICTURE, data: picture };
    assert forall|i: int|
        0 <= i < kept.len() && kept[i].kind == BLOCK_VORBIS_COMMENT && (forall|j: int|
            0 <= j < i ==> kept[j].kind != BLOCK_VORBIS_COMMENT) implies r[i + 1] == pic
        && r.take(i + 1) == kept.take(i + 1) && r.skip(i + 2) == kept.skip(i + 1) by {
        lemma_first_comment_at(kept, 0, i);
        assert(r =~= kept.insert(i + 1, pic));
        assert(r.take(i + 1) =~= kept.take(i + 1));
        assert(r.skip(i + 2) =~= kept.skip(i + 1));
    }
    if forall|j: int| 0 <= j < kept.len() ==> kept[j].kind != BLOCK_VORBIS_COMMENT {
        lemma_no_comment_from(kept, 0);
        if kept.len() == 0 {
            assert(r =~= seq![pic]);
        } else {
            assert(r.skip(2) =~= kept.skip(1));
        }
    }
}

/// The blocks kept around a new cover are exactly the input's blocks that are
/// not front covers, in their order.
pub proof fn lemma_kept_blocks(bs: Seq<BlockView>)
    ensures
        without_front(bs) == bs.filter(|b: BlockView| !is_front_picture(b)),
    decreases bs.len(),
{
    reveal(Seq::filter);
    if bs.len() > 0 {
        lemma_kept_blocks(bs.drop_last());
    }
}

} // verus!
