//! Whether a catalogue search result is the song that a file's own tags name.

use vstd::prelude::*;
use crate::tags::{find_char_from, EmbeddedTags, TagsView};
use crate::text::{
    contains, contains_spec, from_chars, is_whitespace, occurs_at, slice_chars, to_chars,
    to_lowercase, unicode_lowercase, white_space,
};

verus! {

/// Catalogue data of one song.
#[derive(Debug, Clone)]
pub struct SongMeta {
    pub album_mid: String,
    pub album: String,
    pub title: String,
    /// Singer names joined by `、`.
    pub singers: String,
    /// Catalogue song id, needed for the QQ Music file attribute.
    pub song_id: u64,
    /// Song MID, needed for lyrics.
    pub song_mid: String,
}

/// The mathematical value of a song's catalogue data.
pub struct SongMetaView {
    pub album_mid: Seq<char>,
    pub album: Seq<char>,
    pub title: Seq<char>,
    pub singers: Seq<char>,
    pub song_id: u64,
    pub song_mid: Seq<char>,
}

impl View for SongMeta {
    type V = SongMetaView;

    open spec fn view(&self) -> SongMetaView {
        SongMetaView {
            album_mid: self.album_mid@,
            album: self.album@,
            title: self.title@,
            singers: self.singers@,
            song_id: self.song_id,
            song_mid: self.song_mid@,
        }
    }
}

/// Punctuation ignored when titles and names are compared: brackets (ASCII
/// and full-width), middle dot, hyphen, underscore, quotes, `、` and commas.
pub open spec fn ignored_punctuation(c: char) -> bool {
    c == '(' || c == ')' || c == '（' || c == '）' || c == '·' || c == '-' || c == '_' || c == '\''
        || c == '"' || c == '、' || c == ',' || c == '，'
}

/// Characters kept for comparison.
pub open spec fn kept_for_match(c: char) -> bool {
    !white_space(c) && !ignored_punctuation(c)
}

/// The characters of `s` that are kept for comparison, in order.
pub open spec fn comparable_chars(s: Seq<char>) -> Seq<char>
    decreases s.len(),
{
    if s.len() == 0 {
        seq![]
    } else if kept_for_match(s.last()) {
        comparable_chars(s.drop_last()).push(s.last())
    } else {
        comparable_chars(s.drop_last())
    }
}

/// The normal form used for matching: white space and the ignored
/// punctuation removed, then lowercased.
pub open spec fn normalized(s: Seq<char>) -> Seq<char> {
    unicode_lowercase(comparable_chars(s))
}

/// Whether two titles name the same song: both normal forms non-empty, and
/// equal or one containing the other (so that suffixes like "(Live)" pass).
pub open spec fn same_song_name_spec(left: Seq<char>, right: Seq<char>) -> bool {
    let l = normalized(left);
    let r = normalized(right);
    l.len() > 0 && r.len() > 0 && (l == r || contains_spec(l, r) || contains_spec(r, l))
}

/// Separators between artist names in a file's tag: `、`, `,` and `/`.
pub open spec fn artist_separator(c: char) -> bool {
    c == '、' || c == ',' || c == '/'
}

/// Index of the first artist separator in `s`, from `i` on.
pub open spec fn first_separator_from(s: Seq<char>, i: int) -> Option<int>
    decreases s.len() - i,
{
    if i < 0 || i >= s.len() {
        None
    } else if artist_separator(s[i]) {
        Some(i)
    } else {
        first_separator_from(s, i + 1)
    }
}

/// The first artist name of a tag: everything before the first separator.
pub open spec fn first_artist(s: Seq<char>) -> Seq<char> {
    match first_separator_from(s, 0) {
        Some(k) => s.take(k),
        None => s,
    }
}

/// Whether one catalogue singer matches the wanted (normalized) artist.
pub open spec fn singer_matches(singer: Seq<char>, wanted: Seq<char>) -> bool {
    let s = normalized(singer);
    s.len() > 0 && (contains_spec(s, wanted) || contains_spec(wanted, s))
}

/// Whether any of the `、`-separated singers in `s` matches.
pub open spec fn any_singer_matches(s: Seq<char>, wanted: Seq<char>) -> bool
    decreases s.len(),
{
    match find_char_from(s, '、', 0) {
        None => singer_matches(s, wanted),
        Some(k) => {
            proof {
                lemma_find_char_in_range(s, '、', 0);
            }
            singer_matches(s.take(k), wanted) || any_singer_matches(s.skip(k + 1), wanted)
        },
    }
}

/// A found character lies in range.
pub proof fn lemma_find_char_in_range(s: Seq<char>, c: char, i: int)
    ensures
        find_char_from(s, c, i) matches Some(k) ==> 0 <= i <= k < s.len() && s[k] == c,
    decreases s.len() - i,
{
    if 0 <= i < s.len() && s[i] != c {
        lemma_find_char_in_range(s, c, i + 1);
    }
}

/// Whether a search result is the song that the file's own tags name.
/// Without a title and an artist there is nothing to compare, and the result
/// is accepted; a title that differs rejects it; then the artist's first
/// name must match one of the catalogue singers, unless either side has no
/// artist.
pub open spec fn matches_spec(meta: SongMetaView, tags: TagsView) -> bool {
    if tags.title.len() == 0 && tags.artist.len() == 0 {
        true
    } else if tags.title.len() > 0 && !same_song_name_spec(meta.title, tags.title) {
        false
    } else if tags.artist.len() == 0 || meta.singers.len() == 0 {
        true
    } else {
        let wanted = normalized(first_artist(tags.artist));
        wanted.len() == 0 || any_singer_matches(meta.singers, wanted)
    }
}

/// Whether a character is kept for comparison.
fn is_kept(c: char) -> (b: bool)
    ensures
        b == kept_for_match(c),
{
    !is_whitespace(c) && !(c == '(' || c == ')' || c == '（' || c == '）' || c == '·' || c == '-'
        || c == '_' || c == '\'' || c == '"' || c == '、' || c == ',' || c == '，')
}

/// The normal form of `text`, as characters.
fn normalized_chars(text: &[char]) -> (r: Vec<char>)
    ensures
        r@ == normalized(text@),
{
    let mut kept: Vec<char> = Vec::new();
    let mut i: usize = 0;
    while i < text.len()
        invariant
            i <= text@.len(),
            kept@ == comparable_chars(text@.take(i as int)),
        decreases text@.len() - i,
    {
        assert(text@.take(i + 1).drop_last() =~= text@.take(i as int));
        if is_kept(text[i]) {
            kept.push(text[i]);
        }
        i = i + 1;
    }
    assert(text@.take(text@.len() as int) =~= text@);
    let s = from_chars(kept.as_slice());
    let lower = to_lowercase(s.as_str());
    to_chars(lower.as_str())
}

/// The normal form of `text` used for matching.
pub fn normalize_for_match(text: &str) -> (r: String)
    ensures
        r@ == normalized(text@),
{
    let chars = to_chars(text);
    let n = normalized_chars(chars.as_slice());
    from_chars(n.as_slice())
}

/// Whether two titles name the same song.
pub fn same_song_name(left: &str, right: &str) -> (b: bool)
    ensures
        b == same_song_name_spec(left@, right@),
{
    let lc = to_chars(left);
    let rc = to_chars(right);
    let l = normalized_chars(lc.as_slice());
    let r = normalized_chars(rc.as_slice());
    if l.len() == 0 || r.len() == 0 {
        return false;
    }
    crate::text::chars_equal(l.as_slice(), r.as_slice()) || contains(l.as_slice(), r.as_slice())
        || contains(r.as_slice(), l.as_slice())
}

/// The first artist name of a tag.
pub fn first_artist_chars(s: &[char]) -> (r: Vec<char>)
    ensures
        r@ == first_artist(s@),
{
    let mut i: usize = 0;
    while i < s.len()
        invariant
            i <= s@.len(),
            first_separator_from(s@, 0) == first_separator_from(s@, i as int),
        decreases s@.len() - i,
    {
        if s[i] == '、' || s[i] == ',' || s[i] == '/' {
            return slice_chars(s, 0, i);
        }
        i = i + 1;
    }
    assert(s@.subrange(0, s@.len() as int) =~= s@);
    slice_chars(s, 0, s.len())
}

/// Whether one singer matches the wanted artist.
fn singer_matches_exec(singer: &[char], wanted: &[char]) -> (b: bool)
    ensures
        b == singer_matches(singer@, wanted@),
{
    let s = normalized_chars(singer);
    s.len() > 0 && (contains(s.as_slice(), wanted) || contains(wanted, s.as_slice()))
}

/// Whether any `、`-separated singer in `singers` matches the wanted artist.
fn any_singer_matches_exec(singers: &[char], wanted: &[char]) -> (b: bool)
    ensures
        b == any_singer_matches(singers@, wanted@),
{
    let n = singers.len();
    let mut start: usize = 0;
    assert(singers@.skip(0) =~= singers@);
    loop
        invariant
            n == singers@.len(),
            start <= n,
            any_singer_matches(singers@, wanted@) == any_singer_matches(
                singers@.skip(start as int),
                wanted@,
            ),
        decreases n - start,
    {
        let rest = slice_chars(singers, start, n);
        assert(rest@ =~= singers@.skip(start as int));
        let mut k: usize = 0;
        while k < rest.len() && rest[k] != '、'
            invariant
                k <= rest@.len(),
                find_char_from(rest@, '、', 0) == find_char_from(rest@, '、', k as int),
            decreases rest@.len() - k,
        {
            k = k + 1;
        }
        if k == rest.len() {
            return singer_matches_exec(rest.as_slice(), wanted);
        }
        let segment = slice_chars(rest.as_slice(), 0, k);
        assert(segment@ =~= rest@.take(k as int));
        if singer_matches_exec(segment.as_slice(), wanted) {
            return true;
        }
        assert(rest@.skip(k + 1) =~= singers@.skip(start + k + 1));
        start = start + k + 1;
    }
}

/// Whether a catalogue search result is the song that the file's own tags
/// name. A file without title and artist accepts any result.
pub fn matches_embedded_tags(meta: &SongMeta, tags: &EmbeddedTags) -> (b: bool)
    ensures
        b == matches_spec(meta@, tags@),
{
    let title_empty = tags.title.as_str().is_empty();
    let artist_empty = tags.artist.as_str().is_empty();
    if title_empty && artist_empty {
        return true;
    }
    if !title_empty && !same_song_name(meta.title.as_str(), tags.title.as_str()) {
        return false;
    }
    if artist_empty || meta.singers.as_str().is_empty() {
        return true;
    }
    let artist = to_chars(tags.artist.as_str());
    let first = first_artist_chars(artist.as_slice());
    let wanted = normalized_chars(first.as_slice());
    if wanted.len() == 0 {
        return true;
    }
    let singers = to_chars(meta.singers.as_str());
    any_singer_matches_exec(singers.as_slice(), wanted.as_slice())
}

/// Whether a candidate is accepted for a file: always when the file has no
/// readable tags, else when it matches them.
pub open spec fn accepted(meta: SongMetaView, tags: Option<TagsView>) -> bool {
    match tags {
        None => true,
        Some(t) => matches_spec(meta, t),
    }
}

/// Picks, among the search candidates in order, the first one that is the
/// file's song by its own tags (any candidate when it has none); `None` when
/// no candidate is.
pub fn pick_matching_meta(candidates: Vec<SongMeta>, embedded: Option<&EmbeddedTags>) -> (r:
    Option<SongMeta>)
    ensures
        ({
            let tags = match embedded {
                Some(t) => Some(t@),
                None => None::<TagsView>,
            };
            match r {
                Some(m) => exists|i: int|
                    0 <= i < candidates@.len() && #[trigger] candidates@[i] == m && accepted(
                        m@,
                        tags,
                    ) && forall|j: int| 0 <= j < i ==> !accepted(candidates@[j]@, tags),
                None => forall|j: int|
                    0 <= j < candidates@.len() ==> !accepted(#[trigger] candidates@[j]@, tags),
            }
        }),
{
    let ghost tags = match embedded {
        Some(t) => Some(t@),
        None => None::<TagsView>,
    };
    let mut i: usize = 0;
    while i < candidates.len()
        invariant
            i <= candidates@.len(),
            tags == match embedded {
                Some(t) => Some(t@),
                None => None::<TagsView>,
            },
            forall|j: int| 0 <= j < i ==> !accepted(#[trigger] candidates@[j]@, tags),
        decreases candidates@.len() - i,
    {
        let ok = match embedded {
            Some(t) => matches_embedded_tags(&candidates[i], t),
            None => true,
        };
        if ok {
            let ghost before = candidates@;
            let mut c = candidates;
            let m = c.remove(i);
            assert(m == before[i as int]);
            return Some(m);
        }
        i = i + 1;
    }
    None
}

/// Title comparison does not depend on the order of its arguments.
pub proof fn lemma_same_song_name_symmetric(a: Seq<char>, b: Seq<char>)
    ensures
        same_song_name_spec(a, b) == same_song_name_spec(b, a),
{
}

/// A file whose tags have neither title nor artist accepts every search result.
pub proof fn lemma_untagged_accepts_all(meta: SongMetaView, tags: TagsView)
    requires
        tags.title.len() == 0,
        tags.artist.len() == 0,
    ensures
        matches_spec(meta, tags),
{
}

/// A result whose title does not name the file's titled song is rejected,
/// whatever its singers.
pub proof fn lemma_other_title_rejected(meta: SongMetaView, tags: TagsView)
    requires
        tags.title.len() > 0,
        !same_song_name_spec(meta.title, tags.title),
    ensures
        !matches_spec(meta, tags),
{
}

/// Without artist separators there is no `、` either.
proof fn lemma_no_separator_no_pause(s: Seq<char>, i: int)
    requires
        first_separator_from(s, i) is None,
    ensures
        find_char_from(s, '、', i) is None,
    decreases s.len() - i,
{
    if 0 <= i < s.len() {
        lemma_no_separator_no_pause(s, i + 1);
    }
}

/// A result that carries the file's own title and, as its one singer, the
/// file's one artist is accepted.
pub proof fn lemma_same_title_and_singer_accepted(meta: SongMetaView, tags: TagsView)
    requires
        meta.title == tags.title,
        tags.title.len() > 0 ==> normalized(tags.title).len() > 0,
        meta.singers == tags.artist,
        first_separator_from(tags.artist, 0) is None,
    ensures
        matches_spec(meta, tags),
{
    let t = normalized(tags.title);
    assert(occurs_at(t, t, 0)) by {
        assert(t.subrange(0, t.len() as int) =~= t);
    }
    let w = normalized(tags.artist);
    assert(occurs_at(w, w, 0)) by {
        assert(w.subrange(0, w.len() as int) =~= w);
    }
    lemma_no_separator_no_pause(tags.artist, 0);
}

/// A search from `i` stops at the first `c` it meets.
proof fn lemma_find_first(s: Seq<char>, c: char, i: int, k: int)
    requires
        0 <= i <= k < s.len(),
        s[k] == c,
        forall|j: int| i <= j < k ==> s[j] != c,
    ensures
        find_char_from(s, c, i) == Some(k),
    decreases k - i,
{
    if i < k {
        lemma_find_first(s, c, i + 1, k);
    }
}

/// A search from `i` finds nothing when no `c` follows.
proof fn lemma_find_none(s: Seq<char>, c: char, i: int)
    requires
        0 <= i,
        forall|j: int| i <= j < s.len() ==> s[j] != c,
    ensures
        find_char_from(s, c, i) is None,
    decreases s.len() - i,
{
    if i < s.len() {
        lemma_find_none(s, c, i + 1);
    }
}

/// When some `c` lies at `w` or before, there is a first one from `i` on.
proof fn lemma_first_occurrence(s: Seq<char>, c: char, i: int, w: int) -> (k: int)
    requires
        0 <= i <= w < s.len(),
        s[w] == c,
    ensures
        i <= k <= w,
        s[k] == c,
        forall|j: int| i <= j < k ==> s[j] != c,
    decreases w - i,
{
    if s[i] == c {
        i
    } else {
        lemma_first_occurrence(s, c, i + 1, w)
    }
}

/// Whether a catalogue singer name matches the wanted artist: its normal
/// form is non-empty and contains, or is contained in, the artist's.
pub open spec fn names_overlap(singer: Seq<char>, wanted: Seq<char>) -> bool {
    normalized(singer).len() > 0 && (contains_spec(normalized(singer), wanted) || contains_spec(
        wanted,
        normalized(singer),
    ))
}

/// Every `、`-separated singer counts, first, middle or last: if one of the
/// names in the list matches the wanted artist, the list matches.
pub proof fn lemma_any_listed_singer(left: Seq<char>, seg: Seq<char>, right: Seq<char>, wanted: Seq<
    char,
>)
    requires
        forall|j: int| 0 <= j < seg.len() ==> seg[j] != '、',
        left.len() == 0 || left.last() == '、',
        right.len() == 0 || right[0] == '、',
        names_overlap(seg, wanted),
    ensures
        any_singer_matches(left + seg + right, wanted),
    decreases left.len(),
{
    let s = left + seg + right;
    if left.len() == 0 {
        assert(s =~= seg + right);
        if right.len() == 0 {
            assert(s =~= seg);
            lemma_find_none(s, '、', 0);
        } else {
            let k = seg.len() as int;
            assert(s[k] == right[0]);
            lemma_find_first(s, '、', 0, k);
            assert(s.take(k) =~= seg);
        }
    } else {
        let k = lemma_first_occurrence(left, '、', 0, left.len() - 1);
        assert forall|j: int| 0 <= j < k implies s[j] != '、' by {
            assert(s[j] == left[j]);
        }
        assert(s[k] == left[k]);
        lemma_find_first(s, '、', 0, k);
        lemma_find_char_in_range(s, '、', 0);
        let left2 = left.skip(k + 1);
        assert(left2.len() > 0 ==> left2.last() == left.last());
        lemma_any_listed_singer(left2, seg, right, wanted);
        assert(s.skip(k + 1) =~= left2 + seg + right);
    }
}

/// A result whose title names the file's song is accepted when any one of
/// its `、`-separated singers matches the file's first artist, wherever
/// that singer stands in the list.
pub proof fn lemma_listed_singer_accepted(
    meta: SongMetaView,
    tags: TagsView,
    left: Seq<char>,
    seg: Seq<char>,
    right: Seq<char>,
)
    requires
        tags.title.len() == 0 || same_song_name_spec(meta.title, tags.title),
        meta.singers == left + seg + right,
        forall|j: int| 0 <= j < seg.len() ==> seg[j] != '、',
        left.len() == 0 || left.last() == '、',
        right.len() == 0 || right[0] == '、',
        names_overlap(seg, normalized(first_artist(tags.artist))),
    ensures
        matches_spec(meta, tags),
{
    lemma_any_listed_singer(left, seg, right, normalized(first_artist(tags.artist)));
}

/// A result with a single singer who does not match the file's first
/// artist is rejected, even when the title matches.
pub proof fn lemma_other_single_singer_rejected(meta: SongMetaView, tags: TagsView)
    requires
        tags.artist.len() > 0,
        meta.singers.len() > 0,
        normalized(first_artist(tags.artist)).len() > 0,
        forall|j: int| 0 <= j < meta.singers.len() ==> meta.singers[j] != '、',
        !names_overlap(meta.singers, normalized(first_artist(tags.artist))),
    ensures
        !matches_spec(meta, tags),
{
    lemma_find_none(meta.singers, '、', 0);
}

/// The kept characters of a concatenation are those of its parts.
proof fn lemma_comparable_concat(a: Seq<char>, b: Seq<char>)
    ensures
        comparable_chars(a + b) == comparable_chars(a) + comparable_chars(b),
    decreases b.len(),
{
    if b.len() == 0 {
        assert(a + b =~= a);
        assert(comparable_chars(b) =~= Seq::<char>::empty());
        assert(comparable_chars(a) + comparable_chars(b) =~= comparable_chars(a));
    } else {
        lemma_comparable_concat(a, b.drop_last());
        assert((a + b).drop_last() =~= a + b.drop_last());
        assert((a + b).last() == b.last());
        if kept_for_match(b.last()) {
            assert(comparable_chars(a) + comparable_chars(b) =~= (comparable_chars(a)
                + comparable_chars(b.drop_last())).push(b.last()));
        }
    }
}

/// Titles and names compare without white space and without the listed
/// punctuation: putting a space, tab, bracket (ASCII or full-width), middle
/// dot, hyphen, underscore, quote, `、` or comma anywhere into a text does
/// not change its normal form.
pub proof fn lemma_ignored_characters(a: Seq<char>, b: Seq<char>, c: char)
    requires
        c == ' ' || c == '\t' || c == '\n' || c == '\u{3000}' || c == '(' || c == ')' || c
            == '（' || c == '）' || c == '·' || c == '-' || c == '_' || c == '\'' || c == '"'
            || c == '、' || c == ',' || c == '，',
    ensures
        normalized(a + seq![c] + b) == normalized(a + b),
{
    lemma_comparable_concat(a + seq![c], b);
    lemma_comparable_concat(a, seq![c]);
    lemma_comparable_concat(a, b);
    assert(seq![c].drop_last() =~= Seq::<char>::empty());
    assert(seq![c].last() == c);
    assert(comparable_chars(Seq::<char>::empty()) =~= Seq::<char>::empty());
    assert(comparable_chars(seq![c]) =~= Seq::<char>::empty());
    assert(comparable_chars(a) + Seq::<char>::empty() =~= comparable_chars(a));
}

/// Letters and digits are kept: a text's normal form is the lowercase of
/// its kept characters, and an ASCII letter or digit is one of them.
pub proof fn lemma_alphanumerics_kept(a: Seq<char>, b: Seq<char>, c: char)
    requires
        ('a' <= c <= 'z') || ('A' <= c <= 'Z') || ('0' <= c <= '9'),
    ensures
        comparable_chars(a + seq![c] + b) == comparable_chars(a) + seq![c] + comparable_chars(b),
{
    lemma_comparable_concat(a + seq![c], b);
    lemma_comparable_concat(a, seq![c]);
    assert(seq![c].drop_last() =~= Seq::<char>::empty());
    assert(seq![c].last() == c);
    assert(comparable_chars(Seq::<char>::empty()) =~= Seq::<char>::empty());
    assert(comparable_chars(seq![c]) =~= seq![c]);
}

/// Scanning for a separator stops at the first one.
proof fn lemma_separator_at(s: Seq<char>, i: int, k: int)
    requires
        0 <= i <= k < s.len(),
        artist_separator(s[k]),
        forall|j: int| i <= j < k ==> !artist_separator(s[j]),
    ensures
        first_separator_from(s, i) == Some(k),
    decreases k - i,
{
    if i < k {
        lemma_separator_at(s, i + 1, k);
    }
}

/// Scanning finds no separator in a text without one.
proof fn lemma_no_separator(s: Seq<char>, i: int)
    requires
        0 <= i,
        forall|j: int| i <= j < s.len() ==> !artist_separator(s[j]),
    ensures
        first_separator_from(s, i) is None,
    decreases s.len() - i,
{
    if i < s.len() {
        lemma_no_separator(s, i + 1);
    }
}

/// The file's artist is compared by its first name: everything before the
/// first `、`, `,` or `/`, or the whole artist when there is none.
pub proof fn lemma_first_artist_name(a: Seq<char>, sep: char, b: Seq<char>)
    requires
        sep == '、' || sep == ',' || sep == '/',
        forall|j: int| 0 <= j < a.len() ==> a[j] != '、' && a[j] != ',' && a[j] != '/',
    ensures
        first_artist(a + seq![sep] + b) == a,
        first_artist(a) == a,
{
    let s = a + seq![sep] + b;
    assert forall|j: int| 0 <= j < a.len() implies !artist_separator(s[j]) by {
        assert(s[j] == a[j]);
    }
    assert(s[a.len() as int] == sep);
    lemma_separator_at(s, 0, a.len() as int);
    assert(s.take(a.len() as int) =~= a);
    lemma_no_separator(a, 0);
}

} // verus!
