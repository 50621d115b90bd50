//! Text as sequences of `char`: conversions, trimming, searching and
//! splitting, plus the few std text functions whose results are named.

use vstd::prelude::*;
use vstd::utf8::{decode_utf8, valid_utf8};

verus! {

broadcast use vstd::string::group_string_axioms;

/// `String::push` appends one `char`.
pub assume_specification[ String::push ](s: &mut String, ch: char)
    ensures
        final(s)@ == old(s)@.push(ch),
;

/// What `String::from_utf8_lossy` makes of a byte string.
pub uninterp spec fn utf8_lossy(bytes: Seq<u8>) -> Seq<char>;

/// `char::from_u32` gives the character with that code point, and nothing
/// for a surrogate or a value past U+10FFFF.
pub assume_specification[ char::from_u32 ](i: u32) -> (r: Option<char>)
    ensures
        r is Some <==> (i <= 0x10FFFF && !(0xD800 <= i <= 0xDFFF)),
        r matches Some(c) ==> c == (i as char) && c as u32 == i,
;

/// Whether a character has the Unicode White_Space property: the ASCII tab,
/// line feed, vertical tab, form feed, carriage return and space, NEL,
/// no-break space, Ogham space mark, the spaces U+2000 to U+200A, the line
/// and paragraph separators, narrow no-break space, medium mathematical
/// space and ideographic space.
pub open spec fn white_space(c: char) -> bool {
    let v = c as u32;
    (0x09 <= v <= 0x0D) || v == 0x20 || v == 0x85 || v == 0xA0 || v == 0x1680 || (0x2000 <= v
        <= 0x200A) || v == 0x2028 || v == 0x2029 || v == 0x202F || v == 0x205F || v == 0x3000
}

/// What `str::to_lowercase` makes of a string (full Unicode lowercasing).
pub uninterp spec fn unicode_lowercase(s: Seq<char>) -> Seq<char>;

/// Decodes bytes as UTF-8, replacing each invalid sequence with U+FFFD.
/// Calls `String::from_utf8_lossy`, whose documentation promises that valid
/// UTF-8 comes back unchanged; what replaces invalid input is left to the name.
#[verifier::external_body]
pub(crate) fn lossy_utf8(bytes: &[u8]) -> (s: String)
    ensures
        s@ == utf8_lossy(bytes@),
        valid_utf8(bytes@) ==> s@ == decode_utf8(bytes@),
{
    String::from_utf8_lossy(bytes).into_owned()
}

/// The replacement character U+FFFD.
pub open spec fn replacement_char() -> char {
    '\u{FFFD}'
}

/// UTF-16 decoded with replacement, as `String::from_utf16_lossy` documents
/// it: a unit outside the surrogate range is one character, a high surrogate
/// followed by a low one is the supplementary character they encode, and
/// every other surrogate becomes U+FFFD.
pub open spec fn utf16_lossy(units: Seq<u16>) -> Seq<char>
    decreases units.len(),
{
    if units.len() == 0 {
        seq![]
    } else if units[0] < 0xD800 || units[0] > 0xDFFF {
        seq![(units[0] as u32) as char] + utf16_lossy(units.skip(1))
    } else if units[0] <= 0xDBFF && units.len() >= 2 && 0xDC00 <= units[1] <= 0xDFFF {
        seq![(0x10000 + (units[0] - 0xD800) * 0x400 + (units[1] - 0xDC00)) as u32 as char]
            + utf16_lossy(units.skip(2))
    } else {
        seq![replacement_char()] + utf16_lossy(units.skip(1))
    }
}

/// The character with a code point known to be valid.
fn scalar(code: u32) -> (c: char)
    requires
        code <= 0x10FFFF,
        !(0xD800 <= code <= 0xDFFF),
    ensures
        c == (code as char),
{
    match char::from_u32(code) {
        Some(c) => c,
        None => '\u{FFFD}',
    }
}

/// Decodes UTF-16 code units, replacing unpaired surrogates with U+FFFD
/// (what `String::from_utf16_lossy` does).
pub(crate) fn lossy_utf16(units: &[u16]) -> (s: String)
    ensures
        s@ == utf16_lossy(units@),
{
    let n = units.len();
    let mut out: Vec<char> = Vec::new();
    let mut i: usize = 0;
    assert(units@.skip(0) =~= units@);
    while i < n
        invariant
            n == units@.len(),
            i <= n,
            out@ + utf16_lossy(units@.skip(i as int)) == utf16_lossy(units@),
        decreases n - i,
    {
        let ghost rest = units@.skip(i as int);
        let u = units[i];
        if u < 0xD800 || u > 0xDFFF {
            out.push(scalar(u as u32));
            assert(rest.skip(1) =~= units@.skip(i + 1));
            i = i + 1;
        } else if u <= 0xDBFF && i + 1 < n && 0xDC00 <= units[i + 1] && units[i + 1] <= 0xDFFF {
            let code: u32 = 0x10000 + (u as u32 - 0xD800) * 0x400 + (units[i + 1] as u32 - 0xDC00);
            out.push(scalar(code));
            assert(rest.skip(2) =~= units@.skip(i + 2));
            i = i + 2;
        } else {
            out.push('\u{FFFD}');
            assert(rest.skip(1) =~= units@.skip(i + 1));
            i = i + 1;
        }
    }
    assert(units@.skip(i as int) =~= Seq::<u16>::empty());
    assert(out@ + Seq::<char>::empty() =~= out@);
    from_chars(out.as_slice())
}

/// Whether bytes are valid UTF-8. Calls `std::str::from_utf8`, which succeeds
/// exactly on valid UTF-8.
#[verifier::external_body]
pub(crate) fn is_valid_utf8(bytes: &[u8]) -> (b: bool)
    ensures
        b == valid_utf8(bytes@),
{
    std::str::from_utf8(bytes).is_ok()
}

/// Whether a character is Unicode white space, as `char::is_whitespace`
/// tests it.
pub(crate) fn is_whitespace(c: char) -> (b: bool)
    ensures
        b == white_space(c),
{
    let v = c as u32;
    (0x09 <= v && v <= 0x0D) || v == 0x20 || v == 0x85 || v == 0xA0 || v == 0x1680 || (0x2000 <= v
        && v <= 0x200A) || v == 0x2028 || v == 0x2029 || v == 0x202F || v == 0x205F || v == 0x3000
}

/// Full Unicode lowercasing. Calls `str::to_lowercase`; the mapping is left
/// to the name.
#[verifier::external_body]
pub(crate) fn to_lowercase(s: &str) -> (r: String)
    ensures
        r@ == unicode_lowercase(s@),
{
    s.to_lowercase()
}

/// The characters of a string.
pub fn to_chars(s: &str) -> (v: Vec<char>)
    ensures
        v@ == s@,
{
    let mut v: Vec<char> = Vec::new();
    let mut chars_it = s.chars();
    for c in it: chars_it
        invariant
            v@ == it.seq().take(it.index() as int),
            it.seq() == s@,
    {
        v.push(c);
    }
    v
}

/// A string made of the given characters.
pub fn from_chars(v: &[char]) -> (s: String)
    ensures
        s@ == v@,
{
    let mut s = String::new();
    let mut i: usize = 0;
    while i < v.len()
        invariant
            i <= v@.len(),
            s@ == v@.subrange(0, i as int),
        decreases v@.len() - i,
    {
        s.push(v[i]);
        i = i + 1;
        assert(s@ =~= v@.subrange(0, i as int));
    }
    assert(v@.subrange(0, v@.len() as int) =~= v@);
    s
}

/// `s` without the leading characters that satisfy `p`.
pub open spec fn trim_start_by(s: Seq<char>, p: spec_fn(char) -> bool) -> Seq<char>
    decreases s.len(),
{
    if s.len() > 0 && p(s[0]) {
        trim_start_by(s.drop_first(), p)
    } else {
        s
    }
}

/// `s` without the trailing characters that satisfy `p`.
pub open spec fn trim_end_by(s: Seq<char>, p: spec_fn(char) -> bool) -> Seq<char>
    decreases s.len(),
{
    if s.len() > 0 && p(s.last()) {
        trim_end_by(s.drop_last(), p)
    } else {
        s
    }
}

/// `s` without leading and trailing characters that satisfy `p`.
pub open spec fn trim_by(s: Seq<char>, p: spec_fn(char) -> bool) -> Seq<char> {
    trim_end_by(trim_start_by(s, p), p)
}

/// The white-space test as a predicate.
pub open spec fn white_space_pred() -> spec_fn(char) -> bool {
    |c: char| white_space(c)
}

/// The NUL test as a predicate.
pub open spec fn nul_pred() -> spec_fn(char) -> bool {
    |c: char| c == '\0'
}

/// `str::trim`: both ends stripped of white space.
pub open spec fn trim_spec(s: Seq<char>) -> Seq<char> {
    trim_by(s, white_space_pred())
}

/// `s[start..end]` is `s` trimmed by `p` at both ends.
proof fn lemma_trim_bounds(s: Seq<char>, p: spec_fn(char) -> bool, start: int, end: int)
    requires
        0 <= start <= end <= s.len(),
        forall|i: int| 0 <= i < start ==> p(#[trigger] s[i]),
        start == end || !p(s[start]),
        forall|i: int| end <= i < s.len() ==> p(#[trigger] s[i]),
        start == end || !p(s[end - 1]),
    ensures
        trim_by(s, p) == s.subrange(start, end),
{
    if start == end {
        assert forall|i: int| 0 <= i < s.len() implies p(#[trigger] s[i]) by {
            if i >= start {
                assert(end <= i);
            }
        }
        lemma_trim_start(s, p, s.len() as int);
        assert(s.subrange(s.len() as int, s.len() as int) =~= Seq::<char>::empty());
        assert(trim_end_by(Seq::<char>::empty(), p) =~= Seq::<char>::empty());
        assert(s.subrange(start, end) =~= Seq::<char>::empty());
    } else {
        lemma_trim_start(s, p, start);
        let t = s.subrange(start, s.len() as int);
        lemma_trim_end(t, p, end - start);
        assert(t.subrange(0, end - start) =~= s.subrange(start, end));
    }
}

proof fn lemma_trim_start(s: Seq<char>, p: spec_fn(char) -> bool, start: int)
    requires
        0 <= start <= s.len(),
        forall|i: int| 0 <= i < start ==> p(#[trigger] s[i]),
        start == s.len() || !p(s[start]),
    ensures
        trim_start_by(s, p) == s.subrange(start, s.len() as int),
    decreases start,
{
    if start == 0 {
        assert(s.subrange(0, s.len() as int) =~= s);
        if s.len() > 0 {
            assert(!p(s[0]));
        }
    } else {
        assert(p(s[0]));
        let d = s.drop_first();
        assert forall|i: int| 0 <= i < start - 1 implies p(#[trigger] d[i]) by {
            assert(d[i] == s[i + 1]);
        }
        if start - 1 < d.len() {
            assert(d[start - 1] == s[start]);
        }
        lemma_trim_start(d, p, start - 1);
        assert(d.subrange(start - 1, d.len() as int) =~= s.subrange(start, s.len() as int));
    }
}

proof fn lemma_trim_end(s: Seq<char>, p: spec_fn(char) -> bool, end: int)
    requires
        0 <= end <= s.len(),
        forall|i: int| end <= i < s.len() ==> p(#[trigger] s[i]),
        end == 0 || !p(s[end - 1]),
    ensures
        trim_end_by(s, p) == s.subrange(0, end),
    decreases s.len() - end,
{
    if end == s.len() {
        assert(s.subrange(0, end) =~= s);
    } else {
        assert(p(s.last()));
        let d = s.drop_last();
        assert forall|i: int| end <= i < d.len() implies p(#[trigger] d[i]) by {
            assert(d[i] == s[i]);
        }
        if end > 0 {
            assert(d[end - 1] == s[end - 1]);
        }
        lemma_trim_end(d, p, end);
        assert(d.subrange(0, end) =~= s.subrange(0, end));
    }
}

/// The characters of `v` with white space removed from both ends (`str::trim`).
pub fn trim_whitespace(v: &[char]) -> (r: Vec<char>)
    ensures
        r@ == trim_spec(v@),
{
    let n = v.len();
    let mut start: usize = 0;
    while start < n && is_whitespace(v[start])
        invariant
            n == v@.len(),
            start <= n,
            forall|i: int| 0 <= i < start ==> white_space_pred()(#[trigger] v@[i]),
        decreases n - start,
    {
        start = start + 1;
    }
    let mut end: usize = n;
    while end > start && is_whitespace(v[end - 1])
        invariant
            n == v@.len(),
            start <= end <= n,
            forall|i: int| end <= i < n ==> white_space_pred()(#[trigger] v@[i]),
        decreases end,
    {
        end = end - 1;
    }
    proof {
        lemma_trim_bounds(v@, white_space_pred(), start as int, end as int);
    }
    slice_chars(v, start, end)
}

/// The characters of `v` with NUL removed from both ends (`trim_matches('\0')`).
pub fn trim_nul(v: &[char]) -> (r: Vec<char>)
    ensures
        r@ == trim_by(v@, nul_pred()),
{
    let n = v.len();
    let mut start: usize = 0;
    while start < n && v[start] == '\0'
        invariant
            n == v@.len(),
            start <= n,
            forall|i: int| 0 <= i < start ==> nul_pred()(#[trigger] v@[i]),
        decreases n - start,
    {
        start = start + 1;
    }
    let mut end: usize = n;
    while end > start && v[end - 1] == '\0'
        invariant
            n == v@.len(),
            start <= end <= n,
            forall|i: int| end <= i < n ==> nul_pred()(#[trigger] v@[i]),
        decreases end,
    {
        end = end - 1;
    }
    proof {
        lemma_trim_bounds(v@, nul_pred(), start as int, end as int);
    }
    slice_chars(v, start, end)
}

/// A fresh vector holding `v[start..end]`.
pub fn slice_chars(v: &[char], start: usize, end: usize) -> (r: Vec<char>)
    requires
        start <= end <= v@.len(),
    ensures
        r@ == v@.subrange(start as int, end as int),
{
    let mut r: Vec<char> = Vec::new();
    let mut i: usize = start;
    while i < end
        invariant
            start <= i <= end <= v@.len(),
            r@ == v@.subrange(start as int, i as int),
        decreases end - i,
    {
        r.push(v[i]);
        i = i + 1;
        assert(r@ =~= v@.subrange(start as int, i as int));
    }
    r
}

/// Whether `needle` occurs in `hay` at `i`.
pub open spec fn occurs_at(hay: Seq<char>, needle: Seq<char>, i: int) -> bool {
    0 <= i && i + needle.len() <= hay.len() && hay.subrange(i, i + needle.len()) == needle
}

/// Whether `needle` occurs anywhere in `hay` (`str::contains`); the empty
/// string occurs everywhere.
pub open spec fn contains_spec(hay: Seq<char>, needle: Seq<char>) -> bool {
    exists|i: int| occurs_at(hay, needle, i)
}

/// Whether `needle` occurs in `hay`.
pub fn contains(hay: &[char], needle: &[char]) -> (b: bool)
    ensures
        b == contains_spec(hay@, needle@),
{
    let n = hay.len();
    let m = needle.len();
    if m > n {
        assert forall|i: int| !occurs_at(hay@, needle@, i) by {}
        return false;
    }
    let mut i: usize = 0;
    while i <= n - m
        invariant
            n == hay@.len(),
            m == needle@.len(),
            m <= n,
            i <= n - m + 1,
            forall|k: int| 0 <= k < i ==> !occurs_at(hay@, needle@, k),
        decreases n - m + 1 - i,
    {
        let mut j: usize = 0;
        let mut same = true;
        while j < m
            invariant
                n == hay@.len(),
                m == needle@.len(),
                i + m <= n,
                j <= m,
                same == (forall|k: int| 0 <= k < j ==> hay@[i + k] == needle@[k]),
            decreases m - j,
        {
            if hay[i + j] != needle[j] {
                same = false;
            }
            j = j + 1;
        }
        if same {
            assert(hay@.subrange(i as int, i + m) =~= needle@);
            assert(occurs_at(hay@, needle@, i as int));
            return true;
        }
        assert(!occurs_at(hay@, needle@, i as int)) by {
            let k = choose|k: int| 0 <= k < m && hay@[i + k] != needle@[k];
            assert(hay@.subrange(i as int, i + m)[k] != needle@[k]);
        }
        i = i + 1;
    }
    assert forall|k: int| !occurs_at(hay@, needle@, k) by {
        if 0 <= k && k + m <= n {
            assert(k < i);
        }
    }
    false
}

/// ASCII uppercase of one character.
pub open spec fn ascii_upper(c: char) -> char {
    if 'a' <= c && c <= 'z' {
        ((c as u32) - 32) as char
    } else {
        c
    }
}

/// ASCII lowercase of one character.
pub open spec fn ascii_lower(c: char) -> char {
    if 'A' <= c && c <= 'Z' {
        ((c as u32) + 32) as char
    } else {
        c
    }
}

/// `to_ascii_lowercase` of a whole string.
pub open spec fn ascii_lowercase(s: Seq<char>) -> Seq<char> {
    s.map_values(|c: char| ascii_lower(c))
}

/// `to_ascii_uppercase` of a whole string.
pub open spec fn ascii_uppercase(s: Seq<char>) -> Seq<char> {
    s.map_values(|c: char| ascii_upper(c))
}

/// ASCII uppercase of one character.
pub fn to_ascii_upper(c: char) -> (r: char)
    ensures
        r == ascii_upper(c),
{
    if 'a' <= c && c <= 'z' {
        let b = (c as u32 - 32) as u8;
        b as char
    } else {
        c
    }
}

/// ASCII lowercase of one character.
pub fn to_ascii_lower(c: char) -> (r: char)
    ensures
        r == ascii_lower(c),
{
    if 'A' <= c && c <= 'Z' {
        let b = (c as u32 + 32) as u8;
        b as char
    } else {
        c
    }
}

/// ASCII lowercase of a string.
pub fn ascii_lowercase_of(s: &str) -> (r: String)
    ensures
        r@ == ascii_lowercase(s@),
{
    let v = to_chars(s);
    let mut out: Vec<char> = Vec::new();
    let mut i: usize = 0;
    while i < v.len()
        invariant
            v@ == s@,
            i <= v@.len(),
            out@ == ascii_lowercase(v@.subrange(0, i as int)),
        decreases v@.len() - i,
    {
        out.push(to_ascii_lower(v[i]));
        i = i + 1;
        assert(out@ =~= ascii_lowercase(v@.subrange(0, i as int)));
    }
    assert(v@.subrange(0, v@.len() as int) =~= v@);
    from_chars(out.as_slice())
}

/// Whether two character sequences are equal.
pub fn chars_equal(a: &[char], b: &[char]) -> (r: bool)
    ensures
        r == (a@ == b@),
{
    if a.len() != b.len() {
        return false;
    }
    let mut i: usize = 0;
    while i < a.len()
        invariant
            a@.len() == b@.len(),
            i <= a@.len(),
            forall|k: int| 0 <= k < i ==> a@[k] == b@[k],
        decreases a@.len() - i,
    {
        if a[i] != b[i] {
            return false;
        }
        i = i + 1;
    }
    assert(a@ =~= b@);
    true
}

/// Whether two strings are equal.
pub fn str_equal(a: &str, b: &str) -> (r: bool)
    ensures
        r == (a@ == b@),
{
    let x = to_chars(a);
    let y = to_chars(b);
    chars_equal(x.as_slice(), y.as_slice())
}

/// The decimal digits.
pub open spec fn decimal_digits() -> Seq<char> {
    seq!['0', '1', '2', '3', '4', '5', '6', '7', '8', '9']
}

/// The decimal digit for `d < 10`.
pub open spec fn digit_char(d: nat) -> char {
    decimal_digits()[d as int]
}

/// The decimal representation of `n`, without leading zeros ("0" for zero).
pub open spec fn decimal(n: nat) -> Seq<char>
    decreases n,
{
    if n < 10 {
        seq![digit_char(n)]
    } else {
        decimal(n / 10) + seq![digit_char(n % 10)]
    }
}

/// The decimal representation of `n` (`u64::to_string`).
pub fn decimal_string(n: u128) -> (s: String)
    ensures
        s@ == decimal(n as nat),
{
    let table: [char; 10] = ['0', '1', '2', '3', '4', '5', '6', '7', '8', '9'];
    assert(table@ =~= decimal_digits());
    let mut digits: Vec<char> = Vec::new();
    let mut m: u128 = n;
    let ghost mut suffix: Seq<char> = seq![];
    loop
        invariant_except_break
            decimal(n as nat) == decimal(m as nat) + suffix,
            digits@ == suffix.reverse(),
            table@ == decimal_digits(),
        ensures
            decimal(n as nat) == suffix,
            digits@ == suffix.reverse(),
        decreases m,
    {
        let c = table[(m % 10) as usize];
        if m < 10 {
            digits.push(c);
            proof {
                assert(decimal(m as nat) == seq![digit_char(m as nat)]);
                assert(c == digit_char(m as nat));
                let old_suffix = suffix;
                suffix = seq![c] + suffix;
                assert(decimal(n as nat) =~= suffix);
                assert(digits@ =~= suffix.reverse());
            }
            break;
        }
        digits.push(c);
        proof {
            assert(c == digit_char((m % 10) as nat));
            assert(decimal(m as nat) == decimal((m / 10) as nat) + seq![c]);
            let old_suffix = suffix;
            suffix = seq![c] + suffix;
            assert(decimal(n as nat) =~= decimal((m / 10) as nat) + suffix);
            assert(digits@ =~= suffix.reverse());
        }
        m = m / 10;
    }
    let mut out: Vec<char> = Vec::new();
    let mut i: usize = digits.len();
    while i > 0
        invariant
            i <= digits@.len(),
            out@ == digits@.subrange(i as int, digits@.len() as int).reverse(),
        decreases i,
    {
        i = i - 1;
        out.push(digits[i]);
        assert(out@ =~= digits@.subrange(i as int, digits@.len() as int).reverse());
    }
    assert(digits@.subrange(0, digits@.len() as int) =~= digits@);
    assert(suffix.reverse().reverse() =~= suffix);
    from_chars(out.as_slice())
}

/// `parts` joined with `sep` between consecutive parts.
pub open spec fn join_spec(parts: Seq<Seq<char>>, sep: Seq<char>) -> Seq<char>
    decreases parts.len(),
{
    if parts.len() == 0 {
        seq![]
    } else if parts.len() == 1 {
        parts[0]
    } else {
        join_spec(parts.drop_last(), sep) + sep + parts.last()
    }
}

/// The views of a sequence of strings.
pub open spec fn strings_view(v: Seq<String>) -> Seq<Seq<char>> {
    v.map_values(|s: String| s@)
}

/// `parts.join(sep)`.
pub fn join(parts: &Vec<String>, sep: &str) -> (s: String)
    ensures
        s@ == join_spec(strings_view(parts@), sep@),
{
    let ghost ps = strings_view(parts@);
    let mut out = String::new();
    let mut i: usize = 0;
    while i < parts.len()
        invariant
            ps == strings_view(parts@),
            i <= parts@.len(),
            out@ == join_spec(ps.take(i as int), sep@),
        decreases parts@.len() - i,
    {
        assert(ps.take(i + 1).drop_last() =~= ps.take(i as int));
        assert(ps.take(i + 1).last() == parts@[i as int]@);
        if i > 0 {
            out.append(sep);
        }
        out.append(parts[i].as_str());
        proof {
            if i == 0 {
                assert(out@ =~= parts@[0]@);
                assert(ps.take(1)[0] == parts@[0]@);
            } else {
                assert(out@ =~= join_spec(ps.take(i as int), sep@) + sep@ + parts@[i as int]@);
            }
        }
        i = i + 1;
    }
    assert(ps.take(parts@.len() as int) =~= ps);
    out
}

} // verus!
