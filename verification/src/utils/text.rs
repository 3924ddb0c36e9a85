//! Character-level helpers: Unicode white space, trimming and ASCII
//! case-insensitive comparison.

use vstd::prelude::*;

verus! {

/// The characters with the Unicode `White_Space` property, which is what
/// `str::trim` and `char::is_whitespace` go by.
pub open spec fn is_white_space(c: char) -> bool {
    let u = c as u32;
    ||| 0x09 <= u <= 0x0d
    ||| u == 0x20
    ||| u == 0x85
    ||| u == 0xa0
    ||| u == 0x1680
    ||| 0x2000 <= u <= 0x200a
    ||| u == 0x2028
    ||| u == 0x2029
    ||| u == 0x202f
    ||| u == 0x205f
    ||| u == 0x3000
}

/// `s` without its leading white space.
pub open spec fn trim_start(s: Seq<char>) -> Seq<char>
    decreases s.len(),
{
    if s.len() > 0 && is_white_space(s[0]) {
        trim_start(s.drop_first())
    } else {
        s
    }
}

/// `s` without its trailing white space.
pub open spec fn trim_end(s: Seq<char>) -> Seq<char>
    decreases s.len(),
{
    if s.len() > 0 && is_white_space(s.last()) {
        trim_end(s.drop_last())
    } else {
        s
    }
}

/// `s` without leading and trailing white space.
pub open spec fn trim(s: Seq<char>) -> Seq<char> {
    trim_end(trim_start(s))
}

/// The code of `c` after ASCII lower-casing (only `A`..=`Z` change).
pub open spec fn ascii_lower_code(c: char) -> u32 {
    let u = c as u32;
    if 0x41 <= u <= 0x5a {
        (u + 0x20) as u32
    } else {
        u
    }
}

/// `s` lower-cases, character for character, to the lower-case ASCII word
/// `word`. For such a word this is the same as `lowercase(s) == word`:
/// no other character lower-cases to a single ASCII letter of such a word
/// (U+212A, which lower-cases to `k`, is the only non-ASCII one that
/// lower-cases to a lone ASCII letter).
pub open spec fn is_word_ignoring_ascii_case(s: Seq<char>, word: Seq<char>) -> bool {
    &&& s.len() == word.len()
    &&& forall|i: int| 0 <= i < s.len() ==> #[trigger] ascii_lower_code(s[i]) == word[i] as u32
}

/// Whether `c` is Unicode white space.
pub fn is_white_space_char(c: char) -> (r: bool)
    ensures
        r == is_white_space(c),
{
    let u = c as u32;
    (0x09 <= u && u <= 0x0d) || u == 0x20 || u == 0x85 || u == 0xa0 || u == 0x1680 || (0x2000
        <= u && u <= 0x200a) || u == 0x2028 || u == 0x2029 || u == 0x202f || u == 0x205f || u
        == 0x3000
}

/// The characters of `s`, in order.
pub fn chars_of(s: &str) -> (v: Vec<char>)
    ensures
        v@ == s@,
{
    let mut v: Vec<char> = Vec::new();
    for c in it: s.chars()
        invariant
            it.seq() == s@,
            v@ == s@.take(it.index()),
    {
        v.push(c);
        assert(s@.take(it.index() + 1) =~= s@.take(it.index()).push(c));
    }
    v
}

proof fn lemma_trim_start_skips(s: Seq<char>, i: int)
    requires
        0 <= i <= s.len(),
        forall|j: int| 0 <= j < i ==> is_white_space(#[trigger] s[j]),
    ensures
        trim_start(s) == trim_start(s.subrange(i, s.len() as int)),
    decreases i,
{
    if i > 0 {
        assert(is_white_space(s[0]));
        assert(s.drop_first() =~= s.subrange(1, s.len() as int));
        let t = s.drop_first();
        assert forall|j: int| 0 <= j < i - 1 implies is_white_space(#[trigger] t[j]) by {
            assert(t[j] == s[j + 1]);
        }
        lemma_trim_start_skips(t, i - 1);
        assert(t.subrange(i - 1, t.len() as int) =~= s.subrange(i, s.len() as int));
    } else {
        assert(s.subrange(0, s.len() as int) =~= s);
    }
}

proof fn lemma_trim_end_skips(s: Seq<char>, k: int)
    requires
        0 <= k <= s.len(),
        forall|j: int| k <= j < s.len() ==> is_white_space(#[trigger] s[j]),
    ensures
        trim_end(s) == trim_end(s.subrange(0, k)),
    decreases s.len() - k,
{
    if k < s.len() {
        assert(is_white_space(s[s.len() - 1]));
        let t = s.drop_last();
        assert forall|j: int| k <= j < t.len() implies is_white_space(#[trigger] t[j]) by {
            assert(t[j] == s[j]);
        }
        lemma_trim_end_skips(t, k);
        assert(t.subrange(0, k) =~= s.subrange(0, k));
    } else {
        assert(s.subrange(0, k) =~= s);
    }
}

/// The bounds `(start, end)` of `v` without leading and trailing white space.
pub fn trim_bounds(v: &Vec<char>) -> (r: (usize, usize))
    ensures
        r.0 <= r.1 <= v.len(),
        trim(v@) == v@.subrange(r.0 as int, r.1 as int),
{
    let n = v.len();
    let mut start: usize = 0;
    while start < n && is_white_space_char(v[start])
        invariant
            start <= n == v.len(),
            forall|j: int| 0 <= j < start ==> is_white_space(#[trigger] v@[j]),
        decreases n - start,
    {
        start = start + 1;
    }
    let ghost rest = v@.subrange(start as int, n as int);
    proof {
        lemma_trim_start_skips(v@, start as int);
        if rest.len() > 0 {
            assert(rest[0] == v@[start as int]);
        }
        assert(trim_start(v@) == rest);
    }
    let mut end: usize = n;
    while end > start && is_white_space_char(v[end - 1])
        invariant
            start <= end <= n == v.len(),
            rest == v@.subrange(start as int, n as int),
            forall|j: int| end <= j < n ==> is_white_space(#[trigger] v@[j]),
        decreases end - start,
    {
        end = end - 1;
    }
    proof {
        let k = end - start;
        assert forall|j: int| k <= j < rest.len() implies is_white_space(#[trigger] rest[j]) by {
            assert(rest[j] == v@[j + start]);
        }
        lemma_trim_end_skips(rest, k);
        let t = rest.subrange(0, k);
        assert(t =~= v@.subrange(start as int, end as int));
        if t.len() > 0 {
            assert(t.last() == v@[end - 1]);
        }
        assert(trim_end(t) == t);
    }
    (start, end)
}

/// Whether `s` holds nothing but white space, that is, whether `s.trim()`
/// is empty.
pub fn is_blank(s: &str) -> (r: bool)
    ensures
        r == (trim(s@).len() == 0),
{
    let v = chars_of(s);
    let (start, end) = trim_bounds(&v);
    start == end
}

/// Whether `v[start..end]` equals the lower-case ASCII word `word`,
/// ignoring ASCII case.
pub fn range_is_word_ignoring_ascii_case(v: &Vec<char>, start: usize, end: usize, word: &[char]) -> (r: bool)
    requires
        start <= end <= v.len(),
    ensures
        r == is_word_ignoring_ascii_case(v@.subrange(start as int, end as int), word@),
{
    let ghost s = v@.subrange(start as int, end as int);
    if end - start != word.len() {
        return false;
    }
    let mut i: usize = 0;
    while i < word.len()
        invariant
            start <= end <= v.len(),
            end - start == word@.len(),
            s == v@.subrange(start as int, end as int),
            i <= word.len(),
            forall|j: int| 0 <= j < i ==> #[trigger] ascii_lower_code(s[j]) == word@[j] as u32,
        decreases word.len() - i,
    {
        let c = v[start + i];
        let u = c as u32;
        let lower: u32 = if 0x41 <= u && u <= 0x5a {
            u + 0x20
        } else {
            u
        };
        assert(s[i as int] == c);
        assert(lower == ascii_lower_code(s[i as int]));
        if lower != word[i] as u32 {
            assert(ascii_lower_code(s[i as int]) != word@[i as int] as u32);
            return false;
        }
        i = i + 1;
    }
    true
}

/// The string of the characters `chars`, in order.
///
/// Calls `String::from_iter` over the characters; the contract claims that
/// the string holds exactly those characters, as std documents.
#[verifier::external_body]
pub fn string_from_chars(chars: &Vec<char>) -> (s: String)
    ensures
        s@ == chars@,
{
    String::from_iter(chars.iter())
}

/// The UTF-16 units of a NUL terminated buffer before its first NUL (all of
/// them when there is none).
pub open spec fn before_nul(buffer: Seq<u16>) -> Seq<u16>
    decreases buffer.len(),
{
    if buffer.len() == 0 || buffer[0] == 0 {
        Seq::empty()
    } else {
        seq![buffer[0]] + before_nul(buffer.drop_first())
    }
}

proof fn lemma_before_nul_prefix(buffer: Seq<u16>, i: int)
    requires
        0 <= i <= buffer.len(),
        forall|j: int| 0 <= j < i ==> #[trigger] buffer[j] != 0,
    ensures
        before_nul(buffer) == buffer.take(i) + before_nul(buffer.skip(i)),
    decreases i,
{
    if i > 0 {
        assert(buffer[0] != 0);
        let t = buffer.drop_first();
        assert forall|j: int| 0 <= j < i - 1 implies #[trigger] t[j] != 0 by {
            assert(t[j] == buffer[j + 1]);
        }
        lemma_before_nul_prefix(t, i - 1);
        assert(t.skip(i - 1) =~= buffer.skip(i));
        assert(seq![buffer[0]] + t.take(i - 1) =~= buffer.take(i));
    } else {
        assert(buffer.skip(0) =~= buffer);
        assert(buffer.take(0) =~= Seq::<u16>::empty());
    }
}

/// The text of a NUL terminated UTF-16 buffer: its units before the first
/// NUL.
pub fn until_nul(buffer: &[u16]) -> (text: Vec<u16>)
    ensures
        text@ == before_nul(buffer@),
{
    let mut text: Vec<u16> = Vec::new();
    let mut i: usize = 0;
    while i < buffer.len() && buffer[i] != 0
        invariant
            i <= buffer.len(),
            forall|j: int| 0 <= j < i ==> #[trigger] buffer@[j] != 0,
            text@ == buffer@.take(i as int),
        decreases buffer.len() - i,
    {
        text.push(buffer[i]);
        assert(buffer@.take(i + 1) =~= buffer@.take(i as int).push(buffer@[i as int]));
        i = i + 1;
    }
    proof {
        lemma_before_nul_prefix(buffer@, i as int);
        if i < buffer.len() {
            assert(buffer@.skip(i as int)[0] == 0);
        } else {
            assert(buffer@.skip(i as int) =~= Seq::<u16>::empty());
        }
        assert(before_nul(buffer@) =~= buffer@.take(i as int));
    }
    text
}

/// ASCII lower-casing turns each of the 26 letters `A`..=`Z` into its
/// lower-case letter (32 code points up) and leaves every other character
/// as it is.
pub proof fn lemma_ascii_lower_code(c: char)
    ensures
        'A' <= c <= 'Z' ==> ascii_lower_code(c) == c as u32 + 0x20,
        !('A' <= c <= 'Z') ==> ascii_lower_code(c) == c as u32,
        'a' <= c <= 'z' ==> ascii_lower_code(c) == c as u32,
{
}

proof fn lemma_trim_start_shape(s: Seq<char>)
    ensures
        trim_start(s).len() == 0 <==> forall|i: int| 0 <= i < s.len() ==> is_white_space(#[trigger] s[i]),
        trim_start(s).len() > 0 ==> !is_white_space(trim_start(s)[0]),
        exists|a: int|
            0 <= a <= s.len() && trim_start(s) == s.subrange(a, s.len() as int) && forall|i: int|
                0 <= i < a ==> is_white_space(#[trigger] s[i]),
    decreases s.len(),
{
    if s.len() > 0 && is_white_space(s[0]) {
        let t = s.drop_first();
        lemma_trim_start_shape(t);
        let a = choose|a: int|
            0 <= a <= t.len() && trim_start(t) == t.subrange(a, t.len() as int) && forall|i: int|
                0 <= i < a ==> is_white_space(#[trigger] t[i]);
        assert(t.subrange(a, t.len() as int) =~= s.subrange(a + 1, s.len() as int));
        assert forall|i: int| 0 <= i < a + 1 implies is_white_space(#[trigger] s[i]) by {
            if i > 0 {
                assert(s[i] == t[i - 1]);
            }
        }
        assert((forall|i: int| 0 <= i < t.len() ==> is_white_space(#[trigger] t[i])) <==> (forall|
            i: int,
        | 0 <= i < s.len() ==> is_white_space(#[trigger] s[i]))) by {
            if forall|i: int| 0 <= i < t.len() ==> is_white_space(#[trigger] t[i]) {
                assert forall|i: int| 0 <= i < s.len() implies is_white_space(#[trigger] s[i]) by {
                    if i > 0 {
                        assert(s[i] == t[i - 1]);
                    }
                }
            }
            if forall|i: int| 0 <= i < s.len() ==> is_white_space(#[trigger] s[i]) {
                assert forall|i: int| 0 <= i < t.len() implies is_white_space(#[trigger] t[i]) by {
                    assert(t[i] == s[i + 1]);
                }
            }
        }
    } else {
        assert(s.subrange(0, s.len() as int) =~= s);
        if s.len() > 0 {
            assert(!is_white_space(s[0]));
        }
    }
}

proof fn lemma_trim_end_shape(s: Seq<char>)
    ensures
        s.len() > 0 && !is_white_space(s[0]) ==> trim_end(s).len() > 0,
        trim_end(s).len() > 0 ==> !is_white_space(trim_end(s).last()),
        exists|b: int|
            0 <= b <= s.len() && trim_end(s) == s.subrange(0, b) && forall|i: int|
                b <= i < s.len() ==> is_white_space(#[trigger] s[i]),
    decreases s.len(),
{
    if s.len() > 0 && is_white_space(s.last()) {
        let t = s.drop_last();
        lemma_trim_end_shape(t);
        let b = choose|b: int|
            0 <= b <= t.len() && trim_end(t) == t.subrange(0, b) && forall|i: int|
                b <= i < t.len() ==> is_white_space(#[trigger] t[i]);
        assert(t.subrange(0, b) =~= s.subrange(0, b));
        assert forall|i: int| b <= i < s.len() implies is_white_space(#[trigger] s[i]) by {
            if i < s.len() - 1 {
                assert(s[i] == t[i]);
            }
        }
        if s.len() > 1 {
            assert(t[0] == s[0]);
        }
    } else {
        assert(s.subrange(0, s.len() as int) =~= s);
    }
}

/// Trimming removes exactly the white space at both ends: the result is a
/// contiguous part `s[start..end]` of `s`, everything before `start` and from
/// `end` on is white space, and the result neither starts nor ends with
/// white space. In particular it is empty exactly when `s` is all white
/// space.
pub proof fn lemma_trim_shape(s: Seq<char>)
    ensures
        exists|start: int, end: int|
            0 <= start <= end <= s.len() && trim(s) == s.subrange(start, end) && (forall|i: int|
                0 <= i < start ==> is_white_space(#[trigger] s[i])) && (forall|i: int|
                end <= i < s.len() ==> is_white_space(#[trigger] s[i])),
        trim(s).len() > 0 ==> !is_white_space(trim(s)[0]) && !is_white_space(trim(s).last()),
        trim(s).len() == 0 <==> forall|i: int| 0 <= i < s.len() ==> is_white_space(#[trigger] s[i]),
{
    lemma_trim_start_shape(s);
    let t = trim_start(s);
    lemma_trim_end_shape(t);
    let a = choose|a: int|
        0 <= a <= s.len() && t == s.subrange(a, s.len() as int) && forall|i: int|
            0 <= i < a ==> is_white_space(#[trigger] s[i]);
    let b = choose|b: int|
        0 <= b <= t.len() && trim_end(t) == t.subrange(0, b) && forall|i: int|
            b <= i < t.len() ==> is_white_space(#[trigger] t[i]);
    assert(t.subrange(0, b) =~= s.subrange(a, a + b));
    assert forall|i: int| a + b <= i < s.len() implies is_white_space(#[trigger] s[i]) by {
        assert(s[i] == t[i - a]);
    }
    if trim(s).len() > 0 {
        assert(trim(s)[0] == t[0]);
    }
}

/// Among ASCII characters, exactly tab, line feed, vertical tab, form
/// feed, carriage return and space are white space; no ASCII letter or
/// digit is; beyond ASCII, the white space is next line, no-break space,
/// Ogham space mark, the spaces U+2000 to U+200A, the line and paragraph
/// separators, narrow no-break space, medium mathematical space and
/// ideographic space (the Unicode `White_Space` list).
pub proof fn lemma_ascii_white_space(c: char)
    ensures
        (c as u32) < 0x80 ==> (is_white_space(c) <==> (c == '\t' || c == '\n' || c == '\u{b}' || c
            == '\u{c}' || c == '\r' || c == ' ')),
        ('a' <= c <= 'z' || 'A' <= c <= 'Z' || '0' <= c <= '9') ==> !is_white_space(c),
        (c as u32) >= 0x80 ==> (is_white_space(c) <==> (c == '\u{85}' || c == '\u{a0}' || c
            == '\u{1680}' || ('\u{2000}' <= c <= '\u{200a}') || c == '\u{2028}' || c == '\u{2029}'
            || c == '\u{202f}' || c == '\u{205f}' || c == '\u{3000}')),
{
}

/// The text of a NUL terminated buffer is the part of the buffer before its
/// first NUL: a prefix of the buffer without NUL, followed by a NUL or by
/// the end of the buffer.
pub proof fn lemma_before_nul(buffer: Seq<u16>)
    ensures
        before_nul(buffer).len() <= buffer.len(),
        before_nul(buffer) == buffer.take(before_nul(buffer).len() as int),
        forall|i: int| 0 <= i < before_nul(buffer).len() ==> #[trigger] before_nul(buffer)[i] != 0,
        before_nul(buffer).len() < buffer.len() ==> buffer[before_nul(buffer).len() as int] == 0,
    decreases buffer.len(),
{
    if buffer.len() > 0 && buffer[0] != 0 {
        let t = buffer.drop_first();
        lemma_before_nul(t);
        assert(seq![buffer[0]] + t.take(before_nul(t).len() as int) =~= buffer.take(
            before_nul(buffer).len() as int,
        ));
        assert forall|i: int| 0 <= i < before_nul(buffer).len() implies #[trigger] before_nul(
            buffer,
        )[i] != 0 by {
            if i > 0 {
                assert(before_nul(buffer)[i] == before_nul(t)[i - 1]);
            }
        }
        if before_nul(buffer).len() < buffer.len() {
            assert(buffer[before_nul(buffer).len() as int] == t[before_nul(t).len() as int]);
        }
    } else {
        assert(buffer.take(0) =~= Seq::<u16>::empty());
    }
}

/// `s` with its ASCII upper case letters turned into lower case ones.
pub open spec fn ascii_lowercase(s: Seq<char>) -> Seq<char> {
    s.map_values(|c: char| if 'A' <= c <= 'Z' { ((c as u32) + 0x20) as char } else { c })
}

proof fn lemma_lower_char(c: char)
    ensures
        ({
            let l = if 'A' <= c <= 'Z' { ((c as u32) + 0x20) as char } else { c };
            &&& is_white_space(l) == is_white_space(c)
            &&& ascii_lower_code(l) == ascii_lower_code(c)
        }),
{
}

proof fn lemma_trim_start_lowercase(s: Seq<char>)
    ensures
        trim_start(ascii_lowercase(s)) == ascii_lowercase(trim_start(s)),
    decreases s.len(),
{
    if s.len() > 0 {
        lemma_lower_char(s[0]);
        assert(ascii_lowercase(s)[0] == (if 'A' <= s[0] <= 'Z' { ((s[0] as u32) + 0x20) as char } else { s[0] }));
        assert(ascii_lowercase(s).drop_first() =~= ascii_lowercase(s.drop_first()));
        lemma_trim_start_lowercase(s.drop_first());
    } else {
        assert(ascii_lowercase(s) =~= s);
    }
}

proof fn lemma_trim_end_lowercase(s: Seq<char>)
    ensures
        trim_end(ascii_lowercase(s)) == ascii_lowercase(trim_end(s)),
    decreases s.len(),
{
    if s.len() > 0 {
        lemma_lower_char(s.last());
        assert(ascii_lowercase(s).last() == (if 'A' <= s.last() <= 'Z' { ((s.last() as u32) + 0x20) as char } else { s.last() }));
        assert(ascii_lowercase(s).drop_last() =~= ascii_lowercase(s.drop_last()));
        lemma_trim_end_lowercase(s.drop_last());
    } else {
        assert(ascii_lowercase(s) =~= s);
    }
}

/// Trimming and comparing with a lower case word ignoring case do not see
/// ASCII case: lower-casing the text first changes neither.
pub proof fn lemma_ascii_case_is_ignored(s: Seq<char>, word: Seq<char>)
    ensures
        trim(ascii_lowercase(s)) == ascii_lowercase(trim(s)),
        is_word_ignoring_ascii_case(ascii_lowercase(s), word) == is_word_ignoring_ascii_case(s, word),
{
    lemma_trim_start_lowercase(s);
    lemma_trim_end_lowercase(trim_start(s));
    let l = ascii_lowercase(s);
    assert forall|i: int| 0 <= i < s.len() implies #[trigger] ascii_lower_code(l[i])
        == ascii_lower_code(s[i]) by {
        lemma_lower_char(s[i]);
    }
    if is_word_ignoring_ascii_case(s, word) {
        assert forall|i: int| 0 <= i < l.len() implies #[trigger] ascii_lower_code(l[i]) == word[i] as u32 by {
            assert(ascii_lower_code(s[i]) == word[i] as u32);
        }
    }
    if is_word_ignoring_ascii_case(l, word) {
        assert forall|i: int| 0 <= i < s.len() implies #[trigger] ascii_lower_code(s[i]) == word[i] as u32 by {
            assert(ascii_lower_code(l[i]) == word[i] as u32);
        }
    }
}

} // verus!
