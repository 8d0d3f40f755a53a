//! Character-level string utilities with mathematical models over `Seq<char>`.
//!
//! Strings are handled as sequences of Unicode scalar values. The std
//! behaviours that the rest of the library relies on (line splitting,
//! splitting on a separator, trimming, prefix and suffix tests) are stated
//! here as spec functions and implemented by verified loops.
use vstd::prelude::*;

verus! {

broadcast use vstd::string::group_string_axioms;

/// Appending a char to a `String` extends its character sequence by that char.
pub assume_specification[ String::push ](string: &mut String, ch: char)
    ensures
        final(string)@ == old(string)@.push(ch),
;

/// The Unicode `White_Space` property of a char, which std's
/// `char::is_whitespace` reports: tab, line feed, vertical tab, form feed,
/// carriage return, space, next line, no-break space, ogham space mark, the
/// spaces U+2000 to U+200A, line and paragraph separators, narrow no-break
/// space, medium mathematical space and ideographic space.
pub open spec fn char_is_whitespace(c: char) -> bool {
    let v = c as int;
    (0x09 <= v <= 0x0d) || v == 0x20 || v == 0x85 || v == 0xa0 || v == 0x1680 || (0x2000 <= v
        <= 0x200a) || v == 0x2028 || v == 0x2029 || v == 0x202f || v == 0x205f || v == 0x3000
}

/// An ASCII char.
pub open spec fn is_ascii_char(c: char) -> bool {
    (c as int) < 128
}

/// A string of ASCII chars only.
pub open spec fn is_ascii_text(s: Seq<char>) -> bool {
    forall|i: int| 0 <= i < s.len() ==> is_ascii_char(#[trigger] s[i])
}

/// An ASCII letter or digit.
pub open spec fn ascii_alphanumeric(c: char) -> bool {
    ('a' <= c && c <= 'z') || ('A' <= c && c <= 'Z') || ('0' <= c && c <= '9')
}

/// Name for std's `char::is_alphanumeric` on a char beyond ASCII (Unicode
/// `Alphabetic` or `Numeric`).
pub uninterp spec fn unicode_alphanumeric(c: char) -> bool;

/// Name for std's `char::is_lowercase` on a char beyond ASCII (Unicode
/// `Lowercase` property).
pub uninterp spec fn unicode_lowercase_char(c: char) -> bool;

/// Name for std's `str::to_lowercase` on a string that holds a char beyond
/// ASCII (Unicode lowercase mapping, which may change the length).
pub uninterp spec fn unicode_lowercase(s: Seq<char>) -> Seq<char>;

/// std's `char::is_alphanumeric`: on ASCII, the letters and digits.
pub open spec fn char_is_alphanumeric(c: char) -> bool {
    if is_ascii_char(c) {
        ascii_alphanumeric(c)
    } else {
        unicode_alphanumeric(c)
    }
}

/// std's `char::is_lowercase`: on ASCII, the letters `a` to `z`.
pub open spec fn char_is_lowercase(c: char) -> bool {
    if is_ascii_char(c) {
        'a' <= c && c <= 'z'
    } else {
        unicode_lowercase_char(c)
    }
}

/// std's `str::to_lowercase`: on ASCII text, each letter `A` to `Z` is
/// lowered and every other char is kept.
pub open spec fn lowercase(s: Seq<char>) -> Seq<char> {
    if is_ascii_text(s) {
        s.map_values(|c: char| ascii_lower(c))
    } else {
        unicode_lowercase(s)
    }
}

/// Whether the char has the Unicode `White_Space` property (std's
/// `char::is_whitespace`).
pub(crate) fn is_whitespace(c: char) -> (r: bool)
    ensures
        r == char_is_whitespace(c),
{
    let v: u32 = c as u32;
    (0x09 <= v && v <= 0x0d) || v == 0x20 || v == 0x85 || v == 0xa0 || v == 0x1680 || (0x2000 <= v
        && v <= 0x200a) || v == 0x2028 || v == 0x2029 || v == 0x202f || v == 0x205f || v == 0x3000
}

/// Calls `char::is_alphanumeric`: on an ASCII char, true exactly for the
/// letters and digits; beyond ASCII the result depends on the char alone.
#[verifier::external_body]
pub(crate) fn is_alphanumeric(c: char) -> (r: bool)
    ensures
        r == (if is_ascii_char(c) {
            ascii_alphanumeric(c)
        } else {
            unicode_alphanumeric(c)
        }),
{
    c.is_alphanumeric()
}

/// Calls `char::is_lowercase`: on an ASCII char, true exactly for `a` to
/// `z`; beyond ASCII the result depends on the char alone.
#[verifier::external_body]
pub(crate) fn is_lowercase(c: char) -> (r: bool)
    ensures
        r == (if is_ascii_char(c) {
            'a' <= c && c <= 'z'
        } else {
            unicode_lowercase_char(c)
        }),
{
    c.is_lowercase()
}

/// Calls `str::to_lowercase`: on ASCII text, each letter `A` to `Z` is
/// lowered and every other char kept; otherwise the result depends on the
/// string alone.
#[verifier::external_body]
pub(crate) fn to_lowercase(s: &str) -> (r: String)
    ensures
        r@ == (if is_ascii_text(s@) {
            s@.map_values(|c: char| ascii_lower(c))
        } else {
            unicode_lowercase(s@)
        }),
{
    s.to_lowercase()
}

// ---------------------------------------------------------------------------
// Models
// ---------------------------------------------------------------------------

/// The character sequences of a sequence of char vectors.
pub open spec fn seq_views(v: Seq<Vec<char>>) -> Seq<Seq<char>> {
    v.map_values(|x: Vec<char>| x@)
}

/// `p` is a prefix of `s`.
pub open spec fn is_prefix(p: Seq<char>, s: Seq<char>) -> bool {
    p.len() <= s.len() && s.subrange(0, p.len() as int) == p
}

/// `p` is a suffix of `s`.
pub open spec fn is_suffix(p: Seq<char>, s: Seq<char>) -> bool {
    p.len() <= s.len() && s.subrange(s.len() - p.len(), s.len() as int) == p
}

/// `p` occurs in `s` starting at index `i`.
pub open spec fn occurs_at(s: Seq<char>, p: Seq<char>, i: int) -> bool {
    0 <= i && i + p.len() <= s.len() && s.subrange(i, i + p.len()) == p
}

/// `p` occurs somewhere in `s`.
pub open spec fn contains_seq(s: Seq<char>, p: Seq<char>) -> bool {
    exists|i: int| occurs_at(s, p, i)
}

/// The first index at or after `i` where `p` occurs in `s`, or -1.
pub open spec fn find_from(s: Seq<char>, p: Seq<char>, i: int) -> int
    decreases s.len() + 1 - i,
{
    if i < 0 || i + p.len() > s.len() {
        -1
    } else if occurs_at(s, p, i) {
        i
    } else {
        find_from(s, p, i + 1)
    }
}

/// The pieces of `s` between the non-overlapping occurrences of `sep`,
/// scanning left to right (std's `str::split` with a string pattern).
pub open spec fn split_on(s: Seq<char>, sep: Seq<char>) -> Seq<Seq<char>>
    decreases s.len(),
{
    let i = find_from(s, sep, 0);
    if sep.len() == 0 || i < 0 {
        seq![s]
    } else {
        proof {
            lemma_find_from_range(s, sep, 0);
        }
        seq![s.subrange(0, i)] + split_on(s.subrange(i + sep.len(), s.len() as int), sep)
    }
}

/// Drops one trailing carriage return.
pub open spec fn strip_cr(s: Seq<char>) -> Seq<char> {
    if s.len() > 0 && s.last() == '\r' {
        s.drop_last()
    } else {
        s
    }
}

/// The lines of `s` as std's `str::lines` yields them: split at `\n`, a
/// `\r` right before a `\n` belongs to the line ending, and a final line
/// ending does not start an empty line.
pub open spec fn lines_of(s: Seq<char>) -> Seq<Seq<char>> {
    if s.len() == 0 {
        seq![]
    } else {
        let p = split_on(s, seq!['\n']);
        let ended = p.drop_last().map_values(|l: Seq<char>| strip_cr(l));
        if p.last().len() == 0 {
            ended
        } else {
            ended.push(p.last())
        }
    }
}

/// The first line of `s`, or the empty sequence when `s` has no lines.
pub open spec fn first_line_of(s: Seq<char>) -> Seq<char> {
    if lines_of(s).len() == 0 {
        seq![]
    } else {
        lines_of(s)[0]
    }
}

/// `s` without its leading whitespace.
pub open spec fn trim_start_of(s: Seq<char>) -> Seq<char>
    decreases s.len(),
{
    if s.len() > 0 && char_is_whitespace(s[0]) {
        trim_start_of(s.drop_first())
    } else {
        s
    }
}

/// `s` without its trailing whitespace.
pub open spec fn trim_end_of(s: Seq<char>) -> Seq<char>
    decreases s.len(),
{
    if s.len() > 0 && char_is_whitespace(s.last()) {
        trim_end_of(s.drop_last())
    } else {
        s
    }
}

/// `s` without leading and trailing whitespace (std's `str::trim`).
pub open spec fn trim_of(s: Seq<char>) -> Seq<char> {
    trim_end_of(trim_start_of(s))
}

/// The pieces joined with `sep` between consecutive pieces.
pub open spec fn join_with(pieces: Seq<Seq<char>>, sep: Seq<char>) -> Seq<char>
    decreases pieces.len(),
{
    if pieces.len() == 0 {
        seq![]
    } else if pieces.len() == 1 {
        pieces[0]
    } else {
        join_with(pieces.drop_last(), sep) + sep + pieces.last()
    }
}

/// Every occurrence of `c` in `s` replaced by `by`.
pub open spec fn replace_char(s: Seq<char>, c: char, by: Seq<char>) -> Seq<char>
    decreases s.len(),
{
    if s.len() == 0 {
        seq![]
    } else {
        replace_char(s.drop_last(), c, by) + (if s.last() == c {
            by
        } else {
            seq![s.last()]
        })
    }
}

/// Number of occurrences of `c` in `s`.
pub open spec fn count_char(s: Seq<char>, c: char) -> nat
    decreases s.len(),
{
    if s.len() == 0 {
        0
    } else {
        count_char(s.drop_last(), c) + (if s.last() == c {
            1nat
        } else {
            0nat
        })
    }
}

/// The length and first three chars of a word: words that differ in any of
/// them differ.
pub open spec fn word_key(w: Seq<char>) -> (int, char, char, char) {
    (w.len() as int, w[0], w[1], w[2])
}

/// ASCII lowercase of one char; other chars are unchanged.
pub open spec fn ascii_lower(c: char) -> char {
    if 'A' <= c && c <= 'Z' {
        (((c as u32) + 32) as u8) as char
    } else {
        c
    }
}

/// Equality that ignores ASCII case (std's `str::eq_ignore_ascii_case`).
pub open spec fn eq_ignore_ascii_case_of(a: Seq<char>, b: Seq<char>) -> bool {
    a.len() == b.len() && forall|i: int| 0 <= i < a.len() ==> ascii_lower(#[trigger] a[i])
        == ascii_lower(b[i])
}

// ---------------------------------------------------------------------------
// Lemmas
// ---------------------------------------------------------------------------

pub proof fn lemma_find_from_range(s: Seq<char>, p: Seq<char>, i: int)
    requires
        0 <= i,
    ensures
        find_from(s, p, i) == -1 || (i <= find_from(s, p, i) && occurs_at(
            s,
            p,
            find_from(s, p, i),
        )),
        forall|j: int|
            i <= j && (find_from(s, p, i) == -1 || j < find_from(s, p, i)) ==> !occurs_at(s, p, j),
    decreases s.len() + 1 - i,
{
    if i < 0 || i + p.len() > s.len() {
        assert forall|j: int| i <= j implies !occurs_at(s, p, j) by {}
    } else if occurs_at(s, p, i) {
    } else {
        lemma_find_from_range(s, p, i + 1);
        assert forall|j: int|
            i <= j && (find_from(s, p, i) == -1 || j < find_from(s, p, i)) implies !occurs_at(
            s,
            p,
            j,
        ) by {
            if j > i {
            }
        }
    }
}

/// The first occurrence at or after `i` is the `k` that occurs with none
/// before it.
pub proof fn lemma_find_from_first(s: Seq<char>, p: Seq<char>, i: int, k: int)
    requires
        0 <= i <= k,
        occurs_at(s, p, k),
        forall|j: int| i <= j < k ==> !occurs_at(s, p, j),
    ensures
        find_from(s, p, i) == k,
    decreases k - i,
{
    if i < k {
        lemma_find_from_first(s, p, i + 1, k);
    }
}

/// No occurrence at or after `i` means no first occurrence.
pub proof fn lemma_find_from_none(s: Seq<char>, p: Seq<char>, i: int)
    requires
        0 <= i,
        forall|j: int| i <= j ==> !occurs_at(s, p, j),
    ensures
        find_from(s, p, i) == -1,
    decreases s.len() + 1 - i,
{
    if i + p.len() > s.len() {
    } else {
        lemma_find_from_none(s, p, i + 1);
    }
}

/// Occurrences in a suffix are occurrences in the whole sequence, shifted.
pub proof fn lemma_occurs_shift(s: Seq<char>, p: Seq<char>, start: int, j: int)
    requires
        0 <= start <= s.len(),
    ensures
        occurs_at(s.subrange(start, s.len() as int), p, j) <==> (0 <= j && occurs_at(
            s,
            p,
            start + j,
        )),
{
    let t = s.subrange(start, s.len() as int);
    if 0 <= j && j + p.len() <= t.len() {
        assert(t.subrange(j, j + p.len()) =~= s.subrange(start + j, start + j + p.len()));
    }
}

pub proof fn lemma_trim_start_at(s: Seq<char>, i: int)
    requires
        0 <= i <= s.len(),
        forall|j: int| 0 <= j < i ==> char_is_whitespace(#[trigger] s[j]),
        i == s.len() || !char_is_whitespace(s[i]),
    ensures
        trim_start_of(s) == s.subrange(i, s.len() as int),
    decreases i,
{
    if i == 0 {
        assert(s.subrange(0, s.len() as int) =~= s);
    } else {
        let t = s.drop_first();
        assert forall|j: int| 0 <= j < i - 1 implies char_is_whitespace(#[trigger] t[j]) by {
            assert(t[j] == s[j + 1]);
        }
        lemma_trim_start_at(t, i - 1);
        assert(t.subrange(i - 1, t.len() as int) =~= s.subrange(i, s.len() as int));
    }
}

pub proof fn lemma_trim_end_at(s: Seq<char>, k: int)
    requires
        0 <= k <= s.len(),
        forall|j: int| k <= j < s.len() ==> char_is_whitespace(#[trigger] s[j]),
        k == 0 || !char_is_whitespace(s[k - 1]),
    ensures
        trim_end_of(s) == s.subrange(0, k),
    decreases s.len() - k,
{
    if k == s.len() {
        assert(s.subrange(0, k) =~= s);
    } else {
        let t = s.drop_last();
        assert forall|j: int| k <= j < t.len() implies char_is_whitespace(#[trigger] t[j]) by {
            assert(t[j] == s[j]);
        }
        lemma_trim_end_at(t, k);
        assert(t.subrange(0, k) =~= s.subrange(0, k));
    }
}

// ---------------------------------------------------------------------------
// Executable operations
// ---------------------------------------------------------------------------

/// The characters of a string slice.
pub fn to_chars(s: &str) -> (r: Vec<char>)
    ensures
        r@ == s@,
{
    let mut out: Vec<char> = Vec::new();
    for c in it: s.chars()
        invariant
            it.seq() == s@,
            out@ == s@.take(it.index() as int),
    {
        out.push(c);
        proof {
            assert(s@.take(it.index() + 1) =~= s@.take(it.index() as int).push(c));
        }
    }
    proof {
        assert(s@.take(s@.len() as int) =~= s@);
    }
    out
}

/// A string made of the characters of `cs[from..to]`.
pub fn string_of(cs: &[char], from: usize, to: usize) -> (r: String)
    requires
        from <= to <= cs@.len(),
    ensures
        r@ == cs@.subrange(from as int, to as int),
{
    let mut out = String::new();
    let mut i: usize = from;
    while i < to
        invariant
            from <= i <= to <= cs@.len(),
            out@ == cs@.subrange(from as int, i as int),
        decreases to - i,
    {
        out.push(cs[i]);
        i = i + 1;
        proof {
            assert(cs@.subrange(from as int, i as int) =~= cs@.subrange(from as int, i - 1).push(
                cs@[i - 1],
            ));
        }
    }
    out
}

/// A string made of all the characters of `cs`.
pub fn string_from(cs: &[char]) -> (r: String)
    ensures
        r@ == cs@,
{
    let r = string_of(cs, 0, cs.len());
    proof {
        assert(cs@.subrange(0, cs@.len() as int) =~= cs@);
    }
    r
}

/// `a` followed by `b`.
pub fn concat(a: &str, b: &str) -> (r: String)
    ensures
        r@ == a@ + b@,
{
    let mut out = String::from_str(a);
    out.append(b);
    out
}

/// `a`, `b` and `c` in a row.
pub fn concat3(a: &str, b: &str, c: &str) -> (r: String)
    ensures
        r@ == a@ + b@ + c@,
{
    let mut out = String::from_str(a);
    out.append(b);
    out.append(c);
    out
}

/// Whether `p` occurs in `s` at index `i`.
pub fn occurs_at_exec(s: &[char], p: &[char], i: usize) -> (r: bool)
    ensures
        r == occurs_at(s@, p@, i as int),
{
    if i > s.len() || p.len() > s.len() - i {
        return false;
    }
    let mut k: usize = 0;
    while k < p.len()
        invariant
            i + p@.len() <= s@.len(),
            k <= p@.len(),
            forall|j: int| 0 <= j < k ==> s@[i + j] == p@[j],
        decreases p@.len() - k,
    {
        assert(i + k < s.len());
        if s[i + k] != p[k] {
            proof {
                assert(s@.subrange(i as int, i + p@.len())[k as int] != p@[k as int]);
            }
            return false;
        }
        k = k + 1;
    }
    proof {
        assert(s@.subrange(i as int, i + p@.len()) =~= p@);
    }
    true
}

/// Equality of two strings, character by character.
pub fn str_eq(a: &str, b: &str) -> (r: bool)
    ensures
        r == (a@ == b@),
{
    let x = to_chars(a);
    let y = to_chars(b);
    if x.len() != y.len() {
        return false;
    }
    let r = occurs_at_exec(x.as_slice(), y.as_slice(), 0);
    proof {
        assert(x@.subrange(0, y@.len() as int) =~= x@);
    }
    r
}

/// Whether `p` is a prefix of `s`.
pub fn starts_with(s: &[char], p: &[char]) -> (r: bool)
    ensures
        r == is_prefix(p@, s@),
{
    occurs_at_exec(s, p, 0)
}

/// Whether `p` is a suffix of `s`.
pub fn ends_with(s: &[char], p: &[char]) -> (r: bool)
    ensures
        r == is_suffix(p@, s@),
{
    if p.len() > s.len() {
        false
    } else {
        occurs_at_exec(s, p, s.len() - p.len())
    }
}

/// Whether `p` is a prefix of the string `s`.
pub fn str_starts_with(s: &str, p: &str) -> (r: bool)
    ensures
        r == is_prefix(p@, s@),
{
    let x = to_chars(s);
    let y = to_chars(p);
    starts_with(x.as_slice(), y.as_slice())
}

/// Whether `p` is a suffix of the string `s`.
pub fn str_ends_with(s: &str, p: &str) -> (r: bool)
    ensures
        r == is_suffix(p@, s@),
{
    let x = to_chars(s);
    let y = to_chars(p);
    ends_with(x.as_slice(), y.as_slice())
}

/// The first index at or after `from` where `p` occurs in `s`.
pub fn find_exec(s: &[char], p: &[char], from: usize) -> (r: Option<usize>)
    ensures
        match r {
            Some(k) => find_from(s@, p@, from as int) == k as int,
            None => find_from(s@, p@, from as int) == -1,
        },
{
    if p.len() == 0 {
        if from <= s.len() {
            proof {
                assert(s@.subrange(from as int, from as int) =~= p@);
            }
            return Some(from);
        } else {
            return None;
        }
    }
    let mut i = from;
    while i <= s.len() && p.len() <= s.len() - i
        invariant
            from <= i,
            p@.len() > 0,
            forall|j: int| from <= j < i ==> !occurs_at(s@, p@, j),
        decreases s@.len() + 1 - i,
    {
        if occurs_at_exec(s, p, i) {
            proof {
                lemma_find_from_first(s@, p@, from as int, i as int);
            }
            return Some(i);
        }
        i = i + 1;
    }
    proof {
        assert forall|j: int| from <= j implies !occurs_at(s@, p@, j) by {
            if j >= i {
                assert(j + p@.len() > s@.len());
            }
        }
        lemma_find_from_none(s@, p@, from as int);
    }
    None
}

/// Whether `p` occurs anywhere in `s`.
pub fn contains(s: &[char], p: &[char]) -> (r: bool)
    ensures
        r == contains_seq(s@, p@),
{
    let f = find_exec(s, p, 0);
    proof {
        lemma_find_from_range(s@, p@, 0);
        if f.is_none() {
            assert forall|i: int| !occurs_at(s@, p@, i) by {
                if 0 <= i {
                } else {
                }
            }
        }
    }
    f.is_some()
}

/// Whether `p` occurs anywhere in the string `s`.
pub fn str_contains(s: &str, p: &str) -> (r: bool)
    ensures
        r == contains_seq(s@, p@),
{
    let x = to_chars(s);
    let y = to_chars(p);
    contains(x.as_slice(), y.as_slice())
}

/// The pieces of `s` between the occurrences of a non-empty `sep`.
pub fn split_exec(s: &[char], sep: &[char]) -> (r: Vec<Vec<char>>)
    requires
        sep@.len() > 0,
    ensures
        seq_views(r@) == split_on(s@, sep@),
{
    let mut out: Vec<Vec<char>> = Vec::new();
    let mut start: usize = 0;
    proof {
        assert(s@.subrange(0, s@.len() as int) =~= s@);
        assert(seq_views(out@) =~= Seq::<Seq<char>>::empty());
    }
    loop
        invariant
            sep@.len() > 0,
            start <= s@.len(),
            seq_views(out@) + split_on(s@.subrange(start as int, s@.len() as int), sep@) == split_on(
                s@,
                sep@,
            ),
        decreases s@.len() - start,
    {
        let ghost t = s@.subrange(start as int, s@.len() as int);
        let f = find_exec(s, sep, start);
        match f {
            None => {
                proof {
                    assert forall|j: int| 0 <= j implies !occurs_at(t, sep@, j) by {
                        lemma_occurs_shift(s@, sep@, start as int, j);
                        lemma_find_from_range(s@, sep@, start as int);
                    }
                    lemma_find_from_none(t, sep@, 0);
                }
                let mut piece: Vec<char> = Vec::new();
                let mut i = start;
                while i < s.len()
                    invariant
                        start <= i <= s@.len(),
                        piece@ == s@.subrange(start as int, i as int),
                    decreases s@.len() - i,
                {
                    piece.push(s[i]);
                    i = i + 1;
                    proof {
                        assert(s@.subrange(start as int, i as int) =~= s@.subrange(
                            start as int,
                            i - 1,
                        ).push(s@[i - 1]));
                    }
                }
                let ghost before = seq_views(out@);
                out.push(piece);
                proof {
                    assert(split_on(t, sep@) == seq![t]);
                    assert(seq_views(out@) =~= before.push(t));
                }
                return out;
            },
            Some(k) => {
                proof {
                    lemma_find_from_range(s@, sep@, start as int);
                    assert forall|j: int| 0 <= j < k - start implies !occurs_at(t, sep@, j) by {
                        lemma_occurs_shift(s@, sep@, start as int, j);
                    }
                    lemma_occurs_shift(s@, sep@, start as int, k - start);
                    lemma_find_from_first(t, sep@, 0, k - start);
                }
                let mut piece: Vec<char> = Vec::new();
                let mut i = start;
                while i < k
                    invariant
                        start <= i <= k <= s@.len(),
                        piece@ == s@.subrange(start as int, i as int),
                    decreases k - i,
                {
                    piece.push(s[i]);
                    i = i + 1;
                    proof {
                        assert(s@.subrange(start as int, i as int) =~= s@.subrange(
                            start as int,
                            i - 1,
                        ).push(s@[i - 1]));
                    }
                }
                let ghost before = seq_views(out@);
                out.push(piece);
                proof {
                    assert(t.subrange(0, k - start) =~= s@.subrange(start as int, k as int));
                    assert(t.subrange(k - start + sep@.len(), t.len() as int) =~= s@.subrange(
                        k + sep@.len(),
                        s@.len() as int,
                    ));
                    assert(seq_views(out@) =~= before.push(piece@));
                    assert(split_on(t, sep@) =~= seq![s@.subrange(start as int, k as int)]
                        + split_on(s@.subrange(k + sep@.len(), s@.len() as int), sep@));
                    assert(seq_views(out@) + split_on(
                        s@.subrange(k + sep@.len(), s@.len() as int),
                        sep@,
                    ) =~= before + split_on(t, sep@));
                }
                assert(k + sep.len() <= s.len());
                start = k + sep.len();
            },
        }
    }
}

/// The character sequences of a sequence of strings.
pub open spec fn string_views(v: Seq<String>) -> Seq<Seq<char>> {
    v.map_values(|x: String| x@)
}

/// Joining a piece in front of other pieces puts the separator between it
/// and their join.
proof fn lemma_join_prepend(a: Seq<char>, rest: Seq<Seq<char>>, sep: Seq<char>)
    requires
        rest.len() > 0,
    ensures
        join_with(seq![a] + rest, sep) == a + sep + join_with(rest, sep),
    decreases rest.len(),
{
    let all = seq![a] + rest;
    assert(join_with(all, sep) == join_with(all.drop_last(), sep) + sep + all.last());
    if rest.len() == 1 {
        assert(all.drop_last() =~= seq![a]);
        assert(join_with(seq![a], sep) == a);
        assert(join_with(rest, sep) == rest[0]);
        assert(all.last() == rest[0]);
    } else {
        lemma_join_prepend(a, rest.drop_last(), sep);
        assert(all.drop_last() =~= seq![a] + rest.drop_last());
        assert(all.last() == rest.last());
        assert(join_with(rest, sep) == join_with(rest.drop_last(), sep) + sep + rest.last());
        assert(a + sep + join_with(rest.drop_last(), sep) + sep + rest.last() =~= a + sep + (join_with(
            rest.drop_last(),
            sep,
        ) + sep + rest.last()));
    }
}

/// Splitting at a separator and joining the pieces with it gives the text
/// back.
pub proof fn lemma_join_split(s: Seq<char>, sep: Seq<char>)
    requires
        sep.len() > 0,
    ensures
        join_with(split_on(s, sep), sep) == s,
    decreases s.len(),
{
    let i = find_from(s, sep, 0);
    lemma_find_from_range(s, sep, 0);
    if i >= 0 {
        let rest = s.subrange(i + sep.len(), s.len() as int);
        lemma_join_split(rest, sep);
        lemma_split_nonempty(rest, sep);
        assert(split_on(s, sep) == seq![s.subrange(0, i)] + split_on(rest, sep));
        lemma_join_prepend(s.subrange(0, i), split_on(rest, sep), sep);
        assert(s.subrange(i, i + sep.len()) == sep);
        assert(s.subrange(0, i) + sep + rest =~= s);
    }
}

/// A char that a text lacks is lacked by every piece of a split of it.
proof fn lemma_split_pieces_lack(s: Seq<char>, sep: Seq<char>, c: char)
    requires
        sep.len() > 0,
        !s.contains(c),
    ensures
        forall|k: int| 0 <= k < split_on(s, sep).len() ==> !(#[trigger] split_on(s, sep)[k]).contains(c),
    decreases s.len(),
{
    let i = find_from(s, sep, 0);
    lemma_find_from_range(s, sep, 0);
    if i >= 0 {
        let rest = s.subrange(i + sep.len(), s.len() as int);
        assert(!rest.contains(c)) by {
            if rest.contains(c) {
                let j = choose|j: int| 0 <= j < rest.len() && rest[j] == c;
                assert(s[i + sep.len() + j] == c);
            }
        }
        assert(!s.subrange(0, i).contains(c)) by {
            if s.subrange(0, i).contains(c) {
                let j = choose|j: int| 0 <= j < i && s.subrange(0, i)[j] == c;
                assert(s[j] == c);
            }
        }
        lemma_split_pieces_lack(rest, sep, c);
        let ps = split_on(s, sep);
        assert(ps == seq![s.subrange(0, i)] + split_on(rest, sep));
        assert forall|k: int| 0 <= k < ps.len() implies !(#[trigger] ps[k]).contains(c) by {
            if k > 0 {
                assert(ps[k] == split_on(rest, sep)[k - 1]);
            }
        }
    }
}

/// The last line piece of a text that does not end with a line break is not
/// empty.
proof fn lemma_split_last_piece(s: Seq<char>)
    requires
        s.len() > 0,
        s.last() != '\n',
    ensures
        split_on(s, seq!['\n']).last().len() > 0,
    decreases s.len(),
{
    let sep = seq!['\n'];
    let i = find_from(s, sep, 0);
    lemma_find_from_range(s, sep, 0);
    if i >= 0 {
        assert(s.subrange(i, i + 1)[0] == s[i]);
        let rest = s.subrange(i + 1, s.len() as int);
        assert(rest.len() > 0);
        assert(rest.last() == s.last());
        lemma_split_last_piece(rest);
        lemma_split_nonempty(rest, sep);
        assert(split_on(s, sep) == seq![s.subrange(0, i)] + split_on(rest, sep));
        assert(split_on(s, sep).last() == split_on(rest, sep).last());
    }
}

/// A text without carriage returns that does not end with a line break is
/// its lines joined by line breaks.
pub proof fn lemma_join_lines(s: Seq<char>)
    requires
        !s.contains('\r'),
        s.len() == 0 || s.last() != '\n',
    ensures
        join_with(lines_of(s), seq!['\n']) == s,
{
    if s.len() > 0 {
        let sep = seq!['\n'];
        let p = split_on(s, sep);
        lemma_split_last_piece(s);
        lemma_split_pieces_lack(s, sep, '\r');
        lemma_split_nonempty(s, sep);
        assert(p.drop_last().map_values(|l: Seq<char>| strip_cr(l)) =~= p.drop_last()) by {
            assert forall|k: int| 0 <= k < p.drop_last().len() implies strip_cr(
                #[trigger] p.drop_last()[k],
            ) == p.drop_last()[k] by {
                assert(p.drop_last()[k] == p[k]);
                assert(!p[k].contains('\r'));
                if p[k].len() > 0 {
                    assert(p[k][p[k].len() - 1] != '\r');
                }
            }
        }
        assert(lines_of(s) =~= p);
        lemma_join_split(s, sep);
    }
}

pub proof fn lemma_split_nonempty(s: Seq<char>, sep: Seq<char>)
    ensures
        split_on(s, sep).len() >= 1,
{
}

/// A copy of `v[from..to]`.
pub fn copy_range(v: &[char], from: usize, to: usize) -> (r: Vec<char>)
    requires
        from <= to <= v@.len(),
    ensures
        r@ == v@.subrange(from as int, to as int),
{
    let mut out: Vec<char> = Vec::new();
    let mut i = from;
    while i < to
        invariant
            from <= i <= to <= v@.len(),
            out@ == v@.subrange(from as int, i as int),
        decreases to - i,
    {
        out.push(v[i]);
        i = i + 1;
        proof {
            assert(v@.subrange(from as int, i as int) =~= v@.subrange(from as int, i - 1).push(
                v@[i - 1],
            ));
        }
    }
    out
}

/// `v` without a trailing carriage return.
pub fn strip_cr_exec(v: &[char]) -> (r: Vec<char>)
    ensures
        r@ == strip_cr(v@),
{
    if v.len() > 0 && v[v.len() - 1] == '\r' {
        let r = copy_range(v, 0, v.len() - 1);
        proof {
            assert(v@.subrange(0, v@.len() - 1) =~= v@.drop_last());
        }
        r
    } else {
        let r = copy_range(v, 0, v.len());
        proof {
            assert(v@.subrange(0, v@.len() as int) =~= v@);
        }
        r
    }
}

/// The lines of `s`, as std's `str::lines` yields them.
pub fn lines_exec(s: &[char]) -> (r: Vec<Vec<char>>)
    ensures
        seq_views(r@) == lines_of(s@),
{
    if s.len() == 0 {
        let r: Vec<Vec<char>> = Vec::new();
        proof {
            assert(seq_views(r@) =~= Seq::<Seq<char>>::empty());
        }
        return r;
    }
    let nl: Vec<char> = vec!['\n'];
    proof {
        assert(nl@ =~= seq!['\n']);
    }
    let pieces = split_exec(s, nl.as_slice());
    let ghost p = split_on(s@, seq!['\n']);
    proof {
        lemma_split_nonempty(s@, seq!['\n']);
    }
    let n = pieces.len() - 1;
    let mut out: Vec<Vec<char>> = Vec::new();
    let mut i: usize = 0;
    while i < n
        invariant
            n + 1 == pieces@.len(),
            seq_views(pieces@) == p,
            i <= n,
            seq_views(out@) == p.drop_last().take(i as int).map_values(|l: Seq<char>| strip_cr(l)),
        decreases n - i,
    {
        let ghost before = seq_views(out@);
        let line = strip_cr_exec(pieces[i].as_slice());
        out.push(line);
        proof {
            assert(pieces@[i as int]@ == p[i as int]);
            assert(seq_views(out@) =~= before.push(strip_cr(p[i as int])));
            assert(p.drop_last().take(i + 1).map_values(|l: Seq<char>| strip_cr(l)) =~= p.drop_last().take(
                i as int,
            ).map_values(|l: Seq<char>| strip_cr(l)).push(strip_cr(p[i as int])));
        }
        i = i + 1;
    }
    proof {
        assert(p.drop_last().take(n as int) =~= p.drop_last());
        assert(pieces@[n as int]@ == p.last());
    }
    if pieces[n].len() != 0 {
        let ghost before = seq_views(out@);
        let last = copy_range(pieces[n].as_slice(), 0, pieces[n].len());
        proof {
            assert(pieces@[n as int]@.subrange(0, pieces@[n as int]@.len() as int) =~= pieces@[n as int]@);
        }
        out.push(last);
        proof {
            assert(seq_views(out@) =~= before.push(p.last()));
        }
    }
    out
}

/// The lines of the string `s`.
pub fn lines(s: &str) -> (r: Vec<Vec<char>>)
    ensures
        seq_views(r@) == lines_of(s@),
{
    let cs = to_chars(s);
    lines_exec(cs.as_slice())
}

/// The number of lines of `s` (std's `s.lines().count()`).
pub fn count_lines(s: &str) -> (r: usize)
    ensures
        r == lines_of(s@).len(),
{
    let ls = lines(s);
    proof {
        assert(seq_views(ls@).len() == ls@.len());
    }
    ls.len()
}

/// The first line of `s`, or the empty string when `s` has no lines.
pub fn first_line(s: &str) -> (r: String)
    ensures
        r@ == first_line_of(s@),
{
    let ls = lines(s);
    if ls.len() == 0 {
        String::new()
    } else {
        proof {
            assert(seq_views(ls@)[0] == ls@[0]@);
        }
        string_from(ls[0].as_slice())
    }
}

/// Bounds of `s` without leading and trailing whitespace.
pub fn trim_bounds(s: &[char]) -> (r: (usize, usize))
    ensures
        r.0 <= r.1 <= s@.len(),
        trim_of(s@) == s@.subrange(r.0 as int, r.1 as int),
{
    let mut i: usize = 0;
    while i < s.len() && is_whitespace(s[i])
        invariant
            i <= s@.len(),
            forall|j: int| 0 <= j < i ==> char_is_whitespace(#[trigger] s@[j]),
        decreases s@.len() - i,
    {
        i = i + 1;
    }
    proof {
        lemma_trim_start_at(s@, i as int);
    }
    let ghost t = s@.subrange(i as int, s@.len() as int);
    let mut k: usize = s.len();
    while k > i && is_whitespace(s[k - 1])
        invariant
            i <= k <= s@.len(),
            forall|j: int| k <= j < s@.len() ==> char_is_whitespace(#[trigger] s@[j]),
        decreases k,
    {
        k = k - 1;
    }
    proof {
        assert forall|j: int| k - i <= j < t.len() implies char_is_whitespace(#[trigger] t[j]) by {
            assert(t[j] == s@[i + j]);
        }
        if k > i {
            assert(t[k - i - 1] == s@[k - 1]);
        }
        lemma_trim_end_at(t, k - i);
        assert(t.subrange(0, k - i) =~= s@.subrange(i as int, k as int));
    }
    (i, k)
}

/// `s` without leading and trailing whitespace.
pub fn trim_chars(s: &[char]) -> (r: Vec<char>)
    ensures
        r@ == trim_of(s@),
{
    let (i, k) = trim_bounds(s);
    copy_range(s, i, k)
}

/// The string `s` without leading and trailing whitespace.
pub fn trim(s: &str) -> (r: String)
    ensures
        r@ == trim_of(s@),
{
    let cs = to_chars(s);
    let (i, k) = trim_bounds(cs.as_slice());
    string_of(cs.as_slice(), i, k)
}

/// `s` with every `c` replaced by `by`.
pub fn replace_char_exec(s: &[char], c: char, by: &[char]) -> (r: Vec<char>)
    ensures
        r@ == replace_char(s@, c, by@),
{
    let mut out: Vec<char> = Vec::new();
    let mut i: usize = 0;
    while i < s.len()
        invariant
            i <= s@.len(),
            out@ == replace_char(s@.take(i as int), c, by@),
        decreases s@.len() - i,
    {
        proof {
            assert(s@.take(i + 1).drop_last() =~= s@.take(i as int));
        }
        if s[i] == c {
            let mut j: usize = 0;
            let ghost base = out@;
            while j < by.len()
                invariant
                    j <= by@.len(),
                    out@ == base + by@.take(j as int),
                decreases by@.len() - j,
            {
                out.push(by[j]);
                j = j + 1;
                proof {
                    assert(by@.take(j as int) =~= by@.take(j - 1).push(by@[j - 1]));
                }
            }
            proof {
                assert(by@.take(by@.len() as int) =~= by@);
            }
        } else {
            out.push(s[i]);
        }
        i = i + 1;
        proof {
            assert(out@ =~= replace_char(s@.take(i as int), c, by@));
        }
    }
    proof {
        assert(s@.take(s@.len() as int) =~= s@);
    }
    out
}

/// Number of occurrences of `c` in `s`.
pub fn count_char_exec(s: &[char], c: char) -> (r: usize)
    ensures
        r == count_char(s@, c),
{
    let mut n: usize = 0;
    let mut i: usize = 0;
    while i < s.len()
        invariant
            i <= s@.len(),
            n == count_char(s@.take(i as int), c),
            n <= i,
        decreases s@.len() - i,
    {
        proof {
            assert(s@.take(i + 1).drop_last() =~= s@.take(i as int));
        }
        if s[i] == c {
            n = n + 1;
        }
        i = i + 1;
    }
    proof {
        assert(s@.take(s@.len() as int) =~= s@);
    }
    n
}

/// The pieces joined with `sep` between consecutive pieces.
pub fn join(pieces: &Vec<String>, sep: &str) -> (r: String)
    ensures
        r@ == join_with(string_views(pieces@), sep@),
{
    let mut out = String::new();
    let mut i: usize = 0;
    while i < pieces.len()
        invariant
            i <= pieces@.len(),
            out@ == join_with(string_views(pieces@).take(i as int), sep@),
        decreases pieces@.len() - i,
    {
        let ghost before = out@;
        proof {
            assert(string_views(pieces@).take(i + 1).drop_last() =~= string_views(pieces@).take(
                i as int,
            ));
        }
        if i > 0 {
            out.append(sep);
        }
        out.append(pieces[i].as_str());
        i = i + 1;
        proof {
            if i == 1 {
                assert(before =~= Seq::<char>::empty());
            }
            assert(out@ =~= join_with(string_views(pieces@).take(i as int), sep@));
        }
    }
    proof {
        assert(string_views(pieces@).take(pieces@.len() as int) =~= string_views(pieces@));
    }
    out
}

/// ASCII lowercase of one char.
pub fn ascii_lower_exec(c: char) -> (r: char)
    ensures
        r == ascii_lower(c),
{
    if 'A' <= c && c <= 'Z' {
        let v: u32 = (c as u32) + 32;
        v as u8 as char
    } else {
        c
    }
}

/// Equality of two strings up to ASCII case.
pub fn eq_ignore_ascii_case(a: &str, b: &str) -> (r: bool)
    ensures
        r == eq_ignore_ascii_case_of(a@, b@),
{
    let x = to_chars(a);
    let y = to_chars(b);
    if x.len() != y.len() {
        return false;
    }
    let mut i: usize = 0;
    while i < x.len()
        invariant
            x@.len() == y@.len(),
            x@ == a@,
            y@ == b@,
            i <= x@.len(),
            forall|j: int| 0 <= j < i ==> ascii_lower(#[trigger] x@[j]) == ascii_lower(y@[j]),
        decreases x@.len() - i,
    {
        if ascii_lower_exec(x[i]) != ascii_lower_exec(y[i]) {
            return false;
        }
        i = i + 1;
    }
    true
}

/// The ASCII digit for `d` (below ten).
pub open spec fn digit_char(d: nat) -> char {
    ((d + 48) as u8) as char
}

/// Decimal text of a natural number, as `{}` formats an unsigned integer.
pub open spec fn decimal(n: nat) -> Seq<char>
    decreases n,
{
    if n < 10 {
        seq![digit_char(n)]
    } else {
        decimal(n / 10).push(digit_char(n % 10))
    }
}

fn decimal_chars(n: usize) -> (r: Vec<char>)
    ensures
        r@ == decimal(n as nat),
    decreases n,
{
    let d: u8 = (n % 10) as u8;
    let c: char = (d + 48) as char;
    if n < 10 {
        let mut v: Vec<char> = Vec::new();
        v.push(c);
        proof {
            assert(v@ =~= seq![digit_char(n as nat)]);
        }
        v
    } else {
        let mut v = decimal_chars(n / 10);
        v.push(c);
        v
    }
}

/// Decimal text of an unsigned integer.
pub fn decimal_string(n: usize) -> (r: String)
    ensures
        r@ == decimal(n as nat),
{
    let v = decimal_chars(n);
    string_from(v.as_slice())
}

/// `s` without any trailing `c`.
pub open spec fn trim_end_char(s: Seq<char>, c: char) -> Seq<char>
    decreases s.len(),
{
    if s.len() > 0 && s.last() == c {
        trim_end_char(s.drop_last(), c)
    } else {
        s
    }
}

proof fn lemma_trim_end_char_at(s: Seq<char>, c: char, k: int)
    requires
        0 <= k <= s.len(),
        forall|j: int| k <= j < s.len() ==> #[trigger] s[j] == c,
        k == 0 || s[k - 1] != c,
    ensures
        trim_end_char(s, c) == s.subrange(0, k),
    decreases s.len() - k,
{
    if k == s.len() {
        assert(s.subrange(0, k) =~= s);
    } else {
        let t = s.drop_last();
        assert forall|j: int| k <= j < t.len() implies #[trigger] t[j] == c by {
            assert(t[j] == s[j]);
        }
        lemma_trim_end_char_at(t, c, k);
        assert(t.subrange(0, k) =~= s.subrange(0, k));
    }
}

/// `s` without any trailing `c`.
pub fn trim_end_char_exec(s: &[char], c: char) -> (r: Vec<char>)
    ensures
        r@ == trim_end_char(s@, c),
{
    let mut k = s.len();
    while k > 0 && s[k - 1] == c
        invariant
            k <= s@.len(),
            forall|j: int| k <= j < s@.len() ==> #[trigger] s@[j] == c,
        decreases k,
    {
        k = k - 1;
    }
    proof {
        lemma_trim_end_char_at(s@, c, k as int);
    }
    copy_range(s, 0, k)
}

/// Pieces of a split are no longer than the text, and there are at most one
/// more of them than the text has characters.
pub proof fn lemma_split_bounds(s: Seq<char>, sep: Seq<char>)
    requires
        sep.len() > 0,
    ensures
        split_on(s, sep).len() <= s.len() + 1,
        forall|k: int| 0 <= k < split_on(s, sep).len() ==> (#[trigger] split_on(s, sep)[k]).len() <= s.len(),
    decreases s.len(),
{
    let i = find_from(s, sep, 0);
    lemma_find_from_range(s, sep, 0);
    if i >= 0 {
        let rest = s.subrange(i + sep.len(), s.len() as int);
        lemma_split_bounds(rest, sep);
        assert forall|k: int| 0 <= k < split_on(s, sep).len() implies (#[trigger] split_on(s, sep)[k]).len() <= s.len() by {
            if k > 0 {
                assert(split_on(s, sep)[k] == split_on(rest, sep)[k - 1]);
            }
        }
    }
}

/// Lines are no longer than the text, and there are at most one more of
/// them than the text has characters.
pub proof fn lemma_lines_bounds(s: Seq<char>)
    ensures
        lines_of(s).len() <= s.len() + 1,
        forall|k: int| 0 <= k < lines_of(s).len() ==> (#[trigger] lines_of(s)[k]).len() <= s.len(),
{
    if s.len() > 0 {
        let p = split_on(s, seq!['\n']);
        lemma_split_bounds(s, seq!['\n']);
        lemma_split_nonempty(s, seq!['\n']);
        assert forall|k: int| 0 <= k < lines_of(s).len() implies (#[trigger] lines_of(s)[k]).len() <= s.len() by {
            if k < p.len() - 1 {
                assert(lines_of(s)[k] == strip_cr(p[k]));
            } else {
                assert(lines_of(s)[k] == p[k]);
            }
        }
    }
}

proof fn lemma_trim_start_len(s: Seq<char>)
    ensures
        trim_start_of(s).len() <= s.len(),
    decreases s.len(),
{
    if s.len() > 0 && char_is_whitespace(s[0]) {
        lemma_trim_start_len(s.drop_first());
    }
}

proof fn lemma_trim_end_len(s: Seq<char>)
    ensures
        trim_end_of(s).len() <= s.len(),
    decreases s.len(),
{
    if s.len() > 0 && char_is_whitespace(s.last()) {
        lemma_trim_end_len(s.drop_last());
    }
}

/// A trimmed text does not end with whitespace.
pub proof fn lemma_trim_ends_in_text(s: Seq<char>)
    ensures
        trim_of(s).len() == 0 || !char_is_whitespace(trim_of(s).last()),
{
    lemma_trim_end_shape(trim_start_of(s));
}

proof fn lemma_trim_start_shape(s: Seq<char>)
    ensures
        trim_start_of(s).len() == 0 || !char_is_whitespace(trim_start_of(s)[0]),
    decreases s.len(),
{
    if s.len() > 0 && char_is_whitespace(s[0]) {
        lemma_trim_start_shape(s.drop_first());
    }
}

proof fn lemma_trim_end_shape(s: Seq<char>)
    ensures
        trim_end_of(s).len() <= s.len(),
        trim_end_of(s) == s.subrange(0, trim_end_of(s).len() as int),
        trim_end_of(s).len() == 0 || !char_is_whitespace(trim_end_of(s).last()),
    decreases s.len(),
{
    if s.len() > 0 && char_is_whitespace(s.last()) {
        lemma_trim_end_shape(s.drop_last());
        assert(s.drop_last().subrange(0, trim_end_of(s).len() as int) =~= s.subrange(
            0,
            trim_end_of(s).len() as int,
        ));
    } else {
        assert(s.subrange(0, s.len() as int) =~= s);
    }
}

/// Trimming twice is trimming once.
pub proof fn lemma_trim_idempotent(s: Seq<char>)
    ensures
        trim_of(trim_of(s)) == trim_of(s),
{
    let u = trim_start_of(s);
    let t = trim_end_of(u);
    lemma_trim_start_shape(s);
    lemma_trim_end_shape(u);
    if t.len() > 0 {
        assert(t[0] == u[0]);
    }
    assert(trim_start_of(t) == t);
    lemma_trim_end_shape(t);
    if t.len() > 0 {
        assert(!char_is_whitespace(t.last()));
    }
    assert(trim_end_of(t) == t);
}

/// Trimming never lengthens a text.
pub proof fn lemma_trim_len(s: Seq<char>)
    ensures
        trim_of(s).len() <= s.len(),
{
    lemma_trim_start_len(s);
    lemma_trim_end_len(trim_start_of(s));
}

/// A char occurs no more often than the text is long.
pub proof fn lemma_count_char_le(s: Seq<char>, c: char)
    ensures
        count_char(s, c) <= s.len(),
    decreases s.len(),
{
    if s.len() > 0 {
        lemma_count_char_le(s.drop_last(), c);
    }
}

/// Whether some string in `v` has exactly the characters `n`.
pub fn contains_string(v: &Vec<String>, n: &[char]) -> (r: bool)
    ensures
        r == string_views(v@).contains(n@),
{
    let mut i: usize = 0;
    while i < v.len()
        invariant
            i <= v@.len(),
            forall|j: int| 0 <= j < i ==> v@[j]@ != n@,
        decreases v@.len() - i,
    {
        let x = to_chars(v[i].as_str());
        if x.len() == n.len() && occurs_at_exec(x.as_slice(), n, 0) {
            proof {
                assert(x@.subrange(0, n@.len() as int) =~= x@);
                assert(string_views(v@)[i as int] == n@);
            }
            return true;
        }
        proof {
            assert(x@.subrange(0, x@.len() as int) =~= x@);
        }
        i = i + 1;
    }
    proof {
        if string_views(v@).contains(n@) {
            let j = choose|j: int| 0 <= j < string_views(v@).len() && string_views(v@)[j] == n@;
            assert(v@[j]@ == n@);
        }
    }
    false
}

} // verus!
