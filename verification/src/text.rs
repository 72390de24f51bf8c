//! Strings as sequences of characters.
//!
//! A `String` or `&str` is viewed as a `Seq<char>`. The functions here are the
//! text operations that the rest of the crate is written with; each is stated
//! over that view.

pub mod laws;

use vstd::prelude::*;

verus! {

/// Appends one character: the standard library's `String::push`.
pub assume_specification[ String::push ](s: &mut String, ch: char)
    ensures
        final(s)@ == old(s)@.push(ch),
;

// ---------------------------------------------------------------------------
// Character classes
// ---------------------------------------------------------------------------

pub open spec fn is_digit(c: char) -> bool {
    '0' <= c && c <= '9'
}

pub open spec fn is_upper(c: char) -> bool {
    'A' <= c && c <= 'Z'
}

pub open spec fn is_lower(c: char) -> bool {
    'a' <= c && c <= 'z'
}

/// ASCII letters and digits.
pub open spec fn is_alnum(c: char) -> bool {
    is_digit(c) || is_upper(c) || is_lower(c)
}

/// Hexadecimal digits of either case.
pub open spec fn is_hex(c: char) -> bool {
    is_digit(c) || ('a' <= c && c <= 'f') || ('A' <= c && c <= 'F')
}

/// The Unicode `White_Space` property.
pub open spec fn is_space(c: char) -> bool {
    ||| '\u{9}' <= c && c <= '\u{d}'
    ||| c == ' '
    ||| c == '\u{85}'
    ||| c == '\u{a0}'
    ||| c == '\u{1680}'
    ||| '\u{2000}' <= c && c <= '\u{200a}'
    ||| c == '\u{2028}'
    ||| c == '\u{2029}'
    ||| c == '\u{202f}'
    ||| c == '\u{205f}'
    ||| c == '\u{3000}'
}

/// The Unicode general category `Cc`.
pub open spec fn is_control(c: char) -> bool {
    c <= '\u{1f}' || ('\u{7f}' <= c && c <= '\u{9f}')
}

/// ASCII upper-case letters become lower case; everything else is kept.
pub open spec fn lower_char(c: char) -> char {
    if is_upper(c) {
        ((c as u32) + 32) as char
    } else {
        c
    }
}

pub open spec fn lower(s: Seq<char>) -> Seq<char> {
    s.map_values(|c: char| lower_char(c))
}

pub fn char_is_digit(c: char) -> (r: bool)
    ensures
        r == is_digit(c),
{
    '0' <= c && c <= '9'
}

pub fn char_is_alnum(c: char) -> (r: bool)
    ensures
        r == is_alnum(c),
{
    ('0' <= c && c <= '9') || ('A' <= c && c <= 'Z') || ('a' <= c && c <= 'z')
}

pub fn char_is_hex(c: char) -> (r: bool)
    ensures
        r == is_hex(c),
{
    ('0' <= c && c <= '9') || ('a' <= c && c <= 'f') || ('A' <= c && c <= 'F')
}

pub fn char_is_space(c: char) -> (r: bool)
    ensures
        r == is_space(c),
{
    ('\u{9}' <= c && c <= '\u{d}') || c == ' ' || c == '\u{85}' || c == '\u{a0}' || c == '\u{1680}' || (
    '\u{2000}' <= c && c <= '\u{200a}') || c == '\u{2028}' || c == '\u{2029}' || c == '\u{202f}' || c
        == '\u{205f}' || c == '\u{3000}'
}

pub fn char_is_control(c: char) -> (r: bool)
    ensures
        r == is_control(c),
{
    c <= '\u{1f}' || ('\u{7f}' <= c && c <= '\u{9f}')
}

pub fn char_to_lower(c: char) -> (r: char)
    ensures
        r == lower_char(c),
{
    if 'A' <= c && c <= 'Z' {
        let b: u8 = (c as u8) + 32;
        b as char
    } else {
        c
    }
}

// ---------------------------------------------------------------------------
// Conversion and equality
// ---------------------------------------------------------------------------

/// The characters of a string, in order.
pub fn chars_of(s: &str) -> (v: Vec<char>)
    ensures
        v@ == s@,
{
    let mut v: Vec<char> = Vec::new();
    for c in it: s.chars()
        invariant
            v@ == it.seq().take(it.index()),
            it.seq() == s@,
    {
        v.push(c);
    }
    v
}

/// The string made of the given characters.
pub fn from_chars(v: &[char]) -> (s: String)
    ensures
        s@ == v@,
{
    let mut s = String::new();
    let mut i: usize = 0;
    while i < v.len()
        invariant
            i <= v@.len(),
            s@ == v@.take(i as int),
        decreases v@.len() - i,
    {
        s.push(v[i]);
        i += 1;
    }
    s
}

/// A part of a character buffer, as a new buffer.
pub fn sub_chars(v: &[char], from: usize, to: usize) -> (r: Vec<char>)
    requires
        from <= to <= v@.len(),
    ensures
        r@ == v@.subrange(from as int, to as int),
{
    let mut r: Vec<char> = Vec::new();
    let mut i: usize = from;
    while i < to
        invariant
            from <= i <= to <= v@.len(),
            r@ == v@.subrange(from as int, i as int),
        decreases to - i,
    {
        r.push(v[i]);
        i += 1;
    }
    r
}

pub fn copy_str(s: &str) -> (r: String)
    ensures
        r@ == s@,
{
    s.to_owned()
}

/// Whether two strings hold the same characters.
pub fn str_eq(a: &str, b: &str) -> (r: bool)
    ensures
        r == (a@ == b@),
{
    let x = a.to_owned();
    let y = b.to_owned();
    x == y
}

// ---------------------------------------------------------------------------
// Concatenation
// ---------------------------------------------------------------------------

pub fn concat2(a: &str, b: &str) -> (r: String)
    ensures
        r@ == a@ + b@,
{
    let mut s = a.to_owned();
    s.append(b);
    s
}

pub fn concat3(a: &str, b: &str, c: &str) -> (r: String)
    ensures
        r@ == a@ + b@ + c@,
{
    let mut s = a.to_owned();
    s.append(b);
    s.append(c);
    s
}

pub fn concat4(a: &str, b: &str, c: &str, d: &str) -> (r: String)
    ensures
        r@ == a@ + b@ + c@ + d@,
{
    let mut s = a.to_owned();
    s.append(b);
    s.append(c);
    s.append(d);
    s
}

pub fn concat5(a: &str, b: &str, c: &str, d: &str, e: &str) -> (r: String)
    ensures
        r@ == a@ + b@ + c@ + d@ + e@,
{
    let mut s = a.to_owned();
    s.append(b);
    s.append(c);
    s.append(d);
    s.append(e);
    s
}

pub fn concat6(a: &str, b: &str, c: &str, d: &str, e: &str, f: &str) -> (r: String)
    ensures
        r@ == a@ + b@ + c@ + d@ + e@ + f@,
{
    let mut s = a.to_owned();
    s.append(b);
    s.append(c);
    s.append(d);
    s.append(e);
    s.append(f);
    s
}

pub fn concat7(a: &str, b: &str, c: &str, d: &str, e: &str, f: &str, g: &str) -> (r: String)
    ensures
        r@ == a@ + b@ + c@ + d@ + e@ + f@ + g@,
{
    let mut s = a.to_owned();
    s.append(b);
    s.append(c);
    s.append(d);
    s.append(e);
    s.append(f);
    s.append(g);
    s
}

pub fn concat8(a: &str, b: &str, c: &str, d: &str, e: &str, f: &str, g: &str, h: &str) -> (r: String)
    ensures
        r@ == a@ + b@ + c@ + d@ + e@ + f@ + g@ + h@,
{
    let mut s = a.to_owned();
    s.append(b);
    s.append(c);
    s.append(d);
    s.append(e);
    s.append(f);
    s.append(g);
    s.append(h);
    s
}

pub fn concat9(a: &str, b: &str, c: &str, d: &str, e: &str, f: &str, g: &str, h: &str, i: &str) -> (r: String)
    ensures
        r@ == a@ + b@ + c@ + d@ + e@ + f@ + g@ + h@ + i@,
{
    let mut s = a.to_owned();
    s.append(b);
    s.append(c);
    s.append(d);
    s.append(e);
    s.append(f);
    s.append(g);
    s.append(h);
    s.append(i);
    s
}

// ---------------------------------------------------------------------------
// Searching
// ---------------------------------------------------------------------------

/// Index of the first `c`, or the length where there is none.
pub open spec fn first_index(s: Seq<char>, c: char) -> int
    decreases s.len(),
{
    if s.len() == 0 || s[0] == c {
        0
    } else {
        1 + first_index(s.skip(1), c)
    }
}

/// Index of the last `c`, or -1 where there is none.
pub open spec fn last_index(s: Seq<char>, c: char) -> int
    decreases s.len(),
{
    if s.len() == 0 {
        -1
    } else if s.last() == c {
        s.len() - 1
    } else {
        last_index(s.drop_last(), c)
    }
}

pub proof fn lemma_first_index(s: Seq<char>, c: char)
    ensures
        0 <= first_index(s, c) <= s.len(),
        forall|i: int| 0 <= i < first_index(s, c) ==> s[i] != c,
        first_index(s, c) < s.len() ==> s[first_index(s, c)] == c,
    decreases s.len(),
{
    if s.len() > 0 && s[0] != c {
        lemma_first_index(s.skip(1), c);
        assert forall|i: int| 0 <= i < first_index(s, c) implies s[i] != c by {
            if i > 0 {
                assert(s[i] == s.skip(1)[i - 1]);
            }
        }
    }
}

/// A position before which `c` is absent and at which it stands, or which is the end, is the
/// first index.
pub proof fn lemma_first_index_is(s: Seq<char>, c: char, k: int)
    requires
        0 <= k <= s.len(),
        forall|i: int| 0 <= i < k ==> s[i] != c,
        k < s.len() ==> s[k] == c,
    ensures
        first_index(s, c) == k,
{
    lemma_first_index(s, c);
    if first_index(s, c) < k {
    } else if first_index(s, c) > k {
        assert(s[k] != c);
    }
}

pub proof fn lemma_last_index(s: Seq<char>, c: char)
    ensures
        -1 <= last_index(s, c) < s.len(),
        forall|i: int| last_index(s, c) < i < s.len() ==> s[i] != c,
        last_index(s, c) >= 0 ==> s[last_index(s, c)] == c,
    decreases s.len(),
{
    if s.len() > 0 && s.last() != c {
        lemma_last_index(s.drop_last(), c);
        assert forall|i: int| last_index(s, c) < i < s.len() implies s[i] != c by {
            if i < s.len() - 1 {
                assert(s[i] == s.drop_last()[i]);
            }
        }
    }
}

pub proof fn lemma_last_index_is(s: Seq<char>, c: char, k: int)
    requires
        -1 <= k < s.len(),
        forall|i: int| k < i < s.len() ==> s[i] != c,
        k >= 0 ==> s[k] == c,
    ensures
        last_index(s, c) == k,
{
    lemma_last_index(s, c);
    if last_index(s, c) < k {
        assert(s[k] != c);
    } else if last_index(s, c) > k {
        assert(s[last_index(s, c)] != c);
    }
}

pub fn find_first(v: &[char], c: char) -> (r: usize)
    ensures
        r == first_index(v@, c),
        r <= v@.len(),
{
    let mut i: usize = 0;
    while i < v.len()
        invariant
            i <= v@.len(),
            forall|k: int| 0 <= k < i ==> v@[k] != c,
        decreases v@.len() - i,
    {
        if v[i] == c {
            proof {
                lemma_first_index_is(v@, c, i as int);
            }
            return i;
        }
        i += 1;
    }
    proof {
        lemma_first_index_is(v@, c, i as int);
    }
    i
}

/// Index of the last `c`, if there is one.
pub fn find_last(v: &[char], c: char) -> (r: Option<usize>)
    ensures
        match r {
            Some(i) => i == last_index(v@, c) && i < v@.len(),
            None => last_index(v@, c) == -1,
        },
{
    let mut i: usize = v.len();
    while i > 0
        invariant
            i <= v@.len(),
            forall|k: int| i <= k < v@.len() ==> v@[k] != c,
        decreases i,
    {
        if v[i - 1] == c {
            proof {
                lemma_last_index_is(v@, c, i - 1);
            }
            return Some(i - 1);
        }
        i -= 1;
    }
    proof {
        lemma_last_index_is(v@, c, -1);
    }
    None
}

/// `p` stands in `s` at position `i`.
pub open spec fn occurs_at(s: Seq<char>, p: Seq<char>, i: int) -> bool {
    0 <= i && i + p.len() <= s.len() && s.subrange(i, i + p.len()) == p
}

/// `p` occurs somewhere in `s`.
pub open spec fn has_sub(s: Seq<char>, p: Seq<char>) -> bool {
    exists|i: int| occurs_at(s, p, i)
}

pub open spec fn has_prefix(s: Seq<char>, p: Seq<char>) -> bool {
    occurs_at(s, p, 0)
}

pub open spec fn has_suffix(s: Seq<char>, p: Seq<char>) -> bool {
    occurs_at(s, p, s.len() - p.len())
}

pub fn chars_at(v: &[char], p: &[char], i: usize) -> (r: bool)
    ensures
        r == occurs_at(v@, p@, i as int),
{
    if i > v.len() || p.len() > v.len() - i {
        return false;
    }
    let n: usize = v.len();
    let mut k: usize = 0;
    while k < p.len()
        invariant
            n == v@.len(),
            i + p@.len() <= v@.len(),
            k <= p@.len(),
            forall|j: int| 0 <= j < k ==> v@[i + j] == p@[j],
        decreases p@.len() - k,
    {
        if v[i + k] != p[k] {
            assert(v@.subrange(i as int, i + p@.len())[k as int] != p@[k as int]);
            return false;
        }
        k += 1;
    }
    assert(v@.subrange(i as int, i + p@.len()) =~= p@);
    true
}

pub fn chars_contain(v: &[char], p: &[char]) -> (r: bool)
    ensures
        r == has_sub(v@, p@),
{
    let mut i: usize = 0;
    while i < v.len()
        invariant
            i <= v@.len(),
            forall|k: int| 0 <= k < i ==> !occurs_at(v@, p@, k),
        decreases v@.len() - i,
    {
        if chars_at(v, p, i) {
            return true;
        }
        i += 1;
    }
    chars_at(v, p, i)
}

pub fn str_contains(s: &str, p: &str) -> (r: bool)
    ensures
        r == has_sub(s@, p@),
{
    let v = chars_of(s);
    let q = chars_of(p);
    chars_contain(&v, &q)
}

pub fn str_starts_with(s: &str, p: &str) -> (r: bool)
    ensures
        r == has_prefix(s@, p@),
{
    let v = chars_of(s);
    let q = chars_of(p);
    chars_at(&v, &q, 0)
}

pub fn str_ends_with(s: &str, p: &str) -> (r: bool)
    ensures
        r == has_suffix(s@, p@),
{
    let v = chars_of(s);
    let q = chars_of(p);
    if q.len() > v.len() {
        return false;
    }
    chars_at(&v, &q, v.len() - q.len())
}

pub fn contains_char(v: &[char], c: char) -> (r: bool)
    ensures
        r == v@.contains(c),
{
    let i = find_first(v, c);
    proof {
        lemma_first_index(v@, c);
    }
    i < v.len()
}

// ---------------------------------------------------------------------------
// Trimming and case
// ---------------------------------------------------------------------------

pub open spec fn trim_start(s: Seq<char>) -> Seq<char>
    decreases s.len(),
{
    if s.len() > 0 && is_space(s[0]) {
        trim_start(s.skip(1))
    } else {
        s
    }
}

pub open spec fn trim_end(s: Seq<char>) -> Seq<char>
    decreases s.len(),
{
    if s.len() > 0 && is_space(s.last()) {
        trim_end(s.drop_last())
    } else {
        s
    }
}

/// `s` without the white space at both of its ends.
pub open spec fn trim(s: Seq<char>) -> Seq<char> {
    trim_end(trim_start(s))
}

proof fn lemma_trim_start_is(s: Seq<char>, k: int)
    requires
        0 <= k <= s.len(),
        forall|i: int| 0 <= i < k ==> is_space(s[i]),
        k < s.len() ==> !is_space(s[k]),
    ensures
        trim_start(s) == s.skip(k),
    decreases k,
{
    if k > 0 {
        assert(s.skip(1).skip(k - 1) =~= s.skip(k));
        assert forall|i: int| 0 <= i < k - 1 implies is_space(s.skip(1)[i]) by {
            assert(s.skip(1)[i] == s[i + 1]);
        }
        if k < s.len() {
            assert(s.skip(1)[k - 1] == s[k]);
        }
        assert(is_space(s[0]));
        lemma_trim_start_is(s.skip(1), k - 1);
    } else {
        assert(s.skip(0) =~= s);
    }
}

proof fn lemma_trim_end_is(s: Seq<char>, k: int)
    requires
        0 <= k <= s.len(),
        forall|i: int| k <= i < s.len() ==> is_space(s[i]),
        k > 0 ==> !is_space(s[k - 1]),
    ensures
        trim_end(s) == s.take(k),
    decreases s.len() - k,
{
    if k < s.len() {
        assert(is_space(s[s.len() - 1]));
        assert(s.drop_last().take(k) =~= s.take(k));
        lemma_trim_end_is(s.drop_last(), k);
    } else {
        assert(s.take(k) =~= s);
    }
}

pub fn chars_trim_start(v: &[char]) -> (r: Vec<char>)
    ensures
        r@ == trim_start(v@),
{
    let mut i: usize = 0;
    while i < v.len() && char_is_space(v[i])
        invariant
            i <= v@.len(),
            forall|k: int| 0 <= k < i ==> is_space(v@[k]),
        decreases v@.len() - i,
    {
        i += 1;
    }
    proof {
        lemma_trim_start_is(v@, i as int);
        assert(v@.skip(i as int) =~= v@.subrange(i as int, v@.len() as int));
    }
    sub_chars(v, i, v.len())
}

pub fn chars_trim_end(v: &[char]) -> (r: Vec<char>)
    ensures
        r@ == trim_end(v@),
{
    let mut i: usize = v.len();
    while i > 0 && char_is_space(v[i - 1])
        invariant
            i <= v@.len(),
            forall|k: int| i <= k < v@.len() ==> is_space(v@[k]),
        decreases i,
    {
        i -= 1;
    }
    proof {
        lemma_trim_end_is(v@, i as int);
        assert(v@.take(i as int) =~= v@.subrange(0, i as int));
    }
    sub_chars(v, 0, i)
}

pub fn chars_trim(v: &[char]) -> (r: Vec<char>)
    ensures
        r@ == trim(v@),
{
    let s = chars_trim_start(v);
    chars_trim_end(&s)
}

pub fn str_trim(s: &str) -> (r: String)
    ensures
        r@ == trim(s@),
{
    let v = chars_of(s);
    let t = chars_trim(&v);
    from_chars(&t)
}

pub fn str_trim_end(s: &str) -> (r: String)
    ensures
        r@ == trim_end(s@),
{
    let v = chars_of(s);
    let t = chars_trim_end(&v);
    from_chars(&t)
}

/// Nothing but white space.
pub open spec fn is_blank(s: Seq<char>) -> bool {
    forall|i: int| 0 <= i < s.len() ==> is_space(#[trigger] s[i])
}

pub proof fn lemma_trim_blank(s: Seq<char>)
    ensures
        (trim(s).len() == 0) == is_blank(s),
    decreases s.len(),
{
    if is_blank(s) {
        lemma_trim_start_is(s, s.len() as int);
        assert(trim_start(s).len() == 0);
    } else {
        let k = choose|k: int| 0 <= k < s.len() && !is_space(#[trigger] s[k]);
        lemma_trim_keeps(s, k);
    }
}

proof fn lemma_trim_keeps(s: Seq<char>, k: int)
    requires
        0 <= k < s.len(),
        !is_space(s[k]),
    ensures
        trim(s).len() > 0,
{
    lemma_trim_start_keeps(s, k);
    let t = trim_start(s);
    let j = choose|j: int| 0 <= j < t.len() && !is_space(#[trigger] t[j]);
    lemma_trim_end_keeps(t, j);
}

proof fn lemma_trim_start_keeps(s: Seq<char>, k: int)
    requires
        0 <= k < s.len(),
        !is_space(s[k]),
    ensures
        exists|j: int| 0 <= j < trim_start(s).len() && !is_space(#[trigger] trim_start(s)[j]),
    decreases s.len(),
{
    if is_space(s[0]) {
        assert(s.skip(1)[k - 1] == s[k]);
        lemma_trim_start_keeps(s.skip(1), k - 1);
        let t = trim_start(s.skip(1));
        let j = choose|j: int| 0 <= j < t.len() && !is_space(#[trigger] t[j]);
        assert(!is_space(trim_start(s)[j]));
    } else {
        assert(trim_start(s) == s);
        assert(!is_space(trim_start(s)[0]));
    }
}

proof fn lemma_trim_end_keeps(s: Seq<char>, k: int)
    requires
        0 <= k < s.len(),
        !is_space(s[k]),
    ensures
        trim_end(s).len() > 0,
    decreases s.len(),
{
    if is_space(s.last()) {
        assert(s.drop_last()[k] == s[k]);
        lemma_trim_end_keeps(s.drop_last(), k);
    }
}

/// Whether trimming leaves nothing.
pub fn str_is_blank(s: &str) -> (r: bool)
    ensures
        r == is_blank(s@),
        r == (trim(s@).len() == 0),
{
    let t = str_trim(s);
    proof {
        lemma_trim_blank(s@);
    }
    t.as_str().is_empty()
}

pub fn chars_lower(v: &[char]) -> (r: Vec<char>)
    ensures
        r@ == lower(v@),
{
    let mut r: Vec<char> = Vec::new();
    let mut i: usize = 0;
    while i < v.len()
        invariant
            i <= v@.len(),
            r@ == lower(v@.take(i as int)),
        decreases v@.len() - i,
    {
        r.push(char_to_lower(v[i]));
        i += 1;
        assert(lower(v@.take(i as int)) =~= lower(v@.take(i - 1)).push(lower_char(v@[i - 1])));
    }
    assert(v@.take(i as int) =~= v@);
    r
}

pub fn str_lower(s: &str) -> (r: String)
    ensures
        r@ == lower(s@),
{
    let v = chars_of(s);
    let l = chars_lower(&v);
    from_chars(&l)
}

/// Equality up to the case of ASCII letters.
pub fn str_eq_ignore_case(a: &str, b: &str) -> (r: bool)
    ensures
        r == (lower(a@) == lower(b@)),
{
    let x = str_lower(a);
    let y = str_lower(b);
    str_eq(&x, &y)
}

// ---------------------------------------------------------------------------
// Splitting and joining
// ---------------------------------------------------------------------------

/// The parts of `s` between the occurrences of `c`; always at least one part.
pub open spec fn split_on(s: Seq<char>, c: char) -> Seq<Seq<char>>
    decreases s.len(),
{
    let i = first_index(s, c);
    if 0 <= i < s.len() {
        seq![s.take(i)] + split_on(s.skip(i + 1), c)
    } else {
        seq![s]
    }
}

/// `parts` with `sep` between neighbours.
pub open spec fn join(parts: Seq<Seq<char>>, sep: Seq<char>) -> Seq<char>
    decreases parts.len(),
{
    if parts.len() == 0 {
        Seq::empty()
    } else if parts.len() == 1 {
        parts[0]
    } else {
        join(parts.drop_last(), sep) + sep + parts.last()
    }
}

/// A line without the carriage return at its end, if it has one.
pub open spec fn strip_cr(s: Seq<char>) -> Seq<char> {
    if s.len() > 0 && s.last() == '\r' {
        s.drop_last()
    } else {
        s
    }
}

/// The lines of `s`: a line ends at a line feed, before which one carriage return is dropped;
/// nothing after the last line feed is no line.
pub open spec fn lines(s: Seq<char>) -> Seq<Seq<char>>
    decreases s.len(),
{
    let i = first_index(s, '\n');
    if s.len() == 0 {
        Seq::empty()
    } else if 0 <= i < s.len() {
        seq![strip_cr(s.take(i))] + lines(s.skip(i + 1))
    } else {
        seq![s]
    }
}

/// The views of a sequence of strings.
pub open spec fn views(v: Seq<String>) -> Seq<Seq<char>> {
    v.map_values(|s: String| s@)
}

/// The views of a sequence of character buffers.
pub open spec fn buf_views(v: Seq<Vec<char>>) -> Seq<Seq<char>> {
    v.map_values(|s: Vec<char>| s@)
}

pub fn chars_split(v: &[char], c: char) -> (r: Vec<Vec<char>>)
    ensures
        buf_views(r@) == split_on(v@, c),
        r@.len() == split_on(v@, c).len(),
        r@.len() > 0,
        forall|i: int| 0 <= i < r@.len() ==> (#[trigger] r@[i])@ == split_on(v@, c)[i],
{
    let mut r: Vec<Vec<char>> = Vec::new();
    let mut start: usize = 0;
    let mut i: usize = 0;
    let ghost whole = split_on(v@, c);
    assert(v@.skip(0) =~= v@);
    while i < v.len()
        invariant
            start <= i <= v@.len(),
            whole == split_on(v@, c),
            forall|k: int| start <= k < i ==> v@[k] != c,
            whole == buf_views(r@) + split_on(v@.skip(start as int), c),
        decreases v@.len() - i,
    {
        if v[i] == c {
            let part = sub_chars(v, start, i);
            proof {
                let rest = v@.skip(start as int);
                assert forall|k: int| 0 <= k < i - start implies rest[k] != c by {
                    assert(rest[k] == v@[start + k]);
                }
                lemma_first_index_is(rest, c, i - start);
                assert(rest.take(i - start) =~= part@);
                assert(rest.skip(i - start + 1) =~= v@.skip(i + 1));
                assert(buf_views(r@.push(part)) =~= buf_views(r@).push(part@));
                assert(buf_views(r@) + (seq![part@] + split_on(v@.skip(i + 1), c)) =~= buf_views(
                    r@,
                ).push(part@) + split_on(v@.skip(i + 1), c));
            }
            r.push(part);
            start = i + 1;
        }
        i += 1;
    }
    let part = sub_chars(v, start, v.len());
    proof {
        let rest = v@.skip(start as int);
        assert forall|k: int| 0 <= k < rest.len() implies rest[k] != c by {
            assert(rest[k] == v@[start + k]);
        }
        lemma_first_index_is(rest, c, rest.len() as int);
        assert(rest =~= part@);
        assert(buf_views(r@.push(part)) =~= buf_views(r@).push(part@));
        assert(buf_views(r@) + seq![part@] =~= buf_views(r@).push(part@));
    }
    r.push(part);
    assert forall|i: int| 0 <= i < r@.len() implies (#[trigger] r@[i])@ == split_on(v@, c)[i] by {
        assert(buf_views(r@)[i] == r@[i]@);
    }
    r
}

pub fn chars_lines(v: &[char]) -> (r: Vec<Vec<char>>)
    ensures
        buf_views(r@) == lines(v@),
        r@.len() == lines(v@).len(),
        forall|i: int| 0 <= i < r@.len() ==> (#[trigger] r@[i])@ == lines(v@)[i],
{
    let mut r: Vec<Vec<char>> = Vec::new();
    let mut start: usize = 0;
    let mut i: usize = 0;
    assert(v@.skip(0) =~= v@);
    assert(buf_views(r@) + lines(v@) =~= lines(v@));
    while i < v.len()
        invariant
            start <= i <= v@.len(),
            forall|k: int| start <= k < i ==> v@[k] != '\n',
            lines(v@) == buf_views(r@) + lines(v@.skip(start as int)),
        decreases v@.len() - i,
    {
        if v[i] == '\n' {
            let end: usize = if i > start && v[i - 1] == '\r' {
                i - 1
            } else {
                i
            };
            let part = sub_chars(v, start, end);
            proof {
                let rest = v@.skip(start as int);
                assert forall|k: int| 0 <= k < i - start implies rest[k] != '\n' by {
                    assert(rest[k] == v@[start + k]);
                }
                lemma_first_index_is(rest, '\n', i - start);
                assert(strip_cr(rest.take(i - start)) =~= part@);
                assert(rest.skip(i - start + 1) =~= v@.skip(i + 1));
                assert(buf_views(r@.push(part)) =~= buf_views(r@).push(part@));
                assert(buf_views(r@) + (seq![part@] + lines(v@.skip(i + 1))) =~= buf_views(r@).push(
                    part@,
                ) + lines(v@.skip(i + 1)));
            }
            r.push(part);
            start = i + 1;
        }
        i += 1;
    }
    if start < v.len() {
        let part = sub_chars(v, start, v.len());
        proof {
            let rest = v@.skip(start as int);
            assert forall|k: int| 0 <= k < rest.len() implies rest[k] != '\n' by {
                assert(rest[k] == v@[start + k]);
            }
            lemma_first_index_is(rest, '\n', rest.len() as int);
            assert(rest =~= part@);
            assert(buf_views(r@.push(part)) =~= buf_views(r@).push(part@));
            assert(buf_views(r@) + seq![part@] =~= buf_views(r@).push(part@));
        }
        r.push(part);
    } else {
        assert(v@.skip(start as int).len() == 0);
        assert(buf_views(r@) + Seq::<Seq<char>>::empty() =~= buf_views(r@));
    }
    assert forall|i: int| 0 <= i < r@.len() implies (#[trigger] r@[i])@ == lines(v@)[i] by {
        assert(buf_views(r@)[i] == r@[i]@);
    }
    r
}

pub fn str_lines(s: &str) -> (r: Vec<String>)
    ensures
        views(r@) == lines(s@),
{
    let v = chars_of(s);
    let parts = chars_lines(&v);
    bufs_to_strings(&parts)
}

pub fn str_split(s: &str, c: char) -> (r: Vec<String>)
    ensures
        views(r@) == split_on(s@, c),
        r@.len() > 0,
{
    let v = chars_of(s);
    let parts = chars_split(&v, c);
    bufs_to_strings(&parts)
}

pub fn bufs_to_strings(parts: &Vec<Vec<char>>) -> (r: Vec<String>)
    ensures
        views(r@) == buf_views(parts@),
        r@.len() == parts@.len(),
{
    let mut r: Vec<String> = Vec::new();
    let mut i: usize = 0;
    while i < parts.len()
        invariant
            i <= parts@.len(),
            r@.len() == i,
            forall|k: int| 0 <= k < i ==> (#[trigger] r@[k])@ == parts@[k]@,
        decreases parts@.len() - i,
    {
        r.push(from_chars(&parts[i]));
        i += 1;
    }
    assert(views(r@) =~= buf_views(parts@));
    r
}

pub proof fn lemma_join_push(parts: Seq<Seq<char>>, sep: Seq<char>, p: Seq<char>)
    ensures
        join(parts.push(p), sep) == if parts.len() == 0 {
            p
        } else {
            join(parts, sep) + sep + p
        },
{
    assert(parts.push(p).drop_last() =~= parts);
}

pub fn join_strings(parts: &Vec<String>, sep: &str) -> (r: String)
    ensures
        r@ == join(views(parts@), sep@),
{
    let mut s = String::new();
    let mut i: usize = 0;
    while i < parts.len()
        invariant
            i <= parts@.len(),
            s@ == join(views(parts@).take(i as int), sep@),
        decreases parts@.len() - i,
    {
        proof {
            lemma_join_push(views(parts@).take(i as int), sep@, parts@[i as int]@);
            assert(views(parts@).take(i as int).push(parts@[i as int]@) =~= views(parts@).take(
                i + 1,
            ));
        }
        if i > 0 {
            s.append(sep);
        } else {
            assert(views(parts@).take(0).len() == 0);
            assert(s@ + parts@[0]@ =~= parts@[0]@);
        }
        s.append(parts[i].as_str());
        i += 1;
    }
    assert(views(parts@).take(i as int) =~= views(parts@));
    s
}

// ---------------------------------------------------------------------------
// Numbers
// ---------------------------------------------------------------------------

pub open spec fn digit_value(c: char) -> nat {
    (c as u32 - '0' as u32) as nat
}

pub open spec fn all_digits(s: Seq<char>) -> bool {
    forall|i: int| 0 <= i < s.len() ==> is_digit(#[trigger] s[i])
}

/// The number that a sequence of decimal digits denotes.
pub open spec fn digits_value(s: Seq<char>) -> nat
    decreases s.len(),
{
    if s.len() == 0 {
        0
    } else {
        10 * digits_value(s.drop_last()) + digit_value(s.last())
    }
}

/// What parsing an unsigned number that must not exceed `max` gives: one or more decimal digits,
/// with at most one `+` before them.
pub open spec fn parse_number(s: Seq<char>, max: nat) -> Option<nat> {
    let digits = if s.len() > 1 && s[0] == '+' {
        s.skip(1)
    } else {
        s
    };
    if digits.len() > 0 && all_digits(digits) && digits_value(digits) <= max {
        Some(digits_value(digits))
    } else {
        None
    }
}

proof fn lemma_digits_value_grows(s: Seq<char>, k: int)
    requires
        0 <= k <= s.len(),
    ensures
        digits_value(s.take(k)) <= digits_value(s),
    decreases s.len() - k,
{
    if k < s.len() {
        assert(s.drop_last().take(k) =~= s.take(k));
        lemma_digits_value_grows(s.drop_last(), k);
    } else {
        assert(s.take(k) =~= s);
    }
}

pub fn parse_digits(v: &[char], max: u64) -> (r: Option<u64>)
    ensures
        match r {
            Some(n) => parse_number(v@, max as nat) == Some(n as nat),
            None => parse_number(v@, max as nat) is None,
        },
{
    let start: usize = if v.len() > 1 && v[0] == '+' {
        1
    } else {
        0
    };
    let ghost digits = v@.skip(start as int);
    assert(start == 0 ==> digits =~= v@);
    if start == v.len() {
        return None;
    }
    let mut acc: u64 = 0;
    let mut i: usize = start;
    while i < v.len()
        invariant
            start <= i <= v@.len(),
            start < v@.len(),
            digits == v@.skip(start as int),
            digits == if v@.len() > 1 && v@[0] == '+' {
                v@.skip(1)
            } else {
                v@
            },
            forall|k: int| start <= k < i ==> is_digit(v@[k]),
            acc == digits_value(digits.take(i - start)),
            acc <= max,
        decreases v@.len() - i,
    {
        let c = v[i];
        assert(digits[i - start] == c);
        if !char_is_digit(c) {
            return None;
        }
        let d: u64 = (c as u64) - ('0' as u64);
        proof {
            let next = digits.take(i - start + 1);
            assert(next.drop_last() =~= digits.take(i - start));
            assert(next.last() == c);
            lemma_digits_value_grows(digits, i - start + 1);
            assert(digits_value(next) == 10 * acc + d);
        }
        if d > max || acc > (max - d) / 10 {
            return None;
        }
        acc = acc * 10 + d;
        i += 1;
    }
    assert(digits.take(i - start) =~= digits);
    assert forall|k: int| 0 <= k < digits.len() implies is_digit(#[trigger] digits[k]) by {
        assert(digits[k] == v@[start + k]);
    }
    Some(acc)
}

pub open spec fn digit_char(d: nat) -> char {
    ('0' as u32 + d) as char
}

/// The decimal representation of a number.
pub open spec fn decimal(n: nat) -> Seq<char>
    decreases n,
{
    if n < 10 {
        seq![digit_char(n)]
    } else {
        decimal(n / 10).push(digit_char(n % 10))
    }
}

pub fn u64_to_string(n: u64) -> (r: String)
    ensures
        r@ == decimal(n as nat),
    decreases n,
{
    let d: u8 = 48 + (n % 10) as u8;
    if n < 10 {
        let mut s = String::new();
        s.push(d as char);
        assert(s@ =~= decimal(n as nat));
        s
    } else {
        let mut s = u64_to_string(n / 10);
        s.push(d as char);
        s
    }
}

pub fn usize_to_string(n: usize) -> (r: String)
    ensures
        r@ == decimal(n as nat),
{
    u64_to_string(n as u64)
}

pub proof fn lemma_decimal_digits(n: nat)
    ensures
        decimal(n).len() > 0,
        all_digits(decimal(n)),
        digits_value(decimal(n)) == n,
    decreases n,
{
    let s = decimal(n);
    if n >= 10 {
        lemma_decimal_digits(n / 10);
        assert(s.drop_last() =~= decimal(n / 10));
    } else {
        assert(s.drop_last() =~= Seq::<char>::empty());
        assert(digits_value(s.drop_last()) == 0);
    }
}

/// Parsing reads back what was written.
pub proof fn law_parse_decimal(n: nat, max: nat)
    requires
        n <= max,
    ensures
        parse_number(decimal(n), max) == Some(n),
{
    lemma_decimal_digits(n);
    assert(is_digit(decimal(n)[0]));
}

// ---------------------------------------------------------------------------
// Order
// ---------------------------------------------------------------------------

/// Lexicographic order by code point, which is also the byte order of the UTF-8 encodings.
pub open spec fn lex_lt(a: Seq<char>, b: Seq<char>) -> bool
    decreases a.len(),
{
    if b.len() == 0 {
        false
    } else if a.len() == 0 {
        true
    } else {
        a[0] < b[0] || (a[0] == b[0] && lex_lt(a.skip(1), b.skip(1)))
    }
}

pub proof fn lemma_lex_irreflexive(a: Seq<char>)
    ensures
        !lex_lt(a, a),
    decreases a.len(),
{
    if a.len() > 0 {
        lemma_lex_irreflexive(a.skip(1));
    }
}

pub proof fn lemma_lex_transitive(a: Seq<char>, b: Seq<char>, c: Seq<char>)
    requires
        lex_lt(a, b),
        lex_lt(b, c),
    ensures
        lex_lt(a, c),
    decreases a.len(),
{
    if a.len() > 0 && a[0] == b[0] && b[0] == c[0] {
        lemma_lex_transitive(a.skip(1), b.skip(1), c.skip(1));
    }
}

pub proof fn lemma_lex_total(a: Seq<char>, b: Seq<char>)
    ensures
        a == b || lex_lt(a, b) || lex_lt(b, a),
    decreases a.len(),
{
    if a.len() == 0 && b.len() == 0 {
        assert(a =~= b);
    } else if a.len() > 0 && b.len() > 0 && a[0] == b[0] {
        lemma_lex_total(a.skip(1), b.skip(1));
        if a.skip(1) == b.skip(1) {
            assert forall|i: int| 0 <= i < a.len() implies a[i] == b[i] by {
                if i > 0 {
                    assert(a[i] == a.skip(1)[i - 1]);
                    assert(b[i] == b.skip(1)[i - 1]);
                }
            }
            assert(a.len() == a.skip(1).len() + 1);
            assert(b.len() == b.skip(1).len() + 1);
            assert(a =~= b);
        }
    }
}

/// Strings equal up to `k` are ordered as what follows.
proof fn lemma_lex_skip(a: Seq<char>, b: Seq<char>, k: int)
    requires
        0 <= k <= a.len(),
        k <= b.len(),
        forall|i: int| 0 <= i < k ==> a[i] == b[i],
    ensures
        lex_lt(a, b) == lex_lt(a.skip(k), b.skip(k)),
    decreases k,
{
    if k == 0 {
        assert(a.skip(0) =~= a);
        assert(b.skip(0) =~= b);
    } else {
        assert forall|i: int| 0 <= i < k - 1 implies a.skip(1)[i] == b.skip(1)[i] by {
            assert(a.skip(1)[i] == a[i + 1]);
            assert(b.skip(1)[i] == b[i + 1]);
        }
        lemma_lex_skip(a.skip(1), b.skip(1), k - 1);
        assert(a.skip(1).skip(k - 1) =~= a.skip(k));
        assert(b.skip(1).skip(k - 1) =~= b.skip(k));
    }
}

pub fn str_lt(a: &str, b: &str) -> (r: bool)
    ensures
        r == lex_lt(a@, b@),
{
    let x = chars_of(a);
    let y = chars_of(b);
    let mut i: usize = 0;
    while i < x.len() && i < y.len()
        invariant
            i <= x@.len(),
            i <= y@.len(),
            x@ == a@,
            y@ == b@,
            forall|k: int| 0 <= k < i ==> x@[k] == y@[k],
        decreases x@.len() - i,
    {
        proof {
            lemma_lex_skip(x@, y@, i as int);
        }
        if x[i] < y[i] {
            return true;
        }
        if y[i] < x[i] {
            return false;
        }
        i += 1;
    }
    proof {
        lemma_lex_skip(x@, y@, i as int);
    }
    i < y.len()
}

// ---------------------------------------------------------------------------
// Lists of strings
// ---------------------------------------------------------------------------

/// In strictly increasing order, hence without repetition.
pub open spec fn ascending(s: Seq<Seq<char>>) -> bool {
    forall|i: int, j: int| 0 <= i < j < s.len() ==> lex_lt(#[trigger] s[i], #[trigger] s[j])
}

/// `r` lists what occurs in `s`, in ascending order: what a sorted set of the elements holds.
pub open spec fn sorted_set_of(r: Seq<Seq<char>>, s: Seq<Seq<char>>) -> bool {
    &&& ascending(r)
    &&& forall|x: Seq<char>| #[trigger] r.contains(x) <==> s.contains(x)
}

/// Two ascending lists with the same elements are the same list.
pub proof fn lemma_ascending_unique(a: Seq<Seq<char>>, b: Seq<Seq<char>>)
    requires
        ascending(a),
        ascending(b),
        forall|x: Seq<char>| #[trigger] a.contains(x) <==> b.contains(x),
    ensures
        a == b,
    decreases a.len(),
{
    if a.len() == 0 {
        if b.len() > 0 {
            assert(b.contains(b[0]));
            assert(a.contains(b[0]));
        }
        assert(a =~= b);
    } else {
        assert(a.contains(a.last()));
        assert(b.contains(a.last()));
        assert(b.contains(b.last()));
        assert(a.contains(b.last()));
        let i = choose|i: int| 0 <= i < b.len() && b[i] == a.last();
        let j = choose|j: int| 0 <= j < a.len() && a[j] == b.last();
        if a.last() != b.last() {
            assert(lex_lt(b[i], b.last()));
            assert(lex_lt(a[j], a.last()));
            lemma_lex_transitive(a.last(), b.last(), a.last());
            lemma_lex_irreflexive(a.last());
        }
        let a1 = a.drop_last();
        let b1 = b.drop_last();
        assert forall|x: Seq<char>| #[trigger] a1.contains(x) <==> b1.contains(x) by {
            if a1.contains(x) {
                let k = choose|k: int| 0 <= k < a1.len() && a1[k] == x;
                assert(a[k] == x);
                assert(a.contains(x));
                assert(b.contains(x));
                let m = choose|m: int| 0 <= m < b.len() && b[m] == x;
                lemma_lex_irreflexive(x);
                assert(lex_lt(a[k], a.last()));
                assert(m < b.len() - 1);
                assert(b1[m] == x);
            }
            if b1.contains(x) {
                let k = choose|k: int| 0 <= k < b1.len() && b1[k] == x;
                assert(b[k] == x);
                assert(b.contains(x));
                assert(a.contains(x));
                let m = choose|m: int| 0 <= m < a.len() && a[m] == x;
                lemma_lex_irreflexive(x);
                assert(lex_lt(b[k], b.last()));
                assert(m < a.len() - 1);
                assert(a1[m] == x);
            }
        }
        lemma_ascending_unique(a1, b1);
        assert(a =~= a1.push(a.last()));
        assert(b =~= b1.push(b.last()));
    }
}

pub fn contains_str(v: &Vec<String>, x: &str) -> (r: bool)
    ensures
        r == views(v@).contains(x@),
{
    let mut i: usize = 0;
    while i < v.len()
        invariant
            i <= v@.len(),
            forall|k: int| 0 <= k < i ==> (#[trigger] v@[k])@ != x@,
        decreases v@.len() - i,
    {
        if str_eq(v[i].as_str(), x) {
            assert(views(v@)[i as int] == x@);
            return true;
        }
        i += 1;
    }
    assert forall|k: int| 0 <= k < views(v@).len() implies views(v@)[k] != x@ by {
        assert(views(v@)[k] == v@[k]@);
    }
    false
}

pub fn clone_strings(v: &Vec<String>) -> (r: Vec<String>)
    ensures
        r@ == v@,
{
    let mut r: Vec<String> = Vec::new();
    let mut i: usize = 0;
    while i < v.len()
        invariant
            i <= v@.len(),
            r@ == v@.take(i as int),
        decreases v@.len() - i,
    {
        r.push(v[i].clone());
        i += 1;
    }
    r
}

/// An empty list.
pub fn no_strings() -> (r: Vec<String>)
    ensures
        views(r@) == Seq::<Seq<char>>::empty(),
{
    let r: Vec<String> = Vec::new();
    assert(views(r@) =~= Seq::<Seq<char>>::empty());
    r
}

/// Appends a copy of `more`.
pub fn extend_strings(v: &mut Vec<String>, more: &Vec<String>)
    ensures
        final(v)@ == old(v)@ + more@,
{
    let mut i: usize = 0;
    while i < more.len()
        invariant
            i <= more@.len(),
            v@ == old(v)@ + more@.take(i as int),
        decreases more@.len() - i,
    {
        v.push(more[i].clone());
        i += 1;
    }
    assert(more@.take(i as int) =~= more@);
}

pub fn clone_opt_string(s: &Option<String>) -> (r: Option<String>)
    ensures
        r == *s,
{
    match s {
        Some(x) => Some(x.clone()),
        None => None,
    }
}

/// Puts `x` into an ascending list, where it is not there yet.
pub fn insert_sorted(v: &mut Vec<String>, x: &str)
    requires
        ascending(views(old(v)@)),
    ensures
        ascending(views(final(v)@)),
        forall|y: Seq<char>| #[trigger]
            views(final(v)@).contains(y) <==> views(old(v)@).contains(y) || y == x@,
{
    let ghost before = views(v@);
    let mut i: usize = 0;
    while i < v.len() && str_lt(v[i].as_str(), x)
        invariant
            i <= v@.len(),
            before == views(v@),
            *v == *old(v),
            forall|k: int| 0 <= k < i ==> lex_lt((#[trigger] before[k]), x@),
        decreases v@.len() - i,
    {
        assert(before[i as int] == v@[i as int]@);
        i += 1;
    }
    assert(i < v@.len() ==> before[i as int] == v@[i as int]@);
    if i < v.len() && str_eq(v[i].as_str(), x) {
        assert(before.contains(x@));
        return ;
    }
    let copy = copy_str(x);
    v.insert(i, copy);
    proof {
        let after = views(v@);
        assert(after =~= before.insert(i as int, x@));
        if i < before.len() {
            lemma_lex_total(before[i as int], x@);
        }
        assert forall|p: int, q: int| 0 <= p < q < after.len() implies lex_lt(
            #[trigger] after[p],
            #[trigger] after[q],
        ) by {
            if q < i {
                assert(after[p] == before[p] && after[q] == before[q]);
            } else if q == i {
                assert(after[p] == before[p]);
            } else if p < i {
                assert(after[p] == before[p] && after[q] == before[q - 1]);
            } else if p == i {
                assert(after[q] == before[q - 1]);
                if q - 1 > i {
                    lemma_lex_transitive(x@, before[i as int], before[q - 1]);
                }
            } else {
                assert(after[p] == before[p - 1] && after[q] == before[q - 1]);
            }
        }
        assert forall|y: Seq<char>| #[trigger] after.contains(y) <==> before.contains(y) || y
            == x@ by {
            if after.contains(y) {
                let k = choose|k: int| 0 <= k < after.len() && after[k] == y;
                if k < i {
                    assert(before[k] == y);
                } else if k > i {
                    assert(before[k - 1] == y);
                }
            }
            if before.contains(y) {
                let k = choose|k: int| 0 <= k < before.len() && before[k] == y;
                if k < i {
                    assert(after[k] == y);
                } else {
                    assert(after[k + 1] == y);
                }
            }
            if y == x@ {
                assert(after[i as int] == y);
            }
        }
    }
}

/// Adds every string of `more` to an ascending list.
pub fn insert_all_sorted(v: &mut Vec<String>, more: &Vec<String>)
    requires
        ascending(views(old(v)@)),
    ensures
        ascending(views(final(v)@)),
        forall|y: Seq<char>| #[trigger]
            views(final(v)@).contains(y) <==> views(old(v)@).contains(y) || views(more@).contains(
                y,
            ),
{
    let ghost before = views(v@);
    let ghost added = views(more@);
    let mut i: usize = 0;
    while i < more.len()
        invariant
            i <= more@.len(),
            before == views(old(v)@),
            added == views(more@),
            ascending(views(v@)),
            forall|y: Seq<char>| #[trigger]
                views(v@).contains(y) <==> before.contains(y) || added.take(i as int).contains(y),
        decreases more@.len() - i,
    {
        let ghost mid = views(v@);
        insert_sorted(v, more[i].as_str());
        proof {
            let t0 = added.take(i as int);
            let t1 = added.take(i + 1);
            assert(added[i as int] == more@[i as int]@);
            assert(t1 =~= t0.push(added[i as int]));
            assert forall|y: Seq<char>| #[trigger] views(v@).contains(y) <==> before.contains(y)
                || t1.contains(y) by {
                if t0.contains(y) {
                    let k = choose|k: int| 0 <= k < t0.len() && t0[k] == y;
                    assert(t1[k] == y);
                }
                if t1.contains(y) {
                    let k = choose|k: int| 0 <= k < t1.len() && t1[k] == y;
                    if k < i {
                        assert(t0[k] == y);
                    }
                }
                if y == added[i as int] {
                    assert(t1[i as int] == y);
                }
                assert(mid.contains(y) <==> before.contains(y) || t0.contains(y));
            }
        }
        i += 1;
    }
    assert(added.take(i as int) =~= added);
}

/// The strings of a list in ascending order, each once.
pub fn sorted_set(v: &Vec<String>) -> (r: Vec<String>)
    ensures
        sorted_set_of(views(r@), views(v@)),
{
    let mut r: Vec<String> = Vec::new();
    insert_all_sorted(&mut r, v);
    assert forall|y: Seq<char>| #[trigger] views(r@).contains(y) <==> views(v@).contains(y) by {
        assert(!views(Seq::<String>::empty()).contains(y));
    }
    r
}

/// `a` followed by the strings of `b` that are not there yet, in order, each once.
pub open spec fn append_new(a: Seq<Seq<char>>, b: Seq<Seq<char>>) -> Seq<Seq<char>>
    decreases b.len(),
{
    if b.len() == 0 {
        a
    } else {
        let front = append_new(a, b.drop_last());
        if front.contains(b.last()) {
            front
        } else {
            front.push(b.last())
        }
    }
}

pub fn push_new(v: &mut Vec<String>, more: &Vec<String>)
    ensures
        views(final(v)@) == append_new(views(old(v)@), views(more@)),
{
    let ghost a = views(v@);
    let ghost b = views(more@);
    let mut i: usize = 0;
    assert(b.take(0).len() == 0);
    while i < more.len()
        invariant
            i <= more@.len(),
            a == views(old(v)@),
            b == views(more@),
            views(v@) == append_new(a, b.take(i as int)),
        decreases more@.len() - i,
    {
        proof {
            assert(b.take(i + 1).drop_last() =~= b.take(i as int));
            assert(b.take(i + 1).last() == more@[i as int]@);
        }
        if !contains_str(v, more[i].as_str()) {
            let ghost before = v@;
            let x = more[i].clone();
            v.push(x);
            assert(views(before.push(x)) =~= views(before).push(x@));
        }
        i += 1;
    }
    assert(b.take(i as int) =~= b);
}

/// Puts `x` into an ascending list.
pub open spec fn insert_asc(s: Seq<Seq<char>>, x: Seq<char>) -> Seq<Seq<char>>
    decreases s.len(),
{
    if s.len() == 0 {
        seq![x]
    } else if s[0] == x {
        s
    } else if lex_lt(x, s[0]) {
        seq![x] + s
    } else {
        seq![s[0]] + insert_asc(s.skip(1), x)
    }
}

/// The elements of `s` in ascending order, each once.
pub open spec fn sort_unique(s: Seq<Seq<char>>) -> Seq<Seq<char>>
    decreases s.len(),
{
    if s.len() == 0 {
        Seq::empty()
    } else {
        insert_asc(sort_unique(s.drop_last()), s.last())
    }
}

proof fn lemma_insert_asc(s: Seq<Seq<char>>, x: Seq<char>)
    requires
        ascending(s),
    ensures
        ascending(insert_asc(s, x)),
        forall|y: Seq<char>| #[trigger]
            insert_asc(s, x).contains(y) <==> s.contains(y) || y == x,
    decreases s.len(),
{
    let r = insert_asc(s, x);
    if s.len() == 0 {
        assert forall|y: Seq<char>| #[trigger] r.contains(y) <==> s.contains(y) || y == x by {
            if y == x {
                assert(r[0] == y);
            }
        }
    } else if s[0] == x {
        assert(s.contains(x));
    } else if lex_lt(x, s[0]) {
        assert forall|i: int, j: int| 0 <= i < j < r.len() implies lex_lt(
            #[trigger] r[i],
            #[trigger] r[j],
        ) by {
            assert(r[j] == s[j - 1]);
            if i == 0 {
                if j > 1 {
                    lemma_lex_transitive(x, s[0], s[j - 1]);
                }
            } else {
                assert(r[i] == s[i - 1]);
            }
        }
        assert forall|y: Seq<char>| #[trigger] r.contains(y) <==> s.contains(y) || y == x by {
            if r.contains(y) {
                let k = choose|k: int| 0 <= k < r.len() && r[k] == y;
                if k > 0 {
                    assert(s[k - 1] == y);
                }
            }
            if s.contains(y) {
                let k = choose|k: int| 0 <= k < s.len() && s[k] == y;
                assert(r[k + 1] == y);
            }
            if y == x {
                assert(r[0] == y);
            }
        }
    } else {
        let rest = s.skip(1);
        assert(ascending(rest));
        lemma_insert_asc(rest, x);
        lemma_lex_total(x, s[0]);
        let t = insert_asc(rest, x);
        assert forall|i: int, j: int| 0 <= i < j < r.len() implies lex_lt(
            #[trigger] r[i],
            #[trigger] r[j],
        ) by {
            assert(r[j] == t[j - 1]);
            if i == 0 {
                assert(t.contains(t[j - 1]));
                if t[j - 1] != x {
                    assert(rest.contains(t[j - 1]));
                    let k = choose|k: int| 0 <= k < rest.len() && rest[k] == t[j - 1];
                    assert(s[k + 1] == t[j - 1]);
                }
            } else {
                assert(r[i] == t[i - 1]);
            }
        }
        assert forall|y: Seq<char>| #[trigger] r.contains(y) <==> s.contains(y) || y == x by {
            if r.contains(y) {
                let k = choose|k: int| 0 <= k < r.len() && r[k] == y;
                if k == 0 {
                    assert(s[0] == y);
                } else {
                    assert(t[k - 1] == y);
                    assert(t.contains(y));
                    if y != x {
                        let m = choose|m: int| 0 <= m < rest.len() && rest[m] == y;
                        assert(s[m + 1] == y);
                    }
                }
            }
            if s.contains(y) {
                let k = choose|k: int| 0 <= k < s.len() && s[k] == y;
                if k == 0 {
                    assert(r[0] == y);
                } else {
                    assert(rest[k - 1] == y);
                    assert(t.contains(y));
                    let m = choose|m: int| 0 <= m < t.len() && t[m] == y;
                    assert(r[m + 1] == y);
                }
            }
            if y == x {
                assert(t.contains(x));
                let m = choose|m: int| 0 <= m < t.len() && t[m] == x;
                assert(r[m + 1] == x);
            }
        }
    }
}

/// A sorted list has the elements of what it was made from, in ascending order.
pub proof fn lemma_sort_unique(s: Seq<Seq<char>>)
    ensures
        sorted_set_of(sort_unique(s), s),
    decreases s.len(),
{
    if s.len() > 0 {
        let t = s.drop_last();
        lemma_sort_unique(t);
        lemma_insert_asc(sort_unique(t), s.last());
        assert forall|y: Seq<char>| #[trigger] sort_unique(s).contains(y) <==> s.contains(y) by {
            if t.contains(y) {
                let k = choose|k: int| 0 <= k < t.len() && t[k] == y;
                assert(s[k] == y);
            }
            if y == s.last() {
                assert(s[s.len() - 1] == y);
            }
            if s.contains(y) {
                let k = choose|k: int| 0 <= k < s.len() && s[k] == y;
                if k < s.len() - 1 {
                    assert(t[k] == y);
                }
            }
            assert(sort_unique(t).contains(y) <==> t.contains(y));
        }
    }
}

/// Any ascending list of the same elements is that list.
pub proof fn lemma_is_sort_unique(r: Seq<Seq<char>>, s: Seq<Seq<char>>)
    requires
        sorted_set_of(r, s),
    ensures
        r == sort_unique(s),
{
    lemma_sort_unique(s);
    assert forall|x: Seq<char>| #[trigger] r.contains(x) <==> sort_unique(s).contains(x) by {
        assert(r.contains(x) <==> s.contains(x));
    }
    lemma_ascending_unique(r, sort_unique(s));
}

/// What `a` holds and `b` does not, in ascending order, each once.
pub open spec fn difference(a: Seq<Seq<char>>, b: Seq<Seq<char>>) -> Seq<Seq<char>> {
    sort_unique(a).filter(|x: Seq<char>| !b.contains(x))
}

pub fn sorted_difference(a: &Vec<String>, b: &Vec<String>) -> (r: Vec<String>)
    ensures
        views(r@) == difference(views(a@), views(b@)),
{
    let s = sorted_set(a);
    let ghost keep = |x: Seq<char>| !views(b@).contains(x);
    proof {
        lemma_is_sort_unique(views(s@), views(a@));
    }
    let mut r: Vec<String> = Vec::new();
    let mut i: usize = 0;
    assert(views(r@) =~= views(s@).take(0).filter(keep));
    while i < s.len()
        invariant
            i <= s@.len(),
            keep == (|x: Seq<char>| !views(b@).contains(x)),
            views(r@) == views(s@).take(i as int).filter(keep),
        decreases s@.len() - i,
    {
        proof {
            lemma_filter_step(views(s@), i as int, keep);
        }
        if !contains_str(b, s[i].as_str()) {
            push_copy(&mut r, s[i].as_str());
        }
        i += 1;
    }
    assert(views(s@).take(i as int) =~= views(s@));
    r
}

/// Filtering one element more.
pub proof fn lemma_filter_step<A>(s: Seq<A>, i: int, keep: spec_fn(A) -> bool)
    requires
        0 <= i < s.len(),
    ensures
        s.take(i + 1).filter(keep) == if keep(s[i]) {
            s.take(i).filter(keep).push(s[i])
        } else {
            s.take(i).filter(keep)
        },
{
    reveal(Seq::filter);
    assert(s.take(i + 1).drop_last() =~= s.take(i));
    assert(s.take(i + 1).last() == s[i]);
}

/// Appends a copy of a string.
pub fn push_copy(v: &mut Vec<String>, s: &str)
    ensures
        views(final(v)@) == views(old(v)@).push(s@),
        final(v)@.len() == old(v)@.len() + 1,
{
    v.push(copy_str(s));
    assert(views(v@) =~= views(old(v)@).push(s@));
}

/// A list has no difference to itself.
pub proof fn lemma_no_difference(a: Seq<Seq<char>>)
    ensures
        difference(a, a).len() == 0,
{
    let keep = |x: Seq<char>| !a.contains(x);
    lemma_sort_unique(a);
    let s = sort_unique(a);
    assert forall|i: int| 0 <= i < s.len() implies !keep(#[trigger] s[i]) by {
        assert(s.contains(s[i]));
    }
    lemma_filter_none(s, keep);
}

/// Filtering keeps nothing where no element passes.
pub proof fn lemma_filter_none(s: Seq<Seq<char>>, keep: spec_fn(Seq<char>) -> bool)
    requires
        forall|i: int| 0 <= i < s.len() ==> !keep(#[trigger] s[i]),
    ensures
        s.filter(keep).len() == 0,
    decreases s.len(),
{
    reveal(Seq::filter);
    if s.len() > 0 {
        lemma_filter_none(s.drop_last(), keep);
        assert(!keep(s[s.len() - 1]));
    }
}

/// An absent string, or one as its characters.
pub open spec fn opt_view(s: Option<String>) -> Option<Seq<char>> {
    match s {
        Some(x) => Some(x@),
        None => None,
    }
}

pub fn opt_str_eq(a: &Option<String>, b: &Option<String>) -> (r: bool)
    ensures
        r == (opt_view(*a) == opt_view(*b)),
{
    match (a, b) {
        (Some(x), Some(y)) => str_eq(x.as_str(), y.as_str()),
        (None, None) => true,
        _ => false,
    }
}

/// Strings equal position by position.
pub fn strings_eq(a: &Vec<String>, b: &Vec<String>) -> (r: bool)
    ensures
        r == (views(a@) == views(b@)),
{
    if a.len() != b.len() {
        assert(views(a@).len() != views(b@).len());
        return false;
    }
    let mut i: usize = 0;
    while i < a.len()
        invariant
            i <= a@.len(),
            a@.len() == b@.len(),
            forall|k: int| 0 <= k < i ==> (#[trigger] a@[k])@ == b@[k]@,
        decreases a@.len() - i,
    {
        if !str_eq(a[i].as_str(), b[i].as_str()) {
            assert(views(a@)[i as int] != views(b@)[i as int]);
            return false;
        }
        i += 1;
    }
    assert(views(a@) =~= views(b@));
    true
}

/// `s` filled up with spaces to `width` characters.
pub open spec fn padded(s: Seq<char>, width: nat) -> Seq<char>
    decreases width - s.len(),
{
    if s.len() >= width {
        s
    } else {
        padded(s.push(' '), width)
    }
}

pub fn pad_right(s: &str, width: usize) -> (r: String)
    ensures
        r@ == padded(s@, width as nat),
{
    let mut r = copy_str(s);
    let mut n: usize = s.unicode_len();
    while n < width
        invariant
            n == r@.len(),
            padded(s@, width as nat) == padded(r@, width as nat),
        decreases width - n,
    {
        r.push(' ');
        n += 1;
    }
    r
}

pub fn bool_str(b: bool) -> (r: &'static str)
    ensures
        r@ == bool_text(b),
{
    if b {
        "true"
    } else {
        "false"
    }
}

pub open spec fn bool_text(b: bool) -> Seq<char> {
    if b {
        "true"@
    } else {
        "false"@
    }
}

// ---------------------------------------------------------------------------
// Debug forms
// ---------------------------------------------------------------------------

/// A string in double quotes, with what is special in it escaped.
pub uninterp spec fn quoted(s: Seq<char>) -> Seq<char>;

/// The standard library's `Debug` form of a string: a function of its characters.
#[verifier::external_body]
fn debug_str(s: &str) -> (r: String)
    ensures
        r@ == quoted(s@),
{
    format!("{:?}", s)
}

pub open spec fn debug_opt(s: Option<Seq<char>>) -> Seq<char> {
    match s {
        Some(x) => "Some("@ + quoted(x) + ")"@,
        None => "None"@,
    }
}

pub open spec fn debug_list(v: Seq<Seq<char>>) -> Seq<char> {
    "["@ + join(v.map_values(|s: Seq<char>| quoted(s)), ", "@) + "]"@
}

/// The `Debug` form of an optional string.
pub fn opt_to_debug(s: &Option<String>) -> (r: String)
    ensures
        r@ == debug_opt(opt_view(*s)),
{
    match s {
        Some(x) => {
            let q = debug_str(x.as_str());
            concat3("Some(", q.as_str(), ")")
        },
        None => copy_str("None"),
    }
}

/// The `Debug` form of a list of strings.
pub fn list_to_debug(v: &Vec<String>) -> (r: String)
    ensures
        r@ == debug_list(views(v@)),
{
    let mut parts: Vec<String> = Vec::new();
    let ghost all = views(v@).map_values(|s: Seq<char>| quoted(s));
    let mut i: usize = 0;
    while i < v.len()
        invariant
            i <= v@.len(),
            all == views(v@).map_values(|s: Seq<char>| quoted(s)),
            parts@.len() == i,
            forall|k: int| 0 <= k < i ==> (#[trigger] parts@[k])@ == all[k],
        decreases v@.len() - i,
    {
        parts.push(debug_str(v[i].as_str()));
        i += 1;
    }
    assert(views(parts@) =~= all);
    let body = join_strings(&parts, ", ");
    concat3("[", body.as_str(), "]")
}


/// Each text with something before and after it.
pub open spec fn wrapped(before: Seq<char>, texts: Seq<Seq<char>>, after: Seq<char>) -> Seq<
    Seq<char>,
> {
    texts.map_values(|t: Seq<char>| before + t + after)
}

/// Appends every text with something before and after it.
pub fn push_wrapped(v: &mut Vec<String>, before: &str, texts: &Vec<String>, after: &str)
    ensures
        views(final(v)@) == views(old(v)@) + wrapped(before@, views(texts@), after@),
{
    let ghost all = wrapped(before@, views(texts@), after@);
    let ghost start = views(v@);
    let mut i: usize = 0;
    assert(start + all.take(0) =~= start);
    while i < texts.len()
        invariant
            i <= texts@.len(),
            all == wrapped(before@, views(texts@), after@),
            views(v@) == start + all.take(i as int),
        decreases texts@.len() - i,
    {
        let s = concat3(before, texts[i].as_str(), after);
        push_copy(v, s.as_str());
        i += 1;
        assert(all.take(i as int) =~= all.take(i - 1).push(all[i - 1]));
        assert(views(v@) =~= start + all.take(i as int));
    }
    assert(all.take(i as int) =~= all);
}


// ---------------------------------------------------------------------------
// Hexadecimal
// ---------------------------------------------------------------------------

/// The lower-case hexadecimal digit for a number below sixteen.
pub open spec fn hex_char(d: nat) -> char {
    if d < 10 {
        ('0' as u32 + d) as char
    } else {
        ('a' as u32 + d - 10) as char
    }
}

/// Two lower-case hexadecimal digits for each byte.
pub open spec fn hex_text(bytes: Seq<u8>) -> Seq<char>
    decreases bytes.len(),
{
    if bytes.len() == 0 {
        Seq::empty()
    } else {
        hex_text(bytes.drop_last()).push(hex_char((bytes.last() / 16) as nat)).push(
            hex_char((bytes.last() % 16) as nat),
        )
    }
}

fn char_of_hex(d: u8) -> (r: char)
    requires
        d < 16,
    ensures
        r == hex_char(d as nat),
{
    if d < 10 {
        (48 + d) as char
    } else {
        (87 + d) as char
    }
}

pub fn bytes_to_hex(bytes: &[u8]) -> (r: String)
    ensures
        r@ == hex_text(bytes@),
{
    let mut s = String::new();
    let mut i: usize = 0;
    assert(s@ =~= hex_text(bytes@.take(0)));
    while i < bytes.len()
        invariant
            i <= bytes@.len(),
            s@ == hex_text(bytes@.take(i as int)),
        decreases bytes@.len() - i,
    {
        assert(bytes@.take(i + 1).drop_last() =~= bytes@.take(i as int));
        s.push(char_of_hex(bytes[i] / 16));
        s.push(char_of_hex(bytes[i] % 16));
        i += 1;
    }
    assert(bytes@.take(i as int) =~= bytes@);
    s
}

/// Hexadecimal text has two digits for each byte, and no upper-case ones.
pub proof fn lemma_hex_text(bytes: Seq<u8>)
    ensures
        hex_text(bytes).len() == 2 * bytes.len(),
        forall|i: int| 0 <= i < hex_text(bytes).len() ==> is_hex(#[trigger] hex_text(bytes)[i]),
        lower(hex_text(bytes)) == hex_text(bytes),
    decreases bytes.len(),
{
    if bytes.len() > 0 {
        lemma_hex_text(bytes.drop_last());
        let front = hex_text(bytes.drop_last());
        assert forall|i: int| 0 <= i < hex_text(bytes).len() implies lower_char(
            #[trigger] hex_text(bytes)[i],
        ) == hex_text(bytes)[i] by {
            if i < front.len() {
                assert(lower(front)[i] == front[i]);
            }
        }
    }
    assert(lower(hex_text(bytes)) =~= hex_text(bytes));
}

/// A text is in two lists put together exactly where it is in one of them.
pub proof fn lemma_in_either(a: Seq<Seq<char>>, b: Seq<Seq<char>>, x: Seq<char>)
    ensures
        (a + b).contains(x) <==> a.contains(x) || b.contains(x),
{
    if a.contains(x) {
        let i = choose|i: int| 0 <= i < a.len() && a[i] == x;
        assert((a + b)[i] == x);
    }
    if b.contains(x) {
        let i = choose|i: int| 0 <= i < b.len() && b[i] == x;
        assert((a + b)[a.len() + i] == x);
    }
    if (a + b).contains(x) {
        let i = choose|i: int| 0 <= i < (a + b).len() && (a + b)[i] == x;
        if i < a.len() {
            assert(a[i] == x);
        } else {
            assert(b[i - a.len()] == x);
        }
    }
}

/// A list of strings holds a text exactly where one of them reads so.
pub proof fn lemma_in_views(v: Seq<String>, x: Seq<char>)
    ensures
        views(v).contains(x) <==> exists|i: int| 0 <= i < v.len() && (#[trigger] v[i])@ == x,
{
    if views(v).contains(x) {
        let i = choose|i: int| 0 <= i < views(v).len() && views(v)[i] == x;
        assert(v[i]@ == x);
    }
    if exists|i: int| 0 <= i < v.len() && (#[trigger] v[i])@ == x {
        let i = choose|i: int| 0 <= i < v.len() && (#[trigger] v[i])@ == x;
        assert(views(v)[i] == x);
    }
}

/// Sorting keeps what is in a list.
pub proof fn lemma_in_sorted(s: Seq<Seq<char>>, x: Seq<char>)
    ensures
        sort_unique(s).contains(x) <==> s.contains(x),
{
    lemma_sort_unique(s);
}

/// A filtered list holds what is in the list and is kept.
pub proof fn lemma_in_filtered<A>(s: Seq<A>, keep: spec_fn(A) -> bool, x: A)
    ensures
        s.filter(keep).contains(x) <==> s.contains(x) && keep(x),
    decreases s.len(),
{
    reveal(Seq::filter);
    if s.len() > 0 {
        let front = s.drop_last();
        let kept = front.filter(keep);
        lemma_in_filtered(front, keep, x);
        if s.contains(x) && x != s.last() {
            let i = choose|i: int| 0 <= i < s.len() && s[i] == x;
            assert(front[i] == x);
        }
        if front.contains(x) {
            let i = choose|i: int| 0 <= i < front.len() && front[i] == x;
            assert(s[i] == x);
        }
        if x == s.last() {
            assert(s[s.len() - 1] == x);
        }
        if keep(s.last()) {
            let all = kept.push(s.last());
            if kept.contains(x) {
                let i = choose|i: int| 0 <= i < kept.len() && kept[i] == x;
                assert(all[i] == x);
            }
            if x == s.last() {
                assert(all[kept.len() as int] == x);
            }
        }
    }
}

/// Something is in two lists put together exactly where it is in one of them.
pub proof fn lemma_in_sum<A>(a: Seq<A>, b: Seq<A>, x: A)
    ensures
        (a + b).contains(x) <==> a.contains(x) || b.contains(x),
{
    if a.contains(x) {
        let i = choose|i: int| 0 <= i < a.len() && a[i] == x;
        assert((a + b)[i] == x);
    }
    if b.contains(x) {
        let i = choose|i: int| 0 <= i < b.len() && b[i] == x;
        assert((a + b)[a.len() + i] == x);
    }
    if (a + b).contains(x) {
        let i = choose|i: int| 0 <= i < (a + b).len() && (a + b)[i] == x;
        if i < a.len() {
            assert(a[i] == x);
        } else {
            assert(b[i - a.len()] == x);
        }
    }
}

} // verus!
