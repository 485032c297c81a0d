//! Text primitives shared by the parsers of this crate: strings seen as
//! sequences of characters, splitting on a separator, and the numerals of
//! unsigned integers.

use vstd::prelude::*;

verus! {

/// `String::push` appends one character to the string.
pub assume_specification[ String::push ](s: &mut String, ch: char)
    ensures
        final(s)@ == old(s)@.push(ch),
;

/// The characters of `s`, in order.
pub fn to_chars(s: &str) -> (v: Vec<char>)
    ensures
        v@ == s@,
{
    let mut v: Vec<char> = Vec::new();
    for c in it: s.chars()
        invariant
            it.seq() == s@,
            v@ == it.seq().take(it.index() as int),
    {
        v.push(c);
    }
    assert(s@.take(s@.len() as int) == s@);
    v
}

/// The string made of the characters of `v`, in order.
pub fn from_chars(v: &[char]) -> (s: String)
    ensures
        s@ == v@,
{
    let mut s = String::new();
    let mut i: usize = 0;
    while i < v.len()
        invariant
            i <= v.len(),
            s@ == v@.take(i as int),
        decreases v.len() - i,
    {
        s.push(v[i]);
        i += 1;
    }
    s
}

/// The views of a sequence of strings.
pub open spec fn views(v: Seq<String>) -> Seq<Seq<char>> {
    Seq::new(v.len(), |i: int| v[i]@)
}

/// The view of a string that may be absent.
pub open spec fn opt_view(s: Option<String>) -> Option<Seq<char>> {
    match s {
        Some(text) => Some(text@),
        None => None,
    }
}

/// The views of a sequence of character vectors.
pub open spec fn rows(v: Seq<Vec<char>>) -> Seq<Seq<char>> {
    Seq::new(v.len(), |i: int| v[i]@)
}

/// Whether two character slices hold the same text.
pub fn same_chars(a: &[char], b: &[char]) -> (r: bool)
    ensures
        r == (a@ == b@),
{
    if a.len() != b.len() {
        return false;
    }
    let mut i: usize = 0;
    while i < a.len()
        invariant
            a.len() == b.len(),
            i <= a.len(),
            a@.take(i as int) == b@.take(i as int),
        decreases a.len() - i,
    {
        if a[i] != b[i] {
            assert(a@[i as int] != b@[i as int]);
            return false;
        }
        assert(a@.take(i + 1) == a@.take(i as int).push(a@[i as int]));
        assert(b@.take(i + 1) == b@.take(i as int).push(b@[i as int]));
        i += 1;
    }
    assert(a@ == a@.take(a.len() as int));
    assert(b@ == b@.take(b.len() as int));
    true
}

/// Whether two strings hold the same text.
pub fn same_text(a: &str, b: &str) -> (r: bool)
    ensures
        r == (a@ == b@),
{
    let ca = to_chars(a);
    let cb = to_chars(b);
    same_chars(ca.as_slice(), cb.as_slice())
}

/// Whether `p` is a prefix of `s`.
pub open spec fn is_prefix(p: Seq<char>, s: Seq<char>) -> bool {
    p.len() <= s.len() && s.take(p.len() as int) == p
}

/// Whether `s` starts with `p`.
pub fn starts_with(s: &[char], p: &[char]) -> (r: bool)
    ensures
        r == is_prefix(p@, s@),
{
    if p.len() > s.len() {
        return false;
    }
    let mut i: usize = 0;
    while i < p.len()
        invariant
            p.len() <= s.len(),
            i <= p.len(),
            s@.take(i as int) == p@.take(i as int),
        decreases p.len() - i,
    {
        if s[i] != p[i] {
            assert(s@.take(p.len() as int)[i as int] != p@[i as int]);
            return false;
        }
        assert(s@.take(i + 1) == s@.take(i as int).push(s@[i as int]));
        assert(p@.take(i + 1) == p@.take(i as int).push(p@[i as int]));
        i += 1;
    }
    assert(p@ == p@.take(p.len() as int));
    true
}

/// The characters of `s` from index `from` up to, not including, `to`.
pub fn slice_chars(s: &[char], from: usize, to: usize) -> (r: Vec<char>)
    requires
        from <= to <= s.len(),
    ensures
        r@ == s@.subrange(from as int, to as int),
{
    let mut r: Vec<char> = Vec::new();
    let mut i: usize = from;
    while i < to
        invariant
            from <= i <= to <= s.len(),
            r@ == s@.subrange(from as int, i as int),
        decreases to - i,
    {
        r.push(s[i]);
        i += 1;
    }
    r
}

/// Appends the characters of `tail` to `out`.
pub fn append_chars(out: &mut Vec<char>, tail: &[char])
    ensures
        final(out)@ == old(out)@ + tail@,
{
    let mut i: usize = 0;
    while i < tail.len()
        invariant
            i <= tail.len(),
            out@ == old(out)@ + tail@.take(i as int),
        decreases tail.len() - i,
    {
        out.push(tail[i]);
        i += 1;
    }
    assert(tail@.take(tail.len() as int) == tail@);
}

/// The fields of `s` between occurrences of `sep`: one more field than
/// there are separators, empty fields included.
pub open spec fn split_on(s: Seq<char>, sep: char) -> Seq<Seq<char>>
    decreases s.len(),
{
    if s.len() == 0 {
        seq![Seq::<char>::empty()]
    } else {
        let before = split_on(s.drop_last(), sep);
        if s.last() == sep {
            before.push(Seq::<char>::empty())
        } else {
            before.drop_last().push(before.last().push(s.last()))
        }
    }
}

/// Splits `s` at every occurrence of `sep`.
pub fn split_chars(s: &[char], sep: char) -> (r: Vec<Vec<char>>)
    ensures
        rows(r@) == split_on(s@, sep),
        r.len() >= 1,
{
    let mut fields: Vec<Vec<char>> = Vec::new();
    let mut cur: Vec<char> = Vec::new();
    let mut i: usize = 0;
    while i < s.len()
        invariant
            i <= s.len(),
            rows(fields@).push(cur@) == split_on(s@.take(i as int), sep),
        decreases s.len() - i,
    {
        let ghost before = split_on(s@.take(i as int), sep);
        assert(s@.take(i + 1).drop_last() == s@.take(i as int));
        assert(s@.take(i + 1).last() == s@[i as int]);
        if s[i] == sep {
            let ghost old_fields = fields@;
            fields.push(cur);
            cur = Vec::new();
            assert(rows(fields@) == rows(old_fields).push(fields@.last()@));
        } else {
            cur.push(s[i]);
            assert(before.drop_last() == rows(fields@));
        }
        i += 1;
    }
    assert(s@.take(s.len() as int) == s@);
    let ghost old_fields = fields@;
    fields.push(cur);
    assert(rows(fields@) == rows(old_fields).push(fields@.last()@));
    fields
}

/// `line` without one trailing carriage return.
pub open spec fn strip_cr(line: Seq<char>) -> Seq<char> {
    if line.len() > 0 && line.last() == '\r' {
        line.drop_last()
    } else {
        line
    }
}

/// The lines of a text. Each line feed ends a line, and a carriage
/// return just before it belongs to the line ending; what follows the
/// last line feed is a line of its own unless it is empty.
pub open spec fn lines_spec(text: Seq<char>) -> Seq<Seq<char>> {
    let fields = split_on(text, '\n');
    let ended = Seq::new((fields.len() - 1) as nat, |i: int| strip_cr(fields[i]));
    if fields.last().len() == 0 {
        ended
    } else {
        ended.push(fields.last())
    }
}

/// Cuts a text into its lines.
pub fn lines(text: &[char]) -> (r: Vec<Vec<char>>)
    ensures
        rows(r@) == lines_spec(text@),
{
    let fields = split_chars(text, '\n');
    let n = fields.len();
    let mut out: Vec<Vec<char>> = Vec::new();
    let mut i: usize = 0;
    while i + 1 < n
        invariant
            n == fields.len(),
            n >= 1,
            i + 1 <= n,
            rows(out@) == Seq::new(i as nat, |j: int| strip_cr(rows(fields@)[j])),
        decreases n - i,
    {
        let f = &fields[i];
        let m = f.len();
        let line = if m > 0 && f[m - 1] == '\r' {
            slice_chars(f.as_slice(), 0, m - 1)
        } else {
            slice_chars(f.as_slice(), 0, m)
        };
        assert(f@.subrange(0, m as int) == f@);
        assert(line@ == strip_cr(rows(fields@)[i as int]));
        let ghost before = out@;
        out.push(line);
        assert(rows(out@) == rows(before).push(line@));
        i += 1;
    }
    let last = &fields[n - 1];
    if last.len() > 0 {
        let line = slice_chars(last.as_slice(), 0, last.len());
        assert(last@.subrange(0, last.len() as int) == last@);
        let ghost before = out@;
        out.push(line);
        assert(rows(out@) == rows(before).push(line@));
    }
    assert(rows(fields@).last() == last@);
    out
}

/// The index of the first occurrence of `c` in `s`, or the length of
/// `s` when there is none.
pub open spec fn first_index_of(s: Seq<char>, c: char) -> int
    decreases s.len(),
{
    if s.len() == 0 {
        0
    } else if s[0] == c {
        0
    } else {
        1 + first_index_of(s.skip(1), c)
    }
}

/// The first occurrence lies within the text or at its end, nothing
/// before it is the character sought, and the character stands there
/// unless the end was reached.
pub proof fn lemma_first_index_of(s: Seq<char>, c: char)
    ensures
        0 <= first_index_of(s, c) <= s.len(),
        forall|i: int| 0 <= i < first_index_of(s, c) ==> s[i] != c,
        first_index_of(s, c) < s.len() ==> s[first_index_of(s, c)] == c,
    decreases s.len(),
{
    if s.len() > 0 && s[0] != c {
        lemma_first_index_of(s.skip(1), c);
        assert forall|i: int| 0 <= i < first_index_of(s, c) implies s[i] != c by {
            if i > 0 {
                assert(s.skip(1)[i - 1] == s[i]);
            }
        }
    }
}

/// The position of the first occurrence is the only one that nothing
/// equal precedes.
pub proof fn lemma_first_index_unique(s: Seq<char>, c: char, k: int)
    requires
        0 <= k <= s.len(),
        forall|i: int| 0 <= i < k ==> s[i] != c,
        k < s.len() ==> s[k] == c,
    ensures
        first_index_of(s, c) == k,
{
    lemma_first_index_of(s, c);
}

/// Finds the first occurrence of `c` in `s`; the length of `s` stands
/// for none.
pub fn find_char(s: &[char], c: char) -> (k: usize)
    ensures
        k == first_index_of(s@, c),
{
    let mut k: usize = 0;
    while k < s.len() && s[k] != c
        invariant
            k <= s.len(),
            forall|i: int| 0 <= i < k ==> s@[i] != c,
        decreases s.len() - k,
    {
        k += 1;
    }
    proof {
        lemma_first_index_unique(s@, c, k as int);
    }
    k
}

/// Whether `c` is one of the ASCII digits `0` to `9`.
pub open spec fn is_ascii_digit(c: char) -> bool {
    '0' <= c <= '9'
}

/// Whether `c` is an ASCII letter.
pub open spec fn is_ascii_alpha(c: char) -> bool {
    ('a' <= c <= 'z') || ('A' <= c <= 'Z')
}

/// Whether `c` is a digit of the given radix (at most ten).
pub open spec fn is_digit(c: char, radix: int) -> bool {
    '0' <= c && (c as int) < ('0' as int) + radix
}

/// The number a digit stands for.
pub open spec fn digit_value(c: char) -> int {
    (c as int) - ('0' as int)
}

/// Whether every character of `s` is a digit of the radix.
pub open spec fn all_digits(s: Seq<char>, radix: int) -> bool {
    forall|i: int| 0 <= i < s.len() ==> is_digit(#[trigger] s[i], radix)
}

/// The number that the digits of `s` denote in the radix, most
/// significant digit first.
pub open spec fn numeral_value(s: Seq<char>, radix: int) -> int
    decreases s.len(),
{
    if s.len() == 0 {
        0
    } else {
        numeral_value(s.drop_last(), radix) * radix + digit_value(s.last())
    }
}

/// The digits of a numeral once an optional leading `+` is removed.
pub open spec fn unsigned_body(s: Seq<char>) -> Seq<char> {
    if s.len() > 0 && s[0] == '+' {
        s.skip(1)
    } else {
        s
    }
}

/// The `u32` that `s` denotes in the radix: an optional `+`, then one
/// or more digits whose value fits. Anything else denotes nothing.
pub open spec fn parse_u32_spec(s: Seq<char>, radix: int) -> Option<u32> {
    let body = unsigned_body(s);
    if body.len() > 0 && all_digits(body, radix) && numeral_value(body, radix) <= u32::MAX {
        Some(numeral_value(body, radix) as u32)
    } else {
        None
    }
}

/// A numeral is never negative, and never smaller than any of its
/// prefixes.
pub proof fn lemma_numeral_monotone(s: Seq<char>, radix: int, k: int)
    requires
        2 <= radix <= 10,
        all_digits(s, radix),
        0 <= k <= s.len(),
    ensures
        0 <= numeral_value(s.take(k), radix) <= numeral_value(s, radix),
    decreases s.len(),
{
    if s.len() == 0 {
        assert(s.take(k) == s);
    } else if k == s.len() {
        assert(s.take(k) == s);
        lemma_numeral_monotone(s.drop_last(), radix, k - 1);
        assert(s.drop_last().take(k - 1) == s.drop_last());
        assert(numeral_value(s.drop_last(), radix) >= 0);
        assert(is_digit(s[s.len() - 1], radix));
        assert(numeral_value(s.drop_last(), radix) * radix >= 0) by (nonlinear_arith)
            requires
                numeral_value(s.drop_last(), radix) >= 0,
                radix >= 2,
        ;
    } else {
        lemma_numeral_monotone(s.drop_last(), radix, k);
        assert(s.drop_last().take(k) == s.take(k));
        let v = numeral_value(s.drop_last(), radix);
        assert(is_digit(s[s.len() - 1], radix));
        assert(v * radix >= v) by (nonlinear_arith)
            requires
                v >= 0,
                radix >= 2,
        ;
    }
}

/// The number that the digits denote, where there is at least one
/// digit, all are digits of the radix, and the number is at most
/// `limit`.
pub open spec fn magnitude_spec(digits: Seq<char>, radix: int, limit: int) -> Option<int> {
    if digits.len() > 0 && all_digits(digits, radix) && numeral_value(digits, radix) <= limit {
        Some(numeral_value(digits, radix))
    } else {
        None
    }
}

/// Reads digits of radix 8 or 10 into a number of at most `limit`.
pub fn parse_magnitude(digits: &[char], radix: u32, limit: u64) -> (r: Option<u64>)
    requires
        radix == 8 || radix == 10,
    ensures
        match r {
            Some(v) => magnitude_spec(digits@, radix as int, limit as int) == Some(v as int),
            None => magnitude_spec(digits@, radix as int, limit as int) is None,
        },
{
    if digits.len() == 0 {
        return None;
    }
    let mut acc: u64 = 0;
    let mut i: usize = 0;
    while i < digits.len()
        invariant
            radix == 8 || radix == 10,
            i <= digits.len(),
            all_digits(digits@.take(i as int), radix as int),
            acc == numeral_value(digits@.take(i as int), radix as int),
            acc <= limit,
        decreases digits.len() - i,
    {
        let c = digits[i];
        let top: char = if radix == 8 {
            '7'
        } else {
            '9'
        };
        if c < '0' || c > top {
            assert('7' as int == '0' as int + 7 && '9' as int == '0' as int + 9);
            assert(!is_digit(digits@[i as int], radix as int));
            return None;
        }
        let d: u128 = (c as u32 - '0' as u32) as u128;
        assert(acc * radix <= 0xFFFF_FFFF_FFFF_FFFF * 10) by (nonlinear_arith)
            requires
                acc <= 0xFFFF_FFFF_FFFF_FFFF,
                radix <= 10,
        ;
        assert(digits@.take(i + 1).drop_last() == digits@.take(i as int));
        assert(digits@.take(i + 1).last() == c);
        let next: u128 = (acc as u128) * (radix as u128) + d;
        assert(all_digits(digits@.take(i + 1), radix as int)) by {
            assert forall|j: int| 0 <= j < i + 1 implies is_digit(
                #[trigger] digits@.take(i + 1)[j],
                radix as int,
            ) by {
                if j < i {
                    assert(digits@.take(i as int)[j] == digits@[j]);
                }
            }
        }
        if next > limit as u128 {
            proof {
                if all_digits(digits@, radix as int) {
                    lemma_numeral_monotone(digits@, radix as int, i + 1);
                }
            }
            return None;
        }
        acc = next as u64;
        i += 1;
    }
    assert(digits@.take(i as int) == digits@);
    Some(acc)
}

/// Reads an unsigned numeral of radix 8 or 10 into a `u32`.
pub fn parse_u32(s: &[char], radix: u32) -> (r: Option<u32>)
    requires
        radix == 8 || radix == 10,
    ensures
        r == parse_u32_spec(s@, radix as int),
{
    let start: usize = if s.len() > 0 && s[0] == '+' {
        1
    } else {
        0
    };
    let body = slice_chars(s, start, s.len());
    assert(body@ == unsigned_body(s@));
    match parse_magnitude(body.as_slice(), radix, 0xFFFF_FFFF) {
        Some(v) => Some(v as u32),
        None => None,
    }
}

/// The digits of a numeral once an optional leading sign is removed.
pub open spec fn signed_body(s: Seq<char>) -> Seq<char> {
    if s.len() > 0 && (s[0] == '+' || s[0] == '-') {
        s.skip(1)
    } else {
        s
    }
}

/// The `i64` that `s` denotes in decimal: an optional sign, then one or
/// more digits whose value fits. Anything else denotes nothing.
pub open spec fn parse_i64_spec(s: Seq<char>) -> Option<i64> {
    if s.len() > 0 && s[0] == '-' {
        match magnitude_spec(signed_body(s), 10, 0x8000_0000_0000_0000) {
            Some(m) => Some((-m) as i64),
            None => None,
        }
    } else {
        match magnitude_spec(signed_body(s), 10, 0x7FFF_FFFF_FFFF_FFFF) {
            Some(m) => Some(m as i64),
            None => None,
        }
    }
}

/// Reads a signed decimal numeral into an `i64`.
pub fn parse_i64(s: &[char]) -> (r: Option<i64>)
    ensures
        r == parse_i64_spec(s@),
{
    let negative = s.len() > 0 && s[0] == '-';
    let start: usize = if s.len() > 0 && (s[0] == '+' || s[0] == '-') {
        1
    } else {
        0
    };
    let body = slice_chars(s, start, s.len());
    assert(body@ == signed_body(s@));
    if negative {
        match parse_magnitude(body.as_slice(), 10, 0x8000_0000_0000_0000) {
            Some(m) => {
                if m == 0x8000_0000_0000_0000 {
                    Some(i64::MIN)
                } else {
                    Some(0 - (m as i64))
                }
            },
            None => None,
        }
    } else {
        match parse_magnitude(body.as_slice(), 10, 0x7FFF_FFFF_FFFF_FFFF) {
            Some(m) => Some(m as i64),
            None => None,
        }
    }
}

/// Whether `c` is white space: a blank, a control character between tab
/// and carriage return, or one of the spaces and line separators beyond
/// ASCII.
pub open spec fn is_whitespace(c: char) -> bool {
    c == ' ' || ('\t' <= c <= '\r') || c == '\u{85}' || c == '\u{a0}' || c == '\u{1680}' || (
    '\u{2000}' <= c <= '\u{200a}') || c == '\u{2028}' || c == '\u{2029}' || c == '\u{202f}' || c
        == '\u{205f}' || c == '\u{3000}'
}

/// Whether `c` is white space.
pub fn is_space(c: char) -> (r: bool)
    ensures
        r == is_whitespace(c),
{
    c == ' ' || ('\t' <= c && c <= '\r') || c == '\u{85}' || c == '\u{a0}' || c == '\u{1680}' || (
    '\u{2000}' <= c && c <= '\u{200a}') || c == '\u{2028}' || c == '\u{2029}' || c == '\u{202f}'
        || c == '\u{205f}' || c == '\u{3000}'
}

/// `s` without the white space at its end.
pub open spec fn trim_end_spec(s: Seq<char>) -> Seq<char>
    decreases s.len(),
{
    if s.len() > 0 && is_whitespace(s.last()) {
        trim_end_spec(s.drop_last())
    } else {
        s
    }
}

/// `s` without the white space at its start.
pub open spec fn trim_start_spec(s: Seq<char>) -> Seq<char>
    decreases s.len(),
{
    if s.len() > 0 && is_whitespace(s[0]) {
        trim_start_spec(s.skip(1))
    } else {
        s
    }
}

/// `s` without the white space at its start and at its end.
pub open spec fn trim_spec(s: Seq<char>) -> Seq<char> {
    trim_end_spec(trim_start_spec(s))
}

/// Removes the white space at the end of `s`.
pub fn trim_end(s: &[char]) -> (r: Vec<char>)
    ensures
        r@ == trim_end_spec(s@),
{
    let mut n: usize = s.len();
    assert(s@.take(n as int) == s@);
    while n > 0 && is_space(s[n - 1])
        invariant
            n <= s.len(),
            trim_end_spec(s@) == trim_end_spec(s@.take(n as int)),
        decreases n,
    {
        assert(s@.take(n as int).drop_last() == s@.take(n - 1));
        n -= 1;
    }
    slice_chars(s, 0, n)
}

/// Removes the white space at the start and at the end of `s`.
pub fn trim(s: &[char]) -> (r: Vec<char>)
    ensures
        r@ == trim_spec(s@),
{
    let mut k: usize = 0;
    assert(s@.skip(0) == s@);
    while k < s.len() && is_space(s[k])
        invariant
            k <= s.len(),
            trim_start_spec(s@) == trim_start_spec(s@.skip(k as int)),
        decreases s.len() - k,
    {
        assert(s@.skip(k as int).skip(1) == s@.skip(k + 1));
        k += 1;
    }
    let rest = slice_chars(s, k, s.len());
    assert(rest@ == s@.skip(k as int));
    trim_end(rest.as_slice())
}

/// The words of `s`: its longest runs of characters that are not white
/// space, in order.
pub open spec fn words_spec(s: Seq<char>) -> Seq<Seq<char>>
    decreases s.len(),
{
    if s.len() == 0 {
        Seq::empty()
    } else {
        let before = words_spec(s.drop_last());
        if is_whitespace(s.last()) {
            before
        } else if s.len() >= 2 && !is_whitespace(s[s.len() - 2]) {
            before.drop_last().push(before.last().push(s.last()))
        } else {
            before.push(seq![s.last()])
        }
    }
}

/// Cuts `s` into its words.
pub fn split_whitespace(s: &[char]) -> (r: Vec<Vec<char>>)
    ensures
        rows(r@) == words_spec(s@),
{
    let mut out: Vec<Vec<char>> = Vec::new();
    let mut cur: Vec<char> = Vec::new();
    let mut in_word = false;
    let mut i: usize = 0;
    while i < s.len()
        invariant
            i <= s.len(),
            in_word ==> i > 0 && !is_whitespace(s@[i - 1]) && rows(out@).push(cur@) == words_spec(
                s@.take(i as int),
            ),
            !in_word ==> (i == 0 || is_whitespace(s@[i - 1])) && rows(out@) == words_spec(
                s@.take(i as int),
            ),
        decreases s.len() - i,
    {
        let c = s[i];
        let ghost now = s@.take(i + 1);
        assert(now.drop_last() == s@.take(i as int));
        assert(now.last() == c);
        if i > 0 {
            assert(now[now.len() - 2] == s@[i - 1]);
        }
        if is_space(c) {
            if in_word {
                let ghost before = out@;
                out.push(cur);
                assert(rows(out@) == rows(before).push(out@.last()@));
                cur = Vec::new();
                in_word = false;
            }
        } else {
            if in_word {
                let ghost w = words_spec(s@.take(i as int));
                assert(w.drop_last() == rows(out@));
                cur.push(c);
            } else {
                cur = Vec::new();
                cur.push(c);
                assert(cur@ == seq![c]);
                in_word = true;
            }
        }
        i += 1;
    }
    assert(s@.take(s.len() as int) == s@);
    if in_word {
        let ghost before = out@;
        out.push(cur);
        assert(rows(out@) == rows(before).push(out@.last()@));
    }
    out
}

/// The character of a digit below ten.
pub open spec fn digit_char(d: int) -> char {
    (('0' as int) + d) as char
}

/// The decimal numeral of `n`, without leading zeros.
pub open spec fn decimal(n: nat) -> Seq<char>
    decreases n,
{
    if n < 10 {
        seq![digit_char(n as int)]
    } else {
        decimal(n / 10).push(digit_char((n % 10) as int))
    }
}

/// A decimal numeral is made of one or more digits and denotes the
/// number that it was written for.
pub proof fn lemma_decimal_value(n: nat)
    ensures
        decimal(n).len() > 0,
        all_digits(decimal(n), 10),
        numeral_value(decimal(n), 10) == n,
    decreases n,
{
    let s = decimal(n);
    if n < 10 {
        assert(s.drop_last() == Seq::<char>::empty());
        assert(numeral_value(s.drop_last(), 10) == 0);
        assert(digit_value(s.last()) == n);
    } else {
        lemma_decimal_value(n / 10);
        let before = decimal(n / 10);
        assert(s.drop_last() == before);
        assert(digit_value(s.last()) == n % 10);
        assert forall|i: int| 0 <= i < s.len() implies is_digit(#[trigger] s[i], 10) by {
            if i < before.len() {
                assert(s[i] == before[i]);
            }
        }
    }
}

/// Appends the decimal numeral of `n` to `out`.
pub fn push_decimal(out: &mut Vec<char>, n: u64)
    ensures
        final(out)@ == old(out)@ + decimal(n as nat),
    decreases n,
{
    if n >= 10 {
        push_decimal(out, n / 10);
    }
    let d: u8 = (n % 10) as u8;
    out.push((48u8 + d) as char);
    proof {
        if n >= 10 {
            assert(old(out)@ + decimal(n as nat) == (old(out)@ + decimal((n / 10) as nat)).push(
                digit_char((n % 10) as int),
            ));
        } else {
            assert(old(out)@ + decimal(n as nat) == old(out)@.push(digit_char(n as int)));
        }
    }
}

/// The character of a hexadecimal digit, in lower case.
pub open spec fn hex_char(d: int) -> char {
    if d < 10 {
        (('0' as int) + d) as char
    } else {
        (('a' as int) + d - 10) as char
    }
}

/// The two lower-case hexadecimal digits of a byte.
pub open spec fn hex_byte(b: u8) -> Seq<char> {
    seq![hex_char(b as int / 16), hex_char(b as int % 16)]
}

/// Appends the two lower-case hexadecimal digits of `b` to `out`.
pub fn push_hex_byte(out: &mut Vec<char>, b: u8)
    ensures
        final(out)@ == old(out)@ + hex_byte(b),
{
    let hi: u8 = b / 16;
    let lo: u8 = b % 16;
    let ch: char = if hi < 10 {
        (48u8 + hi) as char
    } else {
        (97u8 + (hi - 10)) as char
    };
    let cl: char = if lo < 10 {
        (48u8 + lo) as char
    } else {
        (97u8 + (lo - 10)) as char
    };
    out.push(ch);
    out.push(cl);
    assert(out@ == old(out)@ + hex_byte(b));
}

} // verus!
