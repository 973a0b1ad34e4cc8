//! Character-level helpers shared by the parsers: character classes, decimal
//! numbers, and the conversion between strings and character vectors.

use vstd::prelude::*;
use vstd::std_specs::iter::IteratorSpec;
use vstd::string::*;

verus! {

/// An ASCII decimal digit.
pub open spec fn is_digit(c: char) -> bool {
    '0' <= c && c <= '9'
}

/// ASCII whitespace: space, tab, line feed, vertical tab, form feed, carriage return.
pub open spec fn is_space(c: char) -> bool {
    c == ' ' || ('\t' <= c && c <= '\r')
}

/// The value of a decimal digit.
pub open spec fn digit_value(c: char) -> nat
    recommends
        is_digit(c),
{
    (c as u32 - '0' as u32) as nat
}

/// Every character of `s` is a decimal digit.
pub open spec fn all_digits(s: Seq<char>) -> bool {
    forall|i: int| 0 <= i < s.len() ==> is_digit(#[trigger] s[i])
}

/// The number that a string of decimal digits writes, most significant digit first.
pub open spec fn decimal_value(s: Seq<char>) -> nat
    decreases s.len(),
{
    if s.len() == 0 {
        0
    } else {
        decimal_value(s.drop_last()) * 10 + digit_value(s.last())
    }
}

/// Whether a character is an ASCII decimal digit.
pub fn char_is_digit(c: char) -> (b: bool)
    ensures
        b == is_digit(c),
{
    '0' <= c && c <= '9'
}

/// Whether a character is ASCII whitespace.
pub fn char_is_space(c: char) -> (b: bool)
    ensures
        b == is_space(c),
{
    c == ' ' || ('\t' <= c && c <= '\r')
}

/// The characters of a string, in order.
pub fn to_chars(s: &str) -> (v: Vec<char>)
    ensures
        v@ == s@,
{
    let mut v: Vec<char> = Vec::new();
    let it = s.chars();
    for c in iter: it
        invariant
            iter.seq() == s@,
            v@ == s@.take(iter.index() as int),
    {
        v.push(c);
        assert(s@.take(iter.index() + 1) == s@.take(iter.index() as int).push(c));
    }
    assert(s@.take(s@.len() as int) == s@);
    v
}

/// Whether two strings hold the same characters.
pub fn str_eq(a: &str, b: &str) -> (r: bool)
    ensures
        r == (a@ == b@),
{
    let x = a.as_bytes();
    let y = b.as_bytes();
    proof {
        vstd::utf8::encode_utf8_decode_utf8(a@);
        vstd::utf8::encode_utf8_decode_utf8(b@);
    }
    if x.len() != y.len() {
        return false;
    }
    let mut i: usize = 0;
    while i < x.len()
        invariant
            i <= x.len(),
            x.len() == y.len(),
            x@ == vstd::utf8::encode_utf8(a@),
            y@ == vstd::utf8::encode_utf8(b@),
            forall|j: int| 0 <= j < i ==> x@[j] == y@[j],
        decreases x.len() - i,
    {
        if x[i] != y[i] {
            return false;
        }
        i += 1;
    }
    assert(x@ =~= y@);
    true
}

/// A number is at least the number that its leading digits write.
pub proof fn lemma_decimal_prefix(s: Seq<char>, k: int)
    requires
        0 <= k <= s.len(),
    ensures
        decimal_value(s.take(k)) <= decimal_value(s),
    decreases s.len(),
{
    if k == s.len() {
        assert(s.take(k) =~= s);
    } else {
        lemma_decimal_prefix(s.drop_last(), k);
        assert(s.drop_last().take(k) =~= s.take(k));
    }
}

/// Reads the decimal number that the characters from `from` up to `to`
/// write. Returns `None` where one of them is no digit, or the number is too
/// large for 32 bits.
pub fn parse_decimal(v: &Vec<char>, from: usize, to: usize) -> (r: Option<u32>)
    requires
        from <= to <= v.len(),
    ensures
        match r {
            Some(n) => all_digits(v@.subrange(from as int, to as int)) && n == decimal_value(
                v@.subrange(from as int, to as int),
            ),
            None => !all_digits(v@.subrange(from as int, to as int)) || decimal_value(
                v@.subrange(from as int, to as int),
            ) > u32::MAX,
        },
{
    let ghost whole = v@.subrange(from as int, to as int);
    let mut acc: u32 = 0;
    let mut i: usize = from;
    proof {
        assert(v@.subrange(from as int, from as int) =~= Seq::<char>::empty());
    }
    while i < to
        invariant
            from <= i <= to <= v.len(),
            whole == v@.subrange(from as int, to as int),
            forall|k: int| 0 <= k < i - from ==> is_digit(#[trigger] whole[k]),
            acc == decimal_value(v@.subrange(from as int, i as int)),
        decreases to - i,
    {
        let c = v[i];
        assert(whole[i - from] == c);
        if !char_is_digit(c) {
            return None;
        }
        proof {
            let next = v@.subrange(from as int, i + 1);
            assert(next.drop_last() =~= v@.subrange(from as int, i as int));
            assert(next.last() == c);
            assert(decimal_value(next) == acc * 10 + digit_value(c));
            assert(whole.take(i + 1 - from) =~= next);
            lemma_decimal_prefix(whole, i + 1 - from);
        }
        let d: u32 = (c as u32) - ('0' as u32);
        match acc.checked_mul(10) {
            None => {
                return None;
            },
            Some(m) => match m.checked_add(d) {
                None => {
                    return None;
                },
                Some(n) => {
                    acc = n;
                },
            },
        }
        i += 1;
    }
    Some(acc)
}

/// The first position at or after `from` that holds no whitespace.
pub open spec fn spaces_end(s: Seq<char>, from: int) -> int
    decreases s.len() - from,
{
    if 0 <= from < s.len() && is_space(s[from]) {
        spaces_end(s, from + 1)
    } else {
        from
    }
}

/// The first position at or after `from` that holds no digit.
pub open spec fn digits_end(s: Seq<char>, from: int) -> int
    decreases s.len() - from,
{
    if 0 <= from < s.len() && is_digit(s[from]) {
        digits_end(s, from + 1)
    } else {
        from
    }
}

/// Position `i` of `s` holds `c`.
pub open spec fn char_at(s: Seq<char>, i: int, c: char) -> bool {
    0 <= i < s.len() && s[i] == c
}

/// Where an account identifier that starts at `at` ends: `U`, a colon, one
/// digit, a colon, one or more digits.
pub open spec fn steamid_end(s: Seq<char>, at: int) -> Option<int> {
    if char_at(s, at, 'U') && char_at(s, at + 1, ':') && at + 2 < s.len() && is_digit(s[at + 2])
        && char_at(s, at + 3, ':') && digits_end(s, at + 4) > at + 4 {
        Some(digits_end(s, at + 4))
    } else {
        None
    }
}

/// Skips whitespace from `from` on.
pub(crate) fn skip_spaces(v: &Vec<char>, from: usize) -> (r: usize)
    requires
        from <= v.len(),
    ensures
        r == spaces_end(v@, from as int),
        from <= r <= v.len(),
{
    let mut i: usize = from;
    while i < v.len() && char_is_space(v[i])
        invariant
            from <= i <= v.len(),
            spaces_end(v@, from as int) == spaces_end(v@, i as int),
        decreases v.len() - i,
    {
        i += 1;
    }
    i
}

/// Skips digits from `from` on.
pub(crate) fn skip_digits(v: &Vec<char>, from: usize) -> (r: usize)
    requires
        from <= v.len(),
    ensures
        r == digits_end(v@, from as int),
        from <= r <= v.len(),
        all_digits(v@.subrange(from as int, r as int)),
{
    let mut i: usize = from;
    while i < v.len() && char_is_digit(v[i])
        invariant
            from <= i <= v.len(),
            digits_end(v@, from as int) == digits_end(v@, i as int),
            forall|k: int| from <= k < i ==> is_digit(v@[k]),
        decreases v.len() - i,
    {
        i += 1;
    }
    i
}

/// Whether position `i` holds `c`.
pub(crate) fn holds(v: &Vec<char>, i: usize, c: char) -> (r: bool)
    ensures
        r == char_at(v@, i as int, c),
{
    i < v.len() && v[i] == c
}

/// Reads an account identifier at `at` and returns where it ends.
pub(crate) fn read_steamid(v: &Vec<char>, at: usize) -> (r: Option<usize>)
    requires
        at <= v.len(),
    ensures
        match r {
            Some(e) => steamid_end(v@, at as int) == Some(e as int) && at + 4 < e <= v.len()
                && all_digits(v@.subrange(at + 4, e as int)),
            None => steamid_end(v@, at as int) is None,
        },
{
    if v.len() - at < 5 {
        return None;
    }
    if v[at] == 'U' && v[at + 1] == ':' && char_is_digit(v[at + 2]) && v[at + 3] == ':' {
        let e = skip_digits(v, at + 4);
        if e > at + 4 {
            Some(e)
        } else {
            None
        }
    } else {
        None
    }
}

/// The characters from `from` up to `to` as a string.
pub fn slice_text(v: &Vec<char>, from: usize, to: usize) -> (r: String)
    requires
        from <= to <= v.len(),
    ensures
        r@ == v@.subrange(from as int, to as int),
{
    let mut r = String::new();
    let mut i: usize = from;
    while i < to
        invariant
            from <= i <= to <= v.len(),
            r@ == v@.subrange(from as int, i as int),
        decreases to - i,
    {
        r.push(v[i]);
        assert(r@ =~= v@.subrange(from as int, i + 1));
        i += 1;
    }
    r
}

/// The first position at or after `from` that holds a line feed, or the
/// length of `s` where there is none.
pub open spec fn line_end(s: Seq<char>, from: int) -> int
    decreases s.len() - from,
{
    if 0 <= from < s.len() && s[from] != '\n' {
        line_end(s, from + 1)
    } else {
        from
    }
}

/// A line without the carriage return at its end, if it has one.
pub open spec fn without_cr(line: Seq<char>) -> Seq<char> {
    if line.len() > 0 && line.last() == '\r' {
        line.drop_last()
    } else {
        line
    }
}

/// The lines of a text. A line ends at a line feed; the line feed, and a
/// carriage return before it, are not part of the line. What follows the
/// last line feed is a line if it is not empty.
pub open spec fn lines_of(s: Seq<char>) -> Seq<Seq<char>>
    decreases s.len(),
{
    if s.len() == 0 {
        Seq::empty()
    } else {
        let n = line_end(s, 0);
        if 0 <= n < s.len() {
            seq![without_cr(s.take(n))] + lines_of(s.skip(n + 1))
        } else {
            seq![s]
        }
    }
}

/// The end of the line has the same distance from the start in a text and
/// in what is left of it after skipping.
pub proof fn lemma_line_end_skip(s: Seq<char>, k: int, from: int)
    requires
        0 <= k <= from <= s.len(),
    ensures
        line_end(s.skip(k), from - k) == line_end(s, from) - k,
    decreases s.len() - from,
{
    if from < s.len() && s[from] != '\n' {
        lemma_line_end_skip(s, k, from + 1);
    }
}

/// The lines of a text.
pub fn split_lines(text: &str) -> (lines: Vec<String>)
    ensures
        crate::player::texts(lines@) == lines_of(text@),
{
    let v = to_chars(text);
    let mut lines: Vec<String> = Vec::new();
    let mut pos: usize = 0;
    proof {
        assert(v@.skip(0) =~= v@);
        assert(crate::player::texts(lines@) =~= Seq::<Seq<char>>::empty());
    }
    while pos < v.len()
        invariant
            pos <= v.len(),
            v@ == text@,
            lines_of(text@) == crate::player::texts(lines@) + lines_of(v@.skip(pos as int)),
        decreases v.len() - pos,
    {
        let mut end: usize = pos;
        while end < v.len() && v[end] != '\n'
            invariant
                pos <= end <= v.len(),
                line_end(v@, pos as int) == line_end(v@, end as int),
            decreases v.len() - end,
        {
            end += 1;
        }
        let ghost rest = v@.skip(pos as int);
        let ghost before = crate::player::texts(lines@);
        proof {
            lemma_line_end_skip(v@, pos as int, pos as int);
            assert(line_end(rest, 0) == end - pos);
        }
        if end < v.len() {
            let stop: usize = if end > pos && v[end - 1] == '\r' {
                end - 1
            } else {
                end
            };
            let line = slice_text(&v, pos, stop);
            proof {
                assert(rest.take(end - pos) =~= v@.subrange(pos as int, end as int));
                assert(without_cr(rest.take(end - pos)) =~= v@.subrange(pos as int, stop as int));
                assert(rest.skip(end - pos + 1) =~= v@.skip(end + 1));
            }
            lines.push(line);
            proof {
                assert(crate::player::texts(lines@) =~= before.push(line@));
                assert(before + (seq![line@] + lines_of(v@.skip(end + 1))) =~= before.push(line@)
                    + lines_of(v@.skip(end + 1)));
            }
            pos = end + 1;
        } else {
            let line = slice_text(&v, pos, end);
            proof {
                assert(rest =~= v@.subrange(pos as int, end as int));
                assert(v@.skip(end as int) =~= Seq::<char>::empty());
            }
            lines.push(line);
            proof {
                assert(crate::player::texts(lines@) =~= before.push(line@));
                assert(before + seq![line@] =~= before.push(line@) + lines_of(v@.skip(end as int)));
            }
            pos = end;
        }
    }
    proof {
        assert(v@.skip(pos as int) =~= Seq::<char>::empty());
        assert(crate::player::texts(lines@) + Seq::<Seq<char>>::empty()
            =~= crate::player::texts(lines@));
    }
    lines
}

/// The character that writes a digit below ten.
pub open spec fn digit_char(d: nat) -> char
    recommends
        d < 10,
{
    if d == 0 {
        '0'
    } else if d == 1 {
        '1'
    } else if d == 2 {
        '2'
    } else if d == 3 {
        '3'
    } else if d == 4 {
        '4'
    } else if d == 5 {
        '5'
    } else if d == 6 {
        '6'
    } else if d == 7 {
        '7'
    } else if d == 8 {
        '8'
    } else {
        '9'
    }
}

/// A number written in decimal, without leading zeros.
pub open spec fn decimal_digits(n: nat) -> Seq<char>
    decreases n,
{
    if n < 10 {
        seq![digit_char(n)]
    } else {
        decimal_digits(n / 10).push(digit_char(n % 10))
    }
}

/// The one-character string that writes a digit below ten.
pub(crate) fn digit_str(d: u32) -> (r: &'static str)
    requires
        d < 10,
    ensures
        r@ == seq![digit_char(d as nat)],
{
    proof {
        reveal_strlit("0");
        reveal_strlit("1");
        reveal_strlit("2");
        reveal_strlit("3");
        reveal_strlit("4");
        reveal_strlit("5");
        reveal_strlit("6");
        reveal_strlit("7");
        reveal_strlit("8");
        reveal_strlit("9");
    }
    let r: &'static str = if d == 0 {
        "0"
    } else if d == 1 {
        "1"
    } else if d == 2 {
        "2"
    } else if d == 3 {
        "3"
    } else if d == 4 {
        "4"
    } else if d == 5 {
        "5"
    } else if d == 6 {
        "6"
    } else if d == 7 {
        "7"
    } else if d == 8 {
        "8"
    } else {
        "9"
    };
    assert(r@ =~= seq![digit_char(d as nat)]);
    r
}

/// Appends a number in decimal to a string.
pub fn push_decimal(out: &mut String, n: u32)
    ensures
        final(out)@ == old(out)@ + decimal_digits(n as nat),
    decreases n,
{
    if n >= 10 {
        push_decimal(out, n / 10);
    }
    out.append(digit_str(n % 10));
    assert(out@ =~= old(out)@ + decimal_digits(n as nat));
}

} // verus!
