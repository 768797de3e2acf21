//! Text as sequences of characters: cutting into pieces and lines, trimming,
//! searching, comparing and decimal numbers.
//!
//! Every length in this crate counts characters, never bytes.

use vstd::prelude::*;
use vstd::string::StringExecFns;

verus! {

/// Believed, not proved: `String::push` of the standard library adds the
/// character at the end and changes nothing else.
pub assume_specification[ String::push ](s: &mut String, c: char)
    ensures
        final(s)@ == old(s)@.push(c),
;

/// Believed, not proved: `String::pop` of the standard library leaves an
/// empty string empty and gives `None`; from any other it takes the last
/// character away and returns it.
pub assume_specification[ String::pop ](s: &mut String) -> (r: Option<char>)
    ensures
        old(s)@.len() == 0 ==> r is None && final(s)@ == old(s)@,
        old(s)@.len() > 0 ==> r == Some(old(s)@.last()) && final(s)@ == old(s)@.drop_last(),
;

/// The character sequences held by a vector of character vectors.
pub open spec fn texts(v: Seq<Vec<char>>) -> Seq<Seq<char>> {
    Seq::new(v.len(), |i: int| v[i]@)
}

/// A result that holds texts, as plain values.
pub open spec fn told(r: Result<String, String>) -> Result<Seq<char>, Seq<char>> {
    match r {
        Ok(t) => Ok(t@),
        Err(t) => Err(t@),
    }
}

/// The character sequences held by a vector of strings.
pub open spec fn strings(v: Seq<String>) -> Seq<Seq<char>> {
    Seq::new(v.len(), |i: int| v[i]@)
}

/// The characters of `s`, in order.
pub fn chars_of(s: &str) -> (v: Vec<char>)
    ensures
        v@ == s@,
{
    let mut v: Vec<char> = Vec::new();
    for c in it: s.chars()
        invariant
            it.seq() == s@,
            v@ == s@.take(it.index()),
    {
        v.push(c);
    }
    v
}

/// The string made of `chars[from..to]`.
pub fn text_between(chars: &Vec<char>, from: usize, to: usize) -> (s: String)
    requires
        from <= to <= chars@.len(),
    ensures
        s@ == chars@.subrange(from as int, to as int),
{
    let mut s = String::new();
    let mut i: usize = from;
    while i < to
        invariant
            from <= i <= to <= chars@.len(),
            s@ == chars@.subrange(from as int, i as int),
        decreases to - i,
    {
        s.push(chars[i]);
        i += 1;
    }
    s
}

/// The string made of all of `chars`.
pub fn text_of(chars: &Vec<char>) -> (s: String)
    ensures
        s@ == chars@,
{
    let s = text_between(chars, 0, chars.len());
    s
}

/// Whether `chars` spells `word`.
pub fn spells(chars: &Vec<char>, word: &str) -> (r: bool)
    ensures
        r == (chars@ == word@),
{
    let w = chars_of(word);
    if w.len() != chars.len() {
        return false;
    }
    let mut i: usize = 0;
    while i < w.len()
        invariant
            i <= w@.len(),
            w@.len() == chars@.len(),
            w@ == word@,
            chars@.take(i as int) == w@.take(i as int),
        decreases w@.len() - i,
    {
        if chars[i] != w[i] {
            return false;
        }
        i += 1;
    }
    assert(chars@.take(i as int) == chars@);
    assert(w@.take(i as int) == w@);
    true
}

/// `rest` with `head` put in front of its first piece.
pub open spec fn lead(head: Seq<char>, rest: Seq<Seq<char>>) -> Seq<Seq<char>> {
    seq![head + rest[0]] + rest.skip(1)
}

/// `s` cut at every `sep`. The separators are not part of the pieces, and
/// there is always at least one piece. With `escaped`, a backslash directly
/// before a `sep` is dropped and that `sep` stays in its piece as an ordinary
/// character.
pub open spec fn pieces(s: Seq<char>, sep: char, escaped: bool) -> Seq<Seq<char>>
    decreases s.len(),
{
    if s.len() == 0 {
        seq![Seq::empty()]
    } else if escaped && s.len() >= 2 && s[0] == '\\' && s[1] == sep {
        lead(seq![sep], pieces(s.skip(2), sep, escaped))
    } else if s[0] == sep {
        seq![Seq::empty()] + pieces(s.skip(1), sep, escaped)
    } else {
        lead(seq![s[0]], pieces(s.skip(1), sep, escaped))
    }
}

/// There is always a first piece.
pub proof fn lemma_pieces_nonempty(s: Seq<char>, sep: char, escaped: bool)
    ensures
        pieces(s, sep, escaped).len() >= 1,
    decreases s.len(),
{
    if s.len() == 0 {
    } else if escaped && s.len() >= 2 && s[0] == '\\' && s[1] == sep {
        lemma_pieces_nonempty(s.skip(2), sep, escaped);
    } else {
        lemma_pieces_nonempty(s.skip(1), sep, escaped);
    }
}

/// `parts` in a row, with `sep` between neighbours.
pub open spec fn glued(parts: Seq<Seq<char>>, sep: char) -> Seq<char>
    decreases parts.len(),
{
    if parts.len() == 0 {
        Seq::empty()
    } else if parts.len() == 1 {
        parts[0]
    } else {
        parts[0] + seq![sep] + glued(parts.skip(1), sep)
    }
}

/// One more part at the end goes behind a separator, or stands alone where
/// it is the first.
pub proof fn lemma_glued_push(parts: Seq<Seq<char>>, sep: char, part: Seq<char>)
    ensures
        glued(parts.push(part), sep) == if parts.len() == 0 {
            part
        } else {
            glued(parts, sep) + seq![sep] + part
        },
    decreases parts.len(),
{
    if parts.len() > 0 {
        assert(parts.push(part).skip(1) == parts.skip(1).push(part));
        lemma_glued_push(parts.skip(1), sep, part);
    }
}

/// Cutting without escapes is the reverse of gluing: the pieces of `s`, with
/// `sep` put between them again, are `s`, and no piece holds a `sep`.
pub proof fn lemma_pieces_glued(s: Seq<char>, sep: char)
    ensures
        glued(pieces(s, sep, false), sep) == s,
        forall|i: int|
            0 <= i < pieces(s, sep, false).len() ==> !(#[trigger] pieces(s, sep, false)[i]).contains(
                sep,
            ),
    decreases s.len(),
{
    let all = pieces(s, sep, false);
    if s.len() > 0 {
        let rest = pieces(s.skip(1), sep, false);
        lemma_pieces_glued(s.skip(1), sep);
        lemma_pieces_nonempty(s.skip(1), sep, false);
        assert(seq![s[0]] + s.skip(1) == s);
        if s[0] == sep {
            assert(all.skip(1) == rest);
            assert forall|i: int| 0 <= i < all.len() implies !(#[trigger] all[i]).contains(sep) by {
                if i > 0 {
                    assert(all[i] == rest[i - 1]);
                }
            }
        } else {
            assert(all.skip(1) == rest.skip(1));
            assert forall|i: int| 0 <= i < all.len() implies !(#[trigger] all[i]).contains(sep) by {
                if i > 0 {
                    assert(all[i] == rest[i]);
                } else if all[0].contains(sep) {
                    let k = choose|k: int| 0 <= k < all[0].len() && all[0][k] == sep;
                    assert(rest[0][k - 1] == sep);
                }
            }
        }
    }
}

/// Putting `c` in front of the first piece and then `cur` in front of that is
/// putting `cur` followed by `c` in front of it.
proof fn lemma_lead_twice(cur: Seq<char>, c: char, rest: Seq<Seq<char>>)
    requires
        rest.len() >= 1,
    ensures
        lead(cur, lead(seq![c], rest)) == lead(cur.push(c), rest),
{
    assert(cur + (seq![c] + rest[0]) == cur.push(c) + rest[0]);
}

/// Cuts `s` at every `sep`, as [`pieces`] says.
pub fn split_pieces(s: &Vec<char>, sep: char, escaped: bool) -> (out: Vec<Vec<char>>)
    ensures
        texts(out@) == pieces(s@, sep, escaped),
{
    let mut out: Vec<Vec<char>> = Vec::new();
    let mut cur: Vec<char> = Vec::new();
    let mut i: usize = 0;
    proof {
        lemma_pieces_nonempty(s@, sep, escaped);
        assert(s@.skip(0) == s@);
    }
    while i < s.len()
        invariant
            i <= s@.len(),
            pieces(s@, sep, escaped) == texts(out@) + lead(
                cur@,
                pieces(s@.skip(i as int), sep, escaped),
            ),
        decreases s@.len() - i,
    {
        let ghost tail = s@.skip(i as int);
        let c = s[i];
        if escaped && c == '\\' && i + 1 < s.len() && s[i + 1] == sep {
            proof {
                assert(tail.skip(2) == s@.skip(i + 2));
                lemma_pieces_nonempty(tail.skip(2), sep, escaped);
                lemma_lead_twice(cur@, sep, pieces(tail.skip(2), sep, escaped));
            }
            cur.push(sep);
            i += 2;
        } else if c == sep {
            proof {
                assert(tail.skip(1) == s@.skip(i + 1));
                lemma_pieces_nonempty(tail.skip(1), sep, escaped);
            }
            out.push(cur);
            cur = Vec::new();
            i += 1;
        } else {
            proof {
                assert(tail.skip(1) == s@.skip(i + 1));
                lemma_pieces_nonempty(tail.skip(1), sep, escaped);
                lemma_lead_twice(cur@, c, pieces(tail.skip(1), sep, escaped));
            }
            cur.push(c);
            i += 1;
        }
    }
    out.push(cur);
    out
}

/// `chars[from..to]` as a vector of its own.
pub fn copy_between(chars: &Vec<char>, from: usize, to: usize) -> (v: Vec<char>)
    requires
        from <= to <= chars@.len(),
    ensures
        v@ == chars@.subrange(from as int, to as int),
{
    let mut v: Vec<char> = Vec::new();
    let mut i: usize = from;
    while i < to
        invariant
            from <= i <= to <= chars@.len(),
            v@ == chars@.subrange(from as int, i as int),
        decreases to - i,
    {
        v.push(chars[i]);
        i += 1;
    }
    v
}

/// `line` without a carriage return at its end.
pub open spec fn without_cr(line: Seq<char>) -> Seq<char> {
    if line.len() > 0 && line.last() == '\r' {
        line.drop_last()
    } else {
        line
    }
}

/// The lines of `s`. A line ends with a line feed, or with a carriage return
/// directly followed by a line feed; neither is part of the line. What follows
/// the last line feed is a line too unless it is empty, and it keeps a
/// carriage return at its end.
pub open spec fn lines(s: Seq<char>) -> Seq<Seq<char>> {
    let cut = pieces(s, '\n', false);
    let ended = cut.drop_last().map_values(|l: Seq<char>| without_cr(l));
    if cut.last().len() == 0 {
        ended
    } else {
        ended.push(cut.last())
    }
}

/// Cuts `s` into its lines, as [`lines`] says.
pub fn split_lines(s: &Vec<char>) -> (out: Vec<Vec<char>>)
    ensures
        texts(out@) == lines(s@),
{
    let cut = split_pieces(s, '\n', false);
    proof {
        lemma_pieces_nonempty(s@, '\n', false);
    }
    let n: usize = cut.len();
    let ghost whole = texts(cut@);
    let ghost ended = whole.drop_last().map_values(|l: Seq<char>| without_cr(l));
    let mut out: Vec<Vec<char>> = Vec::new();
    let mut i: usize = 0;
    while i + 1 < n
        invariant
            n == cut@.len(),
            n >= 1,
            i + 1 <= n,
            whole == texts(cut@),
            ended == whole.drop_last().map_values(|l: Seq<char>| without_cr(l)),
            texts(out@) == ended.take(i as int),
        decreases n - i,
    {
        let piece = &cut[i];
        let m: usize = piece.len();
        let end: usize = if m > 0 && piece[m - 1] == '\r' {
            m - 1
        } else {
            m
        };
        let line = copy_between(piece, 0, end);
        assert(line@ == without_cr(piece@));
        assert(texts(out@.push(line)) == texts(out@).push(line@));
        out.push(line);
        i += 1;
    }
    assert(ended.take(i as int) == ended);
    let last = &cut[n - 1];
    if last.len() > 0 {
        let line = copy_between(last, 0, last.len());
        assert(line@ == last@);
        out.push(line);
    }
    out
}

/// Whether `c` is one of the ten decimal digits.
pub open spec fn is_digit(c: char) -> bool {
    48 <= c as u32 <= 57
}

/// The number that the decimal digits `s` spell; 0 for none.
pub open spec fn digits_value(s: Seq<char>) -> nat
    decreases s.len(),
{
    if s.len() == 0 {
        0
    } else {
        digits_value(s.drop_last()) * 10 + (s.last() as u32 - 48) as nat
    }
}

/// Whether `s` holds decimal digits only.
pub open spec fn all_digits(s: Seq<char>) -> bool {
    forall|i: int| 0 <= i < s.len() ==> is_digit(#[trigger] s[i])
}

/// The number from 0 to 255 that `s` spells in decimal: one digit or more,
/// with leading zeros or one plus sign in front if any. `None` for any other
/// text and for a greater number.
pub open spec fn number(s: Seq<char>) -> Option<u8> {
    let body = if s.len() > 0 && s[0] == '+' {
        s.skip(1)
    } else {
        s
    };
    if body.len() > 0 && all_digits(body) && digits_value(body) <= 255 {
        Some(digits_value(body) as u8)
    } else {
        None
    }
}

/// More digits never spell a smaller number.
proof fn lemma_digits_grow(s: Seq<char>, k: int)
    requires
        0 <= k <= s.len(),
        all_digits(s),
    ensures
        digits_value(s.take(k)) <= digits_value(s),
    decreases s.len() - k,
{
    if k == s.len() {
        assert(s.take(k) == s);
    } else {
        let shorter = s.drop_last();
        assert(shorter.take(k) == s.take(k));
        assert forall|i: int| 0 <= i < shorter.len() implies is_digit(#[trigger] shorter[i]) by {
            assert(shorter[i] == s[i]);
        }
        lemma_digits_grow(shorter, k);
    }
}

/// Reads a number from 0 to 255, as [`number`] says.
pub fn parse_number(chars: &Vec<char>) -> (r: Option<u8>)
    ensures
        r == number(chars@),
{
    let n: usize = chars.len();
    let start: usize = if n > 0 && chars[0] == '+' {
        1
    } else {
        0
    };
    let ghost body = chars@.skip(start as int);
    assert(chars@.skip(0) == chars@);
    if start == n {
        return None;
    }
    let mut acc: u32 = 0;
    let mut i: usize = start;
    while i < n
        invariant
            start < n,
            start <= i <= n,
            n == chars@.len(),
            start == (if chars@.len() > 0 && chars@[0] == '+' {
                1int
            } else {
                0int
            }),
            body == chars@.skip(start as int),
            all_digits(body.take(i - start)),
            acc == digits_value(body.take(i - start)),
            acc <= 255,
        decreases n - i,
    {
        let c = chars[i];
        let code: u32 = c as u32;
        assert(body[i - start] == c);
        if code < 48 || code > 57 {
            return None;
        }
        let ghost longer = body.take(i - start + 1);
        proof {
            assert(longer.drop_last() == body.take(i - start));
            assert forall|j: int| 0 <= j < longer.len() implies is_digit(#[trigger] longer[j]) by {
                if j < i - start {
                    assert(longer[j] == body.take(i - start)[j]);
                }
            }
        }
        acc = acc * 10 + (code - 48);
        if acc > 255 {
            proof {
                assert(chars@.skip(0) == chars@);
                if all_digits(body) {
                    lemma_digits_grow(body, i - start + 1);
                }
            }
            return None;
        }
        i += 1;
    }
    assert(body.take(i - start) == body);
    Some(acc as u8)
}

/// The decimal digit for `d`, which is at most 9.
pub open spec fn digit_char(d: int) -> char {
    (48 + d) as u8 as char
}

/// `n` in decimal, with spaces in front up to three characters.
pub open spec fn three_wide(n: u8) -> Seq<char> {
    seq![
        if n >= 100 {
            digit_char(n as int / 100)
        } else {
            ' '
        },
        if n >= 10 {
            digit_char(n as int / 10 % 10)
        } else {
            ' '
        },
        digit_char(n as int % 10),
    ]
}

/// Adds `n` in decimal to `s`, three characters wide, as [`three_wide`] says.
pub fn push_three_wide(s: &mut String, n: u8)
    ensures
        final(s)@ == old(s)@ + three_wide(n),
{
    let hundreds: char = if n >= 100 {
        (48 + n / 100) as char
    } else {
        ' '
    };
    let tens: char = if n >= 10 {
        (48 + n / 10 % 10) as char
    } else {
        ' '
    };
    let ones: char = (48 + n % 10) as char;
    s.push(hundreds);
    s.push(tens);
    s.push(ones);
}

/// The code of `c`, with that of the small letter for an ASCII capital.
pub open spec fn folded(c: char) -> u32 {
    let n = c as u32;
    if 65 <= n <= 90 {
        (n + 32) as u32
    } else {
        n
    }
}

/// Whether `a` and `b` are the same text but for the case of ASCII letters.
pub open spec fn same_ignoring_case(a: Seq<char>, b: Seq<char>) -> bool {
    a.len() == b.len() && forall|i: int| 0 <= i < a.len() ==> folded(#[trigger] a[i]) == folded(b[i])
}

/// Compares two texts without regard to the case of ASCII letters.
pub fn eq_ignoring_case(a: &Vec<char>, b: &Vec<char>) -> (r: bool)
    ensures
        r == same_ignoring_case(a@, b@),
{
    if a.len() != b.len() {
        return false;
    }
    let mut i: usize = 0;
    while i < a.len()
        invariant
            i <= a@.len(),
            a@.len() == b@.len(),
            forall|j: int| 0 <= j < i ==> folded(#[trigger] a@[j]) == folded(b@[j]),
        decreases a@.len() - i,
    {
        let x: u32 = a[i] as u32;
        let y: u32 = b[i] as u32;
        let fx: u32 = if 65 <= x && x <= 90 {
            x + 32
        } else {
            x
        };
        let fy: u32 = if 65 <= y && y <= 90 {
            y + 32
        } else {
            y
        };
        if fx != fy {
            return false;
        }
        i += 1;
    }
    true
}

/// Whether `needle` stands in `hay` from index `i` on.
pub open spec fn occurs_at(hay: Seq<char>, needle: Seq<char>, i: int) -> bool {
    0 <= i && i + needle.len() <= hay.len() && hay.subrange(i, i + needle.len()) == needle
}

/// Whether `needle` stands somewhere in `hay`.
pub open spec fn has(hay: Seq<char>, needle: Seq<char>) -> bool {
    exists|i: int| occurs_at(hay, needle, i)
}

/// Whether `needle` stands in `hay` from index `at` on.
fn found_at(hay: &Vec<char>, needle: &Vec<char>, at: usize) -> (r: bool)
    requires
        at + needle@.len() <= hay@.len(),
    ensures
        r == occurs_at(hay@, needle@, at as int),
{
    let total: usize = hay.len();
    let mut k: usize = 0;
    while k < needle.len()
        invariant
            k <= needle@.len(),
            at + needle@.len() <= hay@.len() == total,
            forall|j: int| 0 <= j < k ==> hay@[at + j] == needle@[j],
        decreases needle@.len() - k,
    {
        if hay[at + k] != needle[k] {
            return false;
        }
        k += 1;
    }
    assert(hay@.subrange(at as int, at + needle@.len()) == needle@);
    true
}

/// Searches `hay` for `needle`.
pub fn contains(hay: &Vec<char>, needle: &Vec<char>) -> (r: bool)
    ensures
        r == has(hay@, needle@),
{
    if needle.len() > hay.len() {
        assert forall|i: int| !occurs_at(hay@, needle@, i) by {}
        return false;
    }
    let last: usize = hay.len() - needle.len();
    let mut at: usize = 0;
    while at < last
        invariant
            at <= last,
            last == hay@.len() - needle@.len(),
            forall|i: int| 0 <= i < at ==> !occurs_at(hay@, needle@, i),
        decreases last - at,
    {
        if found_at(hay, needle, at) {
            return true;
        }
        at += 1;
    }
    if found_at(hay, needle, last) {
        return true;
    }
    assert forall|i: int| !occurs_at(hay@, needle@, i) by {}
    false
}

/// `a` followed by `b`.
pub fn joined(a: &str, b: &str) -> (s: String)
    ensures
        s@ == a@ + b@,
{
    let mut s = a.to_owned();
    s.append(b);
    s
}

/// `a` followed by `b` and `c`.
pub fn joined3(a: &str, b: &str, c: &str) -> (s: String)
    ensures
        s@ == a@ + b@ + c@,
{
    let mut s = a.to_owned();
    s.append(b);
    s.append(c);
    s
}

/// Whether `a` and `b` are the same text.
pub fn same(a: &str, b: &str) -> (r: bool)
    ensures
        r == (a@ == b@),
{
    let chars = chars_of(a);
    spells(&chars, b)
}

/// Whether `c` is white space: a character with the Unicode property
/// `White_Space`.
pub open spec fn is_space(c: char) -> bool {
    let n = c as u32;
    (0x09 <= n <= 0x0D) || n == 0x20 || n == 0x85 || n == 0xA0 || n == 0x1680 || (0x2000 <= n
        <= 0x200A) || n == 0x2028 || n == 0x2029 || n == 0x202F || n == 0x205F || n == 0x3000
}

/// Whether `c` is white space, as [`is_space`] says.
pub fn space(c: char) -> (r: bool)
    ensures
        r == is_space(c),
{
    let n: u32 = c as u32;
    (0x09 <= n && n <= 0x0D) || n == 0x20 || n == 0x85 || n == 0xA0 || n == 0x1680 || (0x2000 <= n
        && n <= 0x200A) || n == 0x2028 || n == 0x2029 || n == 0x202F || n == 0x205F || n == 0x3000
}

/// The number of white-space characters that `s` starts with.
pub open spec fn leading_spaces(s: Seq<char>) -> nat
    decreases s.len(),
{
    if s.len() > 0 && is_space(s[0]) {
        1 + leading_spaces(s.skip(1))
    } else {
        0
    }
}

/// The number of white-space characters that `s` ends with.
pub open spec fn trailing_spaces(s: Seq<char>) -> nat
    decreases s.len(),
{
    if s.len() > 0 && is_space(s.last()) {
        1 + trailing_spaces(s.drop_last())
    } else {
        0
    }
}

/// `s` without the white space at its start and at its end.
pub open spec fn trimmed(s: Seq<char>) -> Seq<char> {
    if leading_spaces(s) >= s.len() {
        Seq::empty()
    } else {
        s.subrange(leading_spaces(s) as int, s.len() - trailing_spaces(s))
    }
}

/// `s` without the white space at its start and at its end, as [`trimmed`]
/// says.
pub fn trim(s: &str) -> (r: String)
    ensures
        r@ == trimmed(s@),
{
    let chars = chars_of(s);
    let n: usize = chars.len();
    let mut a: usize = 0;
    assert(chars@.skip(0) == chars@);
    while a < n && space(chars[a])
        invariant
            a <= n,
            n == chars@.len(),
            leading_spaces(chars@) == a + leading_spaces(chars@.skip(a as int)),
        decreases n - a,
    {
        assert(chars@.skip(a as int).skip(1) == chars@.skip(a + 1));
        a += 1;
    }
    if a == n {
        return String::new();
    }
    let mut b: usize = n;
    while b > 0 && space(chars[b - 1])
        invariant
            a < n,
            b <= n,
            n == chars@.len(),
            !is_space(chars@[a as int]),
            a < b,
            trailing_spaces(chars@) == n - b + trailing_spaces(chars@.take(b as int)),
        decreases b,
    {
        assert(chars@.take(b as int).drop_last() == chars@.take(b - 1));
        b -= 1;
    }
    text_between(&chars, a, b)
}

} // verus!
