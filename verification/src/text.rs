//! Character-level vocabulary shared by the parsers: whitespace, trimming,
//! whitespace-separated words, decimal numbers and lines, each as a
//! specification over `Seq<char>` together with an executable counterpart that
//! works on a window `[from, to)` of a character slice.

use vstd::prelude::*;
use vstd::std_specs::iter::IteratorSpec;

verus! {

/// The characters with the Unicode `White_Space` property.
pub open spec fn is_whitespace(c: char) -> bool {
    ||| '\u{9}' <= c <= '\u{d}'
    ||| c == ' '
    ||| c == '\u{85}'
    ||| c == '\u{a0}'
    ||| c == '\u{1680}'
    ||| '\u{2000}' <= c <= '\u{200a}'
    ||| c == '\u{2028}'
    ||| c == '\u{2029}'
    ||| c == '\u{202f}'
    ||| c == '\u{205f}'
    ||| c == '\u{3000}'
}

/// `s` without its leading whitespace.
pub open spec fn trim_start(s: Seq<char>) -> Seq<char>
    decreases s.len(),
{
    if s.len() > 0 && is_whitespace(s[0]) {
        trim_start(s.drop_first())
    } else {
        s
    }
}

/// `s` without its trailing whitespace.
pub open spec fn trim_end(s: Seq<char>) -> Seq<char>
    decreases s.len(),
{
    if s.len() > 0 && is_whitespace(s.last()) {
        trim_end(s.drop_last())
    } else {
        s
    }
}

/// `s` without leading and trailing whitespace.
pub open spec fn trim(s: Seq<char>) -> Seq<char> {
    trim_end(trim_start(s))
}

/// Number of characters at the front of `s` that are not whitespace.
pub open spec fn word_len(s: Seq<char>) -> nat
    decreases s.len(),
{
    if s.len() > 0 && !is_whitespace(s[0]) {
        1 + word_len(s.drop_first())
    } else {
        0
    }
}

/// The first whitespace-delimited word of `s`, if `s` holds one.
pub open spec fn first_word(s: Seq<char>) -> Option<Seq<char>> {
    let t = trim_start(s);
    if t.len() == 0 {
        None
    } else {
        Some(t.take(word_len(t) as int))
    }
}

/// What is left of `s` behind its first word (all of it is consumed where `s`
/// holds no word).
pub open spec fn after_first_word(s: Seq<char>) -> Seq<char> {
    let t = trim_start(s);
    t.skip(word_len(t) as int)
}

/// The `n`-th whitespace-delimited word of `s`, counting from zero.
pub open spec fn nth_word(s: Seq<char>, n: nat) -> Option<Seq<char>>
    decreases n,
{
    if n == 0 {
        first_word(s)
    } else {
        nth_word(after_first_word(s), (n - 1) as nat)
    }
}

/// The ten ASCII decimal digits.
pub open spec fn is_digit(c: char) -> bool {
    '0' <= c <= '9'
}

/// The value of a decimal digit.
pub open spec fn digit_value(c: char) -> nat {
    (c as nat - '0' as nat) as nat
}

/// Whether every character of `s` is a decimal digit.
pub open spec fn all_digits(s: Seq<char>) -> bool {
    forall|i: int| 0 <= i < s.len() ==> is_digit(#[trigger] s[i])
}

/// The number that the decimal digits `s` write, most significant digit first.
pub open spec fn digits_value(s: Seq<char>) -> nat
    decreases s.len(),
{
    if s.len() == 0 {
        0
    } else {
        10 * digits_value(s.drop_last()) + digit_value(s.last())
    }
}

/// The unsigned byte that `s` writes in decimal: an optional `+`, then one or
/// more digits whose value is at most 255. Anything else writes no byte.
pub open spec fn parse_u8(s: Seq<char>) -> Option<u8> {
    let d = if s.len() > 0 && s[0] == '+' {
        s.drop_first()
    } else {
        s
    };
    if d.len() > 0 && all_digits(d) && digits_value(d) <= 255 {
        Some(digits_value(d) as u8)
    } else {
        None
    }
}

/// The character that writes the digit `d`.
pub open spec fn digit_char(d: int) -> char {
    ('0' as int + d) as char
}

/// `n` in decimal, without leading zeros.
pub open spec fn decimal(n: nat) -> Seq<char>
    decreases n,
{
    if n < 10 {
        seq![digit_char(n as int)]
    } else {
        decimal(n / 10).push(digit_char(n as int % 10))
    }
}

/// `i` in decimal, with a minus sign in front where it is negative.
pub open spec fn decimal_signed(i: int) -> Seq<char> {
    if i < 0 {
        seq!['-'] + decimal((-i) as nat)
    } else {
        decimal(i as nat)
    }
}

/// Number of characters at the front of `s` that come before its first line
/// feed.
pub open spec fn line_len(s: Seq<char>) -> nat
    decreases s.len(),
{
    if s.len() > 0 && s[0] != '\n' {
        1 + line_len(s.drop_first())
    } else {
        0
    }
}

/// A line's content once the carriage return of a `\r\n` ending is removed.
pub open spec fn strip_cr(s: Seq<char>) -> Seq<char> {
    if s.len() > 0 && s.last() == '\r' {
        s.drop_last()
    } else {
        s
    }
}

/// The first line of a non-empty text, without its ending (`\n` or `\r\n`).
/// A last line that no line feed ends is taken as it stands.
pub open spec fn first_line(s: Seq<char>) -> Seq<char> {
    let n = line_len(s) as int;
    if n == s.len() {
        s
    } else {
        strip_cr(s.take(n))
    }
}

/// What follows the first line of `s` and its ending.
pub open spec fn after_first_line(s: Seq<char>) -> Seq<char> {
    let n = line_len(s) as int;
    if n == s.len() {
        Seq::empty()
    } else {
        s.skip(n + 1)
    }
}

/// The lines of `s`. Each ends at a line feed or at the end of the text; an
/// empty text has no line, and a text that ends in a line feed has no empty
/// last line.
pub open spec fn lines(s: Seq<char>) -> Seq<Seq<char>>
    decreases s.len(),
    via lines_decreases
{
    if s.len() == 0 {
        Seq::empty()
    } else {
        seq![first_line(s)] + lines(after_first_line(s))
    }
}

#[via_fn]
proof fn lines_decreases(s: Seq<char>) {
    lemma_line_len_bound(s);
}

/// The first line never reaches past the end of the text.
pub proof fn lemma_line_len_bound(s: Seq<char>)
    ensures
        line_len(s) <= s.len(),
    decreases s.len(),
{
    if s.len() > 0 && s[0] != '\n' {
        lemma_line_len_bound(s.drop_first());
    }
}

/// A longer run of digits writes a number that is no smaller than the one its
/// front part writes.
pub proof fn lemma_digits_prefix(s: Seq<char>, k: int)
    requires
        0 <= k <= s.len(),
    ensures
        digits_value(s.take(k)) <= digits_value(s),
    decreases s.len() - k,
{
    if k < s.len() {
        lemma_digits_prefix(s, k + 1);
        assert(s.take(k + 1).drop_last() =~= s.take(k));
    } else {
        assert(s.take(k) =~= s);
    }
}

/// Whether `s` is a word: not empty and free of whitespace.
pub open spec fn is_word(s: Seq<char>) -> bool {
    s.len() > 0 && forall|i: int| 0 <= i < s.len() ==> !is_whitespace(#[trigger] s[i])
}

/// Whether `s` is made of whitespace alone.
pub open spec fn is_blank(s: Seq<char>) -> bool {
    forall|i: int| 0 <= i < s.len() ==> is_whitespace(#[trigger] s[i])
}

/// Blank text in front of `s` is trimmed away.
pub proof fn lemma_trim_start_blank(blank: Seq<char>, s: Seq<char>)
    requires
        is_blank(blank),
    ensures
        trim_start(blank + s) == trim_start(s),
    decreases blank.len(),
{
    if blank.len() == 0 {
        assert(blank + s =~= s);
    } else {
        assert((blank + s).drop_first() =~= blank.drop_first() + s);
        lemma_trim_start_blank(blank.drop_first(), s);
    }
}

/// Blank text behind `s` is trimmed away, and no more where `s` does not end in
/// whitespace.
pub proof fn lemma_trim_end_blank(s: Seq<char>, blank: Seq<char>)
    requires
        is_blank(blank),
        s.len() == 0 || !is_whitespace(s.last()),
    ensures
        trim_end(s + blank) == s,
    decreases blank.len(),
{
    if blank.len() == 0 {
        assert(s + blank =~= s);
    } else {
        assert((s + blank).drop_last() =~= s + blank.drop_last());
        lemma_trim_end_blank(s, blank.drop_last());
    }
}

/// A word at the front of a text is that text's first word where whitespace or
/// the text's end follows it, and the rest of the text is what is left.
pub proof fn lemma_first_word(word: Seq<char>, rest: Seq<char>)
    requires
        is_word(word),
        rest.len() == 0 || is_whitespace(rest[0]),
    ensures
        first_word(word + rest) == Some(word),
        after_first_word(word + rest) == rest,
{
    lemma_word_len_run(word, rest);
    assert((word + rest).take(word.len() as int) =~= word);
    assert((word + rest).skip(word.len() as int) =~= rest);
}

/// A run of characters that are no whitespace is counted whole where
/// whitespace or the text's end follows it.
pub proof fn lemma_word_len_run(run: Seq<char>, rest: Seq<char>)
    requires
        forall|i: int| 0 <= i < run.len() ==> !is_whitespace(#[trigger] run[i]),
        rest.len() == 0 || is_whitespace(rest[0]),
    ensures
        word_len(run + rest) == run.len(),
    decreases run.len(),
{
    if run.len() == 0 {
        assert(run + rest =~= rest);
    } else {
        assert((run + rest).drop_first() =~= run.drop_first() + rest);
        lemma_word_len_run(run.drop_first(), rest);
    }
}

/// The decimal form of a number is made of digits and writes the number; a
/// number below a thousand takes as many characters as it has digits.
pub proof fn lemma_decimal(n: nat)
    ensures
        decimal(n).len() > 0,
        all_digits(decimal(n)),
        digits_value(decimal(n)) == n,
        n < 10 ==> decimal(n).len() == 1,
        10 <= n < 100 ==> decimal(n).len() == 2,
        100 <= n < 1000 ==> decimal(n).len() == 3,
    decreases n,
{
    let d = decimal(n);
    if n < 10 {
        assert(d.drop_last() =~= Seq::<char>::empty());
        assert(digits_value(d.drop_last()) == 0);
    } else {
        lemma_decimal(n / 10);
        assert(d.drop_last() =~= decimal(n / 10));
    }
}

/// Tells whether `c` is whitespace.
pub(crate) fn whitespace(c: char) -> (r: bool)
    ensures
        r == is_whitespace(c),
{
    ('\u{9}' <= c && c <= '\u{d}') || c == ' ' || c == '\u{85}' || c == '\u{a0}' || c
        == '\u{1680}' || ('\u{2000}' <= c && c <= '\u{200a}') || c == '\u{2028}' || c
        == '\u{2029}' || c == '\u{202f}' || c == '\u{205f}' || c == '\u{3000}'
}

/// The one-character string that writes the digit `d`.
pub(crate) fn digit_str(d: u8) -> (s: &'static str)
    requires
        d < 10,
    ensures
        s@ == seq![digit_char(d as int)],
{
    proof {
        reveal_strlit("0");
        reveal_strlit("1");
        reveal_strlit("2");
        reveal_strlit("3");
        reveal_strlit("4");
        reveal_strlit("5");
        reveal_strlit("6");
        reveal_strlit("7");
        reveal_strlit("8");
        reveal_strlit("9");
    }
    let s = match d {
        0 => "0",
        1 => "1",
        2 => "2",
        3 => "3",
        4 => "4",
        5 => "5",
        6 => "6",
        7 => "7",
        8 => "8",
        _ => "9",
    };
    assert(s@ =~= seq![digit_char(d as int)]);
    s
}

/// Appends `n` in decimal to `out`.
pub(crate) fn push_decimal(out: &mut String, n: u64)
    ensures
        final(out)@ == old(out)@ + decimal(n as nat),
    decreases n,
{
    if n >= 10 {
        push_decimal(out, n / 10);
    }
    out.append(digit_str((n % 10) as u8));
    assert(out@ =~= old(out)@ + decimal(n as nat));
}

/// Appends `i` in decimal to `out`, with a minus sign in front where it is
/// negative.
pub(crate) fn push_decimal_signed(out: &mut String, i: i32)
    ensures
        final(out)@ == old(out)@ + decimal_signed(i as int),
{
    let wide: i64 = i as i64;
    if wide < 0 {
        proof {
            reveal_strlit("-");
        }
        out.append("-");
        push_decimal(out, (-wide) as u64);
        assert(out@ =~= old(out)@ + decimal_signed(i as int));
    } else {
        push_decimal(out, wide as u64);
    }
}

/// The characters of `s`, in order.
pub(crate) fn chars_of(s: &str) -> (v: Vec<char>)
    ensures
        v@ == s@,
{
    let mut v: Vec<char> = Vec::new();
    for c in it: s.chars()
        invariant
            it.seq() == s@,
            v@ == it.seq().take(it.index() as int),
    {
        v.push(c);
    }
    v
}

/// Whether two strings hold the same characters.
pub(crate) fn same_text(a: &str, b: &str) -> (r: bool)
    ensures
        r == (a@ == b@),
{
    let x = chars_of(a);
    let y = chars_of(b);
    same_chars(x.as_slice(), y.as_slice())
}

/// Whether two texts hold the same characters.
pub(crate) fn same_chars(a: &[char], b: &[char]) -> (r: bool)
    ensures
        r == (a@ == b@),
{
    if a.len() != b.len() {
        return false;
    }
    let mut i: usize = 0;
    while i < a.len()
        invariant
            a.len() == b.len(),
            i <= a.len(),
            a@.take(i as int) == b@.take(i as int),
        decreases a.len() - i,
    {
        if a[i] != b[i] {
            return false;
        }
        assert(a@.take(i + 1) == a@.take(i as int).push(a[i as int]));
        assert(b@.take(i + 1) == b@.take(i as int).push(b[i as int]));
        i += 1;
    }
    assert(a@ == a@.take(i as int));
    assert(b@ == b@.take(i as int));
    true
}

/// Whether the window `[from, to)` of `s` holds exactly the characters of `p`.
pub(crate) fn window_is(s: &[char], from: usize, to: usize, p: &[char]) -> (r: bool)
    requires
        from <= to <= s.len(),
    ensures
        r == (s@.subrange(from as int, to as int) == p@),
{
    if to - from != p.len() {
        return false;
    }
    let ghost w = s@.subrange(from as int, to as int);
    let mut i: usize = 0;
    while i < p.len()
        invariant
            from <= to <= s.len(),
            to - from == p.len(),
            i <= p.len(),
            w == s@.subrange(from as int, to as int),
            w.take(i as int) == p@.take(i as int),
        decreases p.len() - i,
    {
        if s[from + i] != p[i] {
            assert(w[i as int] != p@[i as int]);
            return false;
        }
        assert(w.take(i + 1) == w.take(i as int).push(w[i as int]));
        assert(p@.take(i + 1) == p@.take(i as int).push(p[i as int]));
        i += 1;
    }
    assert(w == w.take(i as int));
    assert(p@ == p@.take(i as int));
    true
}

/// The characters of each string of a list.
pub open spec fn texts_of<'a>(list: Seq<&'a str>) -> Seq<Seq<char>> {
    list.map_values(|s: &'a str| s@)
}

/// The characters of each string of a list of owned strings.
pub open spec fn texts_of_strings(list: Seq<String>) -> Seq<Seq<char>> {
    list.map_values(|s: String| s@)
}

/// The characters of each text of a list of character vectors.
pub open spec fn texts_of_chars(list: Seq<Vec<char>>) -> Seq<Seq<char>> {
    list.map_values(|s: Vec<char>| s@)
}

/// Whether `s` begins with the characters of `p`.
pub open spec fn has_prefix(s: Seq<char>, p: Seq<char>) -> bool {
    p.len() <= s.len() && s.take(p.len() as int) == p
}

/// Whether the window `[from, to)` of `s` begins with the characters of `p`.
pub(crate) fn window_has_prefix(s: &[char], from: usize, to: usize, p: &[char]) -> (r: bool)
    requires
        from <= to <= s.len(),
    ensures
        r == has_prefix(s@.subrange(from as int, to as int), p@),
{
    if to - from < p.len() {
        return false;
    }
    let r = window_is(s, from, from + p.len(), p);
    assert(s@.subrange(from as int, to as int).take(p.len() as int) == s@.subrange(
        from as int,
        from + p.len(),
    ));
    r
}

/// First position in `[from, to]` that is `to` or holds no whitespace: the
/// window from there on is the trimmed window.
pub(crate) fn skip_whitespace(s: &[char], from: usize, to: usize) -> (i: usize)
    requires
        from <= to <= s.len(),
    ensures
        from <= i <= to,
        i < to ==> !is_whitespace(s@[i as int]),
        s@.subrange(i as int, to as int) == trim_start(s@.subrange(from as int, to as int)),
{
    let mut i: usize = from;
    while i < to && whitespace(s[i])
        invariant
            from <= i <= to <= s.len(),
            trim_start(s@.subrange(i as int, to as int)) == trim_start(
                s@.subrange(from as int, to as int),
            ),
        decreases to - i,
    {
        assert(s@.subrange(i as int, to as int).drop_first() == s@.subrange(i + 1, to as int));
        i += 1;
    }
    i
}

/// Last position in `[from, to]` that is `from` or follows a character that is
/// no whitespace: the window up to there is the trimmed window.
pub(crate) fn skip_whitespace_back(s: &[char], from: usize, to: usize) -> (j: usize)
    requires
        from <= to <= s.len(),
    ensures
        from <= j <= to,
        j > from ==> !is_whitespace(s@[j - 1]),
        s@.subrange(from as int, j as int) == trim_end(s@.subrange(from as int, to as int)),
{
    let mut j: usize = to;
    while j > from && whitespace(s[j - 1])
        invariant
            from <= j <= to <= s.len(),
            trim_end(s@.subrange(from as int, j as int)) == trim_end(
                s@.subrange(from as int, to as int),
            ),
        decreases j - from,
    {
        assert(s@.subrange(from as int, j as int).drop_last() == s@.subrange(
            from as int,
            j - 1,
        ));
        j -= 1;
    }
    j
}

/// End of the run of characters from `from` on that are no whitespace.
pub(crate) fn word_end(s: &[char], from: usize, to: usize) -> (k: usize)
    requires
        from <= to <= s.len(),
    ensures
        from <= k <= to,
        k - from == word_len(s@.subrange(from as int, to as int)),
{
    let mut k: usize = from;
    while k < to && !whitespace(s[k])
        invariant
            from <= k <= to <= s.len(),
            word_len(s@.subrange(from as int, to as int)) == (k - from) + word_len(
                s@.subrange(k as int, to as int),
            ),
        decreases to - k,
    {
        assert(s@.subrange(k as int, to as int).drop_first() == s@.subrange(k + 1, to as int));
        k += 1;
    }
    k
}

/// The bounds of the first word in the window `[from, to)` of `s`, if it holds
/// one; the second bound is also where the rest behind that word begins.
pub(crate) fn next_word(s: &[char], from: usize, to: usize) -> (r: Option<(usize, usize)>)
    requires
        from <= to <= s.len(),
    ensures
        match r {
            Some((a, b)) => from <= a < b <= to && first_word(
                s@.subrange(from as int, to as int),
            ) == Some(s@.subrange(a as int, b as int)) && after_first_word(
                s@.subrange(from as int, to as int),
            ) == s@.subrange(b as int, to as int),
            None => first_word(s@.subrange(from as int, to as int)) is None && after_first_word(
                s@.subrange(from as int, to as int),
            ).len() == 0,
        },
{
    let a = skip_whitespace(s, from, to);
    let ghost t = s@.subrange(a as int, to as int);
    if a == to {
        return None;
    }
    let b = word_end(s, a, to);
    assert(!is_whitespace(t[0]));
    assert(t.take(b - a) == s@.subrange(a as int, b as int));
    assert(t.skip(b - a) == s@.subrange(b as int, to as int));
    Some((a, b))
}

/// Reads the window `[from, to)` of `s` as an unsigned byte in decimal.
pub(crate) fn scan_u8(s: &[char], from: usize, to: usize) -> (r: Option<u8>)
    requires
        from <= to <= s.len(),
    ensures
        r == parse_u8(s@.subrange(from as int, to as int)),
{
    let ghost w = s@.subrange(from as int, to as int);
    let start: usize = if from < to && s[from] == '+' {
        from + 1
    } else {
        from
    };
    let ghost d = s@.subrange(start as int, to as int);
    assert(d == if w.len() > 0 && w[0] == '+' {
        w.drop_first()
    } else {
        w
    });
    if start == to {
        return None;
    }
    let mut value: u16 = 0;
    let mut i: usize = start;
    while i < to
        invariant
            start <= i <= to <= s.len(),
            d == s@.subrange(start as int, to as int),
            d == (if w.len() > 0 && w[0] == '+' {
                w.drop_first()
            } else {
                w
            }),
            w == s@.subrange(from as int, to as int),
            all_digits(d.take(i - start)),
            value == digits_value(d.take(i - start)),
            value <= 255,
        decreases to - i,
    {
        let c = s[i];
        if !('0' <= c && c <= '9') {
            assert(!is_digit(d[i - start]));
            return None;
        }
        let digit: u16 = match c {
            '0' => 0,
            '1' => 1,
            '2' => 2,
            '3' => 3,
            '4' => 4,
            '5' => 5,
            '6' => 6,
            '7' => 7,
            '8' => 8,
            _ => 9,
        };
        assert(digit == digit_value(c));
        assert(d.take(i - start + 1).drop_last() == d.take(i - start));
        assert(d.take(i - start + 1).last() == c);
        let next: u16 = value * 10 + digit;
        if next > 255 {
            proof {
                lemma_digits_prefix(d, i - start + 1);
            }
            return None;
        }
        value = next;
        i += 1;
    }
    assert(d.take(i - start) == d);
    Some(value as u8)
}

/// Where the first line of the window `[from, to)` ends and where the text
/// behind it begins: `(end, next)` such that `[from, end)` is the line and
/// `[next, to)` what follows its ending.
pub(crate) fn next_line(s: &[char], from: usize, to: usize) -> (r: (usize, usize))
    requires
        from < to <= s.len(),
    ensures
        from <= r.0 <= r.1 <= to,
        from < r.1,
        s@.subrange(from as int, r.0 as int) == first_line(s@.subrange(from as int, to as int)),
        s@.subrange(r.1 as int, to as int) == after_first_line(
            s@.subrange(from as int, to as int),
        ),
{
    let ghost w = s@.subrange(from as int, to as int);
    let mut n: usize = from;
    while n < to && s[n] != '\n'
        invariant
            from <= n <= to <= s.len(),
            line_len(s@.subrange(from as int, to as int)) == (n - from) + line_len(
                s@.subrange(n as int, to as int),
            ),
        decreases to - n,
    {
        assert(s@.subrange(n as int, to as int).drop_first() == s@.subrange(n + 1, to as int));
        n += 1;
    }
    assert(line_len(w) == n - from);
    if n == to {
        assert(w.skip(to - from) == s@.subrange(to as int, to as int));
        (to, to)
    } else {
        assert(w.take(n - from) == s@.subrange(from as int, n as int));
        assert(w.skip(n - from + 1) == s@.subrange(n + 1, to as int));
        if n > from && s[n - 1] == '\r' {
            assert(s@.subrange(from as int, n as int).drop_last() == s@.subrange(
                from as int,
                n - 1,
            ));
            (n - 1, n + 1)
        } else {
            (n, n + 1)
        }
    }
}

} // verus!
