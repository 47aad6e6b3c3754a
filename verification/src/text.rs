//! Character-sequence helpers shared by the settings, protocol and message code.

use vstd::prelude::*;
use vstd::string::*;
use vstd::utf8::*;

verus! {

/// The decimal digit character for `d` (taken modulo ten).
pub open spec fn digit_char(d: nat) -> char {
    let d = d % 10;
    if d == 0 { '0' }
    else if d == 1 { '1' }
    else if d == 2 { '2' }
    else if d == 3 { '3' }
    else if d == 4 { '4' }
    else if d == 5 { '5' }
    else if d == 6 { '6' }
    else if d == 7 { '7' }
    else if d == 8 { '8' }
    else { '9' }
}

/// The shortest decimal representation of `n`, without sign or leading zeros.
pub open spec fn decimal(n: nat) -> Seq<char>
    decreases n,
{
    if n < 10 {
        seq![digit_char(n)]
    } else {
        decimal(n / 10).push(digit_char(n % 10))
    }
}

proof fn lemma_digit_char_injective(a: nat, b: nat)
    requires
        a < 10,
        b < 10,
        digit_char(a) == digit_char(b),
    ensures
        a == b,
{
}

/// Different numbers have different decimal representations.
pub proof fn lemma_decimal_injective(a: nat, b: nat)
    requires
        decimal(a) == decimal(b),
    ensures
        a == b,
    decreases a + b,
{
    let da = decimal(a);
    let db = decimal(b);
    if a < 10 && b < 10 {
        assert(da == seq![digit_char(a)]);
        assert(db == seq![digit_char(b)]);
        assert(da[0] == db[0]);
        assert(seq![digit_char(a)][0] == digit_char(a));
        assert(seq![digit_char(b)][0] == digit_char(b));
        assert(digit_char(a) == digit_char(b));
        lemma_digit_char_injective(a, b);
    } else if a >= 10 && b >= 10 {
        lemma_decimal_nonempty(a / 10);
        lemma_decimal_nonempty(b / 10);
        assert(da.last() == digit_char(a % 10));
        assert(db.last() == digit_char(b % 10));
        lemma_digit_char_injective(a % 10, b % 10);
        assert(da.drop_last() =~= decimal(a / 10));
        assert(db.drop_last() =~= decimal(b / 10));
        lemma_decimal_injective(a / 10, b / 10);
    } else if a < 10 {
        lemma_decimal_nonempty(b / 10);
        assert(db.len() >= 2);
    } else {
        lemma_decimal_nonempty(a / 10);
        assert(da.len() >= 2);
    }
}

proof fn lemma_decimal_nonempty(n: nat)
    ensures
        decimal(n).len() >= 1,
    decreases n,
{
    if n >= 10 {
        lemma_decimal_nonempty(n / 10);
    }
}

fn digit_str(d: u64) -> (s: &'static str)
    requires
        d < 10,
    ensures
        s@ == seq![digit_char(d as nat)],
{
    if d == 0 {
        proof { reveal_strlit("0"); }
        "0"
    } else if d == 1 {
        proof { reveal_strlit("1"); }
        "1"
    } else if d == 2 {
        proof { reveal_strlit("2"); }
        "2"
    } else if d == 3 {
        proof { reveal_strlit("3"); }
        "3"
    } else if d == 4 {
        proof { reveal_strlit("4"); }
        "4"
    } else if d == 5 {
        proof { reveal_strlit("5"); }
        "5"
    } else if d == 6 {
        proof { reveal_strlit("6"); }
        "6"
    } else if d == 7 {
        proof { reveal_strlit("7"); }
        "7"
    } else if d == 8 {
        proof { reveal_strlit("8"); }
        "8"
    } else {
        proof { reveal_strlit("9"); }
        "9"
    }
}

/// Appends the decimal representation of `n` to `out`.
pub fn push_decimal(out: &mut String, n: u64)
    ensures
        final(out)@ == old(out)@ + decimal(n as nat),
    decreases n,
{
    if n >= 10 {
        push_decimal(out, n / 10);
    }
    out.append(digit_str(n % 10));
}

/// Checks that `bytes` is UTF-8 and gives it back as a string slice.
///
/// Calls `std::str::from_utf8`; the contract states what its documentation
/// says: it succeeds exactly on well-formed UTF-8, and then the string holds
/// the same bytes.
#[verifier::external_body]
fn str_from_utf8(bytes: &[u8]) -> (res: Option<&str>)
    ensures
        res is Some <==> valid_utf8(bytes@),
        res matches Some(s) ==> s.spec_bytes() == bytes@,
{
    std::str::from_utf8(bytes).ok()
}

/// The characters of `s`, one per element.
pub fn str_chars(s: &str) -> (res: Vec<char>)
    ensures
        res@ == s@,
{
    let mut out: Vec<char> = Vec::new();
    for c in it: s.chars()
        invariant
            out@ == it.seq().take(it.index() as int),
    {
        out.push(c);
    }
    assert(out@ == s@);
    out
}

/// The characters that `bytes` encode in UTF-8, or `None` when they are not UTF-8.
pub fn utf8_chars(bytes: &[u8]) -> (res: Option<Vec<char>>)
    ensures
        res is Some <==> valid_utf8(bytes@),
        res matches Some(cs) ==> cs@ == decode_utf8(bytes@),
{
    match str_from_utf8(bytes) {
        None => None,
        Some(s) => {
            proof {
                encode_utf8_decode_utf8(s@);
            }
            Some(str_chars(s))
        }
    }
}

/// Whether two string slices hold the same characters.
pub fn same_text(a: &str, b: &str) -> (res: bool)
    ensures
        res == (a@ == b@),
{
    a.to_owned() == b.to_owned()
}

/// The byte-order mark that some editors put in front of UTF-8 text.
pub open spec fn utf8_bom() -> Seq<u8> {
    seq![0xefu8, 0xbbu8, 0xbfu8]
}

/// `bytes` without a leading UTF-8 byte-order mark.
pub open spec fn spec_strip_bom(bytes: Seq<u8>) -> Seq<u8> {
    if bytes.len() >= 3 && bytes.take(3) == utf8_bom() {
        bytes.skip(3)
    } else {
        bytes
    }
}

/// Text saved with a byte-order mark reads as the same text without it, and
/// text without one is read as it is.
pub proof fn law_bom_is_ignored(text: Seq<u8>)
    ensures
        spec_strip_bom(utf8_bom() + text) == text,
        !starts_with(text, utf8_bom()) ==> spec_strip_bom(text) == text,
{
    assert((utf8_bom() + text).take(3) =~= utf8_bom());
    assert((utf8_bom() + text).skip(3) =~= text);
    if text.len() >= 3 && text.take(3) == utf8_bom() {
        assert(starts_with(text, utf8_bom()));
    }
}

/// Removes one leading UTF-8 byte-order mark, if there is one.
pub fn strip_bom(bytes: &[u8]) -> (res: &[u8])
    ensures
        res@ == spec_strip_bom(bytes@),
{
    if bytes.len() >= 3 && bytes[0] == 0xef && bytes[1] == 0xbb && bytes[2] == 0xbf {
        let (head, rest) = bytes.split_at(3);
        assert(head@ =~= utf8_bom());
        assert(rest@ =~= bytes@.skip(3));
        rest
    } else {
        assert(bytes@.len() >= 3 ==> bytes@.take(3) != utf8_bom()) by {
            if bytes@.len() >= 3 && bytes@.take(3) == utf8_bom() {
                assert(bytes@[0] == bytes@.take(3)[0]);
                assert(bytes@[1] == bytes@.take(3)[1]);
                assert(bytes@[2] == bytes@.take(3)[2]);
            }
        }
        bytes
    }
}

/// The string results of a computation, taken by their characters.
pub open spec fn text_result(r: Result<String, String>) -> Result<Seq<char>, Seq<char>> {
    match r {
        Ok(s) => Ok(s@),
        Err(e) => Err(e@),
    }
}

/// Whether `s` begins with `prefix`.
pub open spec fn starts_with<T>(s: Seq<T>, prefix: Seq<T>) -> bool {
    prefix.len() <= s.len() && s.take(prefix.len() as int) == prefix
}

/// Whether `s` ends with `suffix`.
pub open spec fn ends_with<T>(s: Seq<T>, suffix: Seq<T>) -> bool {
    suffix.len() <= s.len() && s.skip(s.len() - suffix.len()) == suffix
}

/// Whether `s[from..]` begins with `prefix`.
pub fn chars_start_with(s: &Vec<char>, from: usize, prefix: &str) -> (res: bool)
    requires
        from <= s.len(),
    ensures
        res == starts_with(s@.skip(from as int), prefix@),
{
    let p = str_chars(prefix);
    if p.len() > s.len() - from {
        return false;
    }
    let mut i: usize = 0;
    while i < p.len()
        invariant
            i <= p.len(),
            p.len() <= s.len() - from,
            p@ == prefix@,
            from <= s.len(),
            forall|j: int| 0 <= j < i ==> s@[from + j] == p@[j],
        decreases p.len() - i,
    {
        if s[from + i] != p[i] {
            assert(s@.skip(from as int).take(p.len() as int)[i as int] != p@[i as int]);
            return false;
        }
        i = i + 1;
    }
    assert(s@.skip(from as int).take(p.len() as int) =~= p@);
    true
}

/// The first position of `c` in `s`, or the length of `s` when `s` does not hold it.
pub open spec fn first_index(s: Seq<char>, c: char) -> int
    decreases s.len(),
{
    if s.len() == 0 {
        0
    } else if s[0] == c {
        0
    } else {
        1 + first_index(s.drop_first(), c)
    }
}

/// `first_index` lies within `s`, holds `c` when it is short of the end, and
/// no earlier position holds `c`.
pub proof fn lemma_first_index_bounds(s: Seq<char>, c: char)
    ensures
        0 <= first_index(s, c) <= s.len(),
        first_index(s, c) < s.len() ==> s[first_index(s, c)] == c,
        forall|j: int| 0 <= j < first_index(s, c) ==> s[j] != c,
    decreases s.len(),
{
    if s.len() > 0 && s[0] != c {
        lemma_first_index_bounds(s.drop_first(), c);
        assert forall|j: int| 0 <= j < first_index(s, c) implies s[j] != c by {
            if j > 0 {
                assert(s[j] == s.drop_first()[j - 1]);
            }
        }
    }
}

/// `first_index` is the position that a left-to-right scan stops at.
pub proof fn lemma_first_index(s: Seq<char>, c: char, i: int)
    requires
        0 <= i <= s.len(),
        i < s.len() ==> s[i] == c,
        forall|j: int| 0 <= j < i ==> s[j] != c,
    ensures
        first_index(s, c) == i,
{
    lemma_first_index_bounds(s, c);
    let k = first_index(s, c);
    if k < i {
        assert(s[k] != c);
    }
    if i < k {
        assert(s[i] == c);
    }
}

/// The first position at or after `from` and before `to` where `s` holds `c`, or `to`.
pub fn find_char(s: &Vec<char>, from: usize, to: usize, c: char) -> (res: usize)
    requires
        from <= to <= s.len(),
    ensures
        from <= res <= to,
        res < to ==> s@[res as int] == c,
        forall|j: int| from <= j < res ==> s@[j] != c,
{
    let mut i: usize = from;
    while i < to
        invariant
            from <= i <= to <= s.len(),
            forall|j: int| from <= j < i ==> s@[j] != c,
        decreases to - i,
    {
        if s[i] == c {
            return i;
        }
        i = i + 1;
    }
    i
}

/// Whether `c` is white space in the Unicode sense (the `White_Space` property).
pub open spec fn is_white_space(c: char) -> bool {
    ||| '\u{9}' <= c <= '\u{d}'
    ||| c == ' '
    ||| c == '\u{85}'
    ||| c == '\u{a0}'
    ||| c == '\u{1680}'
    ||| '\u{2000}' <= c <= '\u{200a}'
    ||| c == '\u{2028}'
    ||| c == '\u{2029}'
    ||| c == '\u{202f}'
    ||| c == '\u{205f}'
    ||| c == '\u{3000}'
}

/// Whether `c` is Unicode white space.
pub fn white_space(c: char) -> (res: bool)
    ensures
        res == is_white_space(c),
{
    ('\u{9}' <= c && c <= '\u{d}') || c == ' ' || c == '\u{85}' || c == '\u{a0}' || c == '\u{1680}'
        || ('\u{2000}' <= c && c <= '\u{200a}') || c == '\u{2028}' || c == '\u{2029}'
        || c == '\u{202f}' || c == '\u{205f}' || c == '\u{3000}'
}

/// `s` without its leading white space.
pub open spec fn trim_start(s: Seq<char>) -> Seq<char>
    decreases s.len(),
{
    if s.len() > 0 && is_white_space(s[0]) {
        trim_start(s.drop_first())
    } else {
        s
    }
}

/// `s` without its trailing white space.
pub open spec fn trim_end(s: Seq<char>) -> Seq<char>
    decreases s.len(),
{
    if s.len() > 0 && is_white_space(s.last()) {
        trim_end(s.drop_last())
    } else {
        s
    }
}

/// `s` without leading and trailing white space.
pub open spec fn trim(s: Seq<char>) -> Seq<char> {
    trim_end(trim_start(s))
}

proof fn lemma_trim_start_from(s: Seq<char>, a: int, b: int, i: int)
    requires
        0 <= a <= i <= b <= s.len(),
        forall|j: int| a <= j < i ==> is_white_space(s[j]),
    ensures
        trim_start(s.subrange(a, b)) == trim_start(s.subrange(i, b)),
    decreases i - a,
{
    if a < i {
        assert(s.subrange(a, b).drop_first() =~= s.subrange(a + 1, b));
        lemma_trim_start_from(s, a + 1, b, i);
    }
}

proof fn lemma_trim_end_from(s: Seq<char>, a: int, b: int, i: int)
    requires
        0 <= a <= i <= b <= s.len(),
        forall|j: int| i <= j < b ==> is_white_space(s[j]),
    ensures
        trim_end(s.subrange(a, b)) == trim_end(s.subrange(a, i)),
    decreases b - i,
{
    if i < b {
        assert(s.subrange(a, b).drop_last() =~= s.subrange(a, b - 1));
        lemma_trim_end_from(s, a, b - 1, i);
    }
}

/// The bounds `(i, j)` with `s[i..j]` the trimmed form of `s[from..to]`.
pub fn trim_bounds(s: &Vec<char>, from: usize, to: usize) -> (res: (usize, usize))
    requires
        from <= to <= s.len(),
    ensures
        from <= res.0 <= res.1 <= to,
        s@.subrange(res.0 as int, res.1 as int) == trim(s@.subrange(from as int, to as int)),
{
    let mut i: usize = from;
    while i < to && white_space(s[i])
        invariant
            from <= i <= to <= s.len(),
            forall|j: int| from <= j < i ==> is_white_space(s@[j]),
        decreases to - i,
    {
        i = i + 1;
    }
    proof {
        lemma_trim_start_from(s@, from as int, to as int, i as int);
        if i < to {
            assert(!is_white_space(s@.subrange(i as int, to as int)[0]));
        }
    }
    let mut k: usize = to;
    while k > i && white_space(s[k - 1])
        invariant
            i <= k <= to <= s.len(),
            forall|j: int| k <= j < to ==> is_white_space(s@[j]),
        decreases k - i,
    {
        k = k - 1;
    }
    proof {
        lemma_trim_end_from(s@, i as int, to as int, k as int);
        if k > i {
            assert(!is_white_space(s@.subrange(i as int, k as int).last()));
        }
    }
    (i, k)
}

/// `c` with an ASCII capital letter turned into the small one.
pub open spec fn ascii_lower(c: char) -> char {
    if 'A' <= c <= 'Z' {
        ((c as u32) + 32) as char
    } else {
        c
    }
}

/// Whether `a` and `b` are equal when ASCII letters are compared without case.
pub open spec fn eq_ignore_ascii_case(a: Seq<char>, b: Seq<char>) -> bool {
    a.len() == b.len() && forall|i: int| 0 <= i < a.len() ==> ascii_lower(a[i]) == ascii_lower(b[i])
}

fn lower_ascii(c: char) -> (res: char)
    ensures
        res == ascii_lower(c),
{
    if 'A' <= c && c <= 'Z' {
        let u: u8 = (c as u8) + 32;
        u as char
    } else {
        c
    }
}

/// Whether `s[from..to]` equals `word` without regard to ASCII case.
pub fn chars_eq_ignore_ascii_case(s: &Vec<char>, from: usize, to: usize, word: &str) -> (res: bool)
    requires
        from <= to <= s.len(),
    ensures
        res == eq_ignore_ascii_case(s@.subrange(from as int, to as int), word@),
{
    let w = str_chars(word);
    if to - from != w.len() {
        return false;
    }
    let mut i: usize = 0;
    while i < w.len()
        invariant
            i <= w.len(),
            w.len() == to - from,
            from <= to <= s.len(),
            w@ == word@,
            forall|j: int| 0 <= j < i ==> ascii_lower(s@[from + j]) == ascii_lower(w@[j]),
        decreases w.len() - i,
    {
        if lower_ascii(s[from + i]) != lower_ascii(w[i]) {
            return false;
        }
        i = i + 1;
    }
    true
}

/// Whether `c` is one of the ASCII digits `0` to `9`.
pub open spec fn is_digit(c: char) -> bool {
    '0' <= c <= '9'
}

/// The number that a sequence of decimal digits writes.
pub open spec fn digits_value(s: Seq<char>) -> nat
    decreases s.len(),
{
    if s.len() == 0 {
        0
    } else {
        digits_value(s.drop_last()) * 10 + ((s.last() as nat) - ('0' as nat)) as nat
    }
}

/// `s` without one leading `+`.
pub open spec fn unsigned_digits(s: Seq<char>) -> Seq<char> {
    if s.len() > 0 && s[0] == '+' {
        s.drop_first()
    } else {
        s
    }
}

/// The unsigned integer that `s` writes in the syntax that `usize::from_str`
/// accepts: an optional `+`, then one or more ASCII digits, with a value that
/// fits in `usize`.
pub open spec fn parse_usize(s: Seq<char>) -> Option<usize> {
    let digits = unsigned_digits(s);
    if digits.len() == 0 || !(forall|i: int| 0 <= i < digits.len() ==> is_digit(digits[i])) {
        None
    } else if digits_value(digits) > usize::MAX {
        None
    } else {
        Some(digits_value(digits) as usize)
    }
}

proof fn lemma_digits_value_grows(s: Seq<char>, i: int, j: int)
    requires
        0 <= i <= j <= s.len(),
        forall|k: int| 0 <= k < s.len() ==> is_digit(s[k]),
    ensures
        digits_value(s.take(i)) <= digits_value(s.take(j)),
    decreases j - i,
{
    if i < j {
        lemma_digits_value_grows(s, i, j - 1);
        assert(s.take(j).drop_last() =~= s.take(j - 1));
    }
}

/// Parses `s[from..to]` as `parse_usize` describes.
pub fn parse_usize_range(s: &Vec<char>, from: usize, to: usize) -> (res: Option<usize>)
    requires
        from <= to <= s.len(),
    ensures
        res == parse_usize(s@.subrange(from as int, to as int)),
{
    let ghost t = s@.subrange(from as int, to as int);
    let mut start: usize = from;
    if from < to && s[from] == '+' {
        start = from + 1;
    }
    let ghost digits = s@.subrange(start as int, to as int);
    assert(digits =~= unsigned_digits(t));
    if start == to {
        return None;
    }
    let mut k: usize = start;
    while k < to
        invariant
            start <= k <= to <= s.len(),
            digits == s@.subrange(start as int, to as int),
            t == s@.subrange(from as int, to as int),
            digits == unsigned_digits(t),
            forall|j: int| start <= j < k ==> is_digit(s@[j]),
        decreases to - k,
    {
        if !('0' <= s[k] && s[k] <= '9') {
            assert(digits[k - start] == s@[k as int]);
            assert(!is_digit(digits[k - start]));
            return None;
        }
        k = k + 1;
    }
    assert(forall|i: int| 0 <= i < digits.len() ==> is_digit(digits[i]));
    let mut acc: usize = 0;
    let mut i: usize = start;
    while i < to
        invariant
            start <= i <= to <= s.len(),
            digits == s@.subrange(start as int, to as int),
            t == s@.subrange(from as int, to as int),
            digits == unsigned_digits(t),
            forall|j: int| 0 <= j < digits.len() ==> is_digit(digits[j]),
            acc as nat == digits_value(digits.take(i - start)),
        decreases to - i,
    {
        let c: char = s[i];
        assert(c == digits[i - start]);
        assert(is_digit(c));
        let d: usize = ((c as u32) - ('0' as u32)) as usize;
        assert(digits.take(i - start + 1).drop_last() =~= digits.take(i - start));
        assert(digits.take(i - start + 1).last() == s@[i as int]);
        match acc.checked_mul(10) {
            None => {
                proof {
                    lemma_digits_value_grows(digits, i - start + 1, digits.len() as int);
                    assert(digits.take(digits.len() as int) =~= digits);
                }
                return None;
            }
            Some(m) => match m.checked_add(d) {
                None => {
                    proof {
                        lemma_digits_value_grows(digits, i - start + 1, digits.len() as int);
                        assert(digits.take(digits.len() as int) =~= digits);
                    }
                    return None;
                }
                Some(v) => {
                    acc = v;
                }
            },
        }
        i = i + 1;
    }
    assert(digits.take(digits.len() as int) =~= digits);
    Some(acc)
}

/// One line as `str::lines` gives it: a `\r` before the line feed is dropped.
pub open spec fn strip_cr(line: Seq<char>) -> Seq<char> {
    if line.len() > 0 && line.last() == '\r' {
        line.drop_last()
    } else {
        line
    }
}

/// The lines of `s` as `str::lines` gives them: split at each line feed, a
/// carriage return before the feed dropped, and no empty line after a final
/// line feed.
pub open spec fn lines(s: Seq<char>) -> Seq<Seq<char>>
    decreases s.len(),
{
    if s.len() == 0 {
        seq![]
    } else {
        let k = first_index(s, '\n');
        if k >= s.len() {
            seq![s]
        } else {
            proof {
                lemma_first_index_bounds(s, '\n');
            }
            seq![strip_cr(s.take(k))] + lines(s.skip(k + 1))
        }
    }
}

/// The line that begins at `pos` and the position after its line feed.
pub proof fn lemma_lines_step(s: Seq<char>, pos: int, end: int)
    requires
        0 <= pos < s.len(),
        pos <= end <= s.len(),
        end < s.len() ==> s[end] == '\n',
        forall|j: int| pos <= j < end ==> s[j] != '\n',
    ensures
        end < s.len() ==> lines(s.skip(pos)) == seq![strip_cr(s.subrange(pos, end))] + lines(s.skip(end + 1)),
        end == s.len() ==> lines(s.skip(pos)) == seq![s.skip(pos)],
{
    let t = s.skip(pos);
    lemma_first_index(t, '\n', end - pos);
    if end < s.len() {
        assert(t.take(end - pos) =~= s.subrange(pos, end));
        assert(t.skip(end - pos + 1) =~= s.skip(end + 1));
    }
}

/// The character positions `(start, end)` of each line of `s`, as `lines` splits it.
pub fn line_bounds(s: &Vec<char>) -> (res: Vec<(usize, usize)>)
    ensures
        res@.len() == lines(s@).len(),
        forall|i: int| 0 <= i < res@.len() ==> (#[trigger] res@[i]).0 <= res@[i].1 <= s@.len(),
        forall|i: int| 0 <= i < res@.len() ==> s@.subrange(res@[i].0 as int, res@[i].1 as int) == #[trigger] lines(s@)[i],
{
    let mut out: Vec<(usize, usize)> = Vec::new();
    let mut pos: usize = 0;
    assert(s@.skip(0) =~= s@);
    while pos < s.len()
        invariant
            pos <= s.len(),
            out@.len() + lines(s@.skip(pos as int)).len() == lines(s@).len(),
            forall|i: int| 0 <= i < out@.len() ==> (#[trigger] out@[i]).0 <= out@[i].1 <= s@.len(),
            forall|i: int| 0 <= i < out@.len() ==> s@.subrange(out@[i].0 as int, out@[i].1 as int) == lines(s@)[i],
            forall|i: int| 0 <= i < lines(s@.skip(pos as int)).len() ==> lines(s@)[out@.len() + i] == #[trigger] lines(s@.skip(pos as int))[i],
        decreases s.len() - pos,
    {
        let end = find_char(s, pos, s.len(), '\n');
        proof {
            lemma_lines_step(s@, pos as int, end as int);
        }
        let line_end: usize = if end < s.len() && end > pos && s[end - 1] == '\r' { end - 1 } else { end };
        assert(end < s.len() ==> s@.subrange(pos as int, line_end as int) == strip_cr(s@.subrange(pos as int, end as int))) by {
            if end < s.len() {
                if end > pos && s@[end - 1] == '\r' {
                    assert(s@.subrange(pos as int, end as int).drop_last() =~= s@.subrange(pos as int, line_end as int));
                }
            }
        }
        assert(end == s.len() ==> s@.subrange(pos as int, line_end as int) =~= s@.skip(pos as int));
        let ghost rest_before = lines(s@.skip(pos as int));
        let ghost k: int = out@.len() as int;
        assert(lines(s@)[k] == rest_before[0]);
        out.push((pos, line_end));
        if end < s.len() {
            pos = end + 1;
        } else {
            pos = s.len();
            assert(s@.skip(pos as int) =~= Seq::<char>::empty());
        }
        assert forall|i: int| 0 <= i < lines(s@.skip(pos as int)).len() implies lines(s@)[out@.len() + i] == lines(s@.skip(pos as int))[i] by {
            assert(lines(s@.skip(pos as int))[i] == rest_before[i + 1]);
        }
    }
    assert(s@.skip(pos as int) =~= Seq::<char>::empty());
    out
}

/// The lines `ls` joined with a line feed between each two.
pub open spec fn join_lines(ls: Seq<Seq<char>>) -> Seq<char>
    decreases ls.len(),
{
    if ls.len() == 0 {
        Seq::<char>::empty()
    } else if ls.len() == 1 {
        ls[0]
    } else {
        join_lines(ls.drop_last()) + seq!['\n'] + ls.last()
    }
}

/// The last `n` lines of `text` (all of them when it has fewer), joined with line feeds.
pub open spec fn last_lines_text(text: Seq<char>, n: nat) -> Seq<char> {
    let ls = lines(text);
    join_lines(ls.skip(if ls.len() > n { ls.len() - n } else { 0 }))
}

/// The last `n` lines of `text`, joined with line feeds.
pub fn last_lines(text: &str, n: usize) -> (res: String)
    ensures
        res@ == last_lines_text(text@, n as nat),
{
    let cs = str_chars(text);
    let bounds = line_bounds(&cs);
    let total = bounds.len();
    let start: usize = if total > n { total - n } else { 0 };
    let ghost ls = lines(text@);
    let mut out = String::new();
    let mut i: usize = start;
    while i < total
        invariant
            start <= i <= total,
            total == bounds@.len(),
            ls == lines(text@),
            cs@ == text@,
            bounds@.len() == ls.len(),
            forall|k: int| 0 <= k < bounds@.len() ==> (#[trigger] bounds@[k]).0 <= bounds@[k].1 <= cs@.len(),
            forall|k: int| 0 <= k < bounds@.len() ==> cs@.subrange(bounds@[k].0 as int, bounds@[k].1 as int) == #[trigger] lines(cs@)[k],
            out@ == join_lines(ls.subrange(start as int, i as int)),
        decreases total - i,
    {
        let (a, b) = bounds[i];
        let piece = text.substring_char(a, b);
        assert(piece@ == ls[i as int]);
        assert(ls.subrange(start as int, i + 1).drop_last() =~= ls.subrange(start as int, i as int));
        if i > start {
            out.append("\n");
            proof { reveal_strlit("\n"); }
        }
        out.append(piece);
        i = i + 1;
    }
    assert(ls.subrange(start as int, total as int) =~= ls.skip(start as int));
    out
}

} // verus!
