//! Character-level text handling shared by the hotkey parser, the store and
//! the user-facing helpers: conversions between `str`, `String` and `Vec<char>`,
//! ASCII case mapping, Unicode whitespace trimming, splitting, decimal numbers
//! and substring search.

use vstd::prelude::*;

verus! {

// ───────────────────────── conversions ─────────────────────────

/// Collects the characters of `s` into a vector.
pub fn chars_of(s: &str) -> (res: Vec<char>)
    ensures
        res@ == s@,
{
    let mut out: Vec<char> = Vec::new();
    for c in it: s.chars()
        invariant
            out@ == it.seq().take(it.index() as int),
    {
        out.push(c);
    }
    out
}

/// Appends one character to a `String` (std's `String::push`).
/// Trusted: the result is the old text with `c` added at its end, as std documents.
#[verifier::external_body]
pub(crate) fn push_char(s: &mut String, c: char)
    ensures
        final(s)@ == old(s)@.push(c),
{
    s.push(c);
}

/// Builds a `String` holding exactly the characters of `v`.
pub fn string_of(v: &Vec<char>) -> (res: String)
    ensures
        res@ == v@,
{
    let mut out = String::new();
    let mut i: usize = 0;
    while i < v.len()
        invariant
            i <= v.len(),
            out@ == v@.take(i as int),
        decreases v.len() - i,
    {
        push_char(&mut out, v[i]);
        i += 1;
        assert(out@ =~= v@.take(i as int));
    }
    assert(v@.take(v.len() as int) =~= v@);
    out
}

/// Appends the characters of `v` to `out`.
pub fn push_chars(out: &mut String, v: &Vec<char>)
    ensures
        final(out)@ == old(out)@ + v@,
{
    let mut i: usize = 0;
    while i < v.len()
        invariant
            i <= v.len(),
            out@ == old(out)@ + v@.take(i as int),
        decreases v.len() - i,
    {
        push_char(out, v[i]);
        i += 1;
        assert(out@ =~= old(out)@ + v@.take(i as int));
    }
    assert(v@.take(v.len() as int) =~= v@);
}

/// Appends the characters of `s` to `out`.
pub fn push_str(out: &mut String, s: &str)
    ensures
        final(out)@ == old(out)@ + s@,
{
    let v = chars_of(s);
    push_chars(out, &v);
}

/// Whether two character vectors hold the same text.
pub fn chars_eq(a: &Vec<char>, b: &Vec<char>) -> (res: bool)
    ensures
        res == (a@ == b@),
{
    if a.len() != b.len() {
        return false;
    }
    let mut i: usize = 0;
    while i < a.len()
        invariant
            i <= a.len(),
            a.len() == b.len(),
            forall|k: int| 0 <= k < i ==> a@[k] == b@[k],
        decreases a.len() - i,
    {
        if a[i] != b[i] {
            return false;
        }
        i += 1;
    }
    assert(a@ =~= b@);
    true
}

/// Whether the characters of `a` spell the text `b`.
pub fn chars_eq_str(a: &Vec<char>, b: &str) -> (res: bool)
    ensures
        res == (a@ == b@),
{
    let bv = chars_of(b);
    chars_eq(a, &bv)
}

/// Whether two string slices hold the same text.
pub fn str_eq(a: &str, b: &str) -> (res: bool)
    ensures
        res == (a@ == b@),
{
    let av = chars_of(a);
    chars_eq_str(&av, b)
}

// ───────────────────────── ASCII case ─────────────────────────

/// ASCII lowercase of one character (other characters are kept).
pub open spec fn ascii_lower_char(c: char) -> char {
    if 'A' <= c && c <= 'Z' {
        ((c as u32) + 32) as char
    } else {
        c
    }
}

/// ASCII uppercase of one character (other characters are kept).
pub open spec fn ascii_upper_char(c: char) -> char {
    if 'a' <= c && c <= 'z' {
        ((c as u32) - 32) as char
    } else {
        c
    }
}

/// `str::to_ascii_lowercase` on a character sequence.
pub open spec fn ascii_lower(s: Seq<char>) -> Seq<char> {
    s.map_values(|c: char| ascii_lower_char(c))
}

/// `str::to_ascii_uppercase` on a character sequence.
pub open spec fn ascii_upper(s: Seq<char>) -> Seq<char> {
    s.map_values(|c: char| ascii_upper_char(c))
}

pub fn lower_char(c: char) -> (res: char)
    ensures
        res == ascii_lower_char(c),
{
    if 'A' <= c && c <= 'Z' {
        ((c as u8) + 32) as char
    } else {
        c
    }
}

pub fn upper_char(c: char) -> (res: char)
    ensures
        res == ascii_upper_char(c),
{
    if 'a' <= c && c <= 'z' {
        ((c as u8) - 32) as char
    } else {
        c
    }
}

/// ASCII lowercase copy of `v`.
pub fn to_ascii_lower(v: &Vec<char>) -> (res: Vec<char>)
    ensures
        res@ == ascii_lower(v@),
{
    let mut out: Vec<char> = Vec::new();
    let mut i: usize = 0;
    while i < v.len()
        invariant
            i <= v.len(),
            out@ == ascii_lower(v@.take(i as int)),
        decreases v.len() - i,
    {
        out.push(lower_char(v[i]));
        i += 1;
        assert(out@ =~= ascii_lower(v@.take(i as int)));
    }
    assert(v@.take(v.len() as int) =~= v@);
    out
}

/// ASCII uppercase copy of `v`.
pub fn to_ascii_upper(v: &Vec<char>) -> (res: Vec<char>)
    ensures
        res@ == ascii_upper(v@),
{
    let mut out: Vec<char> = Vec::new();
    let mut i: usize = 0;
    while i < v.len()
        invariant
            i <= v.len(),
            out@ == ascii_upper(v@.take(i as int)),
        decreases v.len() - i,
    {
        out.push(upper_char(v[i]));
        i += 1;
        assert(out@ =~= ascii_upper(v@.take(i as int)));
    }
    assert(v@.take(v.len() as int) =~= v@);
    out
}

// ───────────────────────── whitespace and trimming ─────────────────────────

/// The Unicode `White_Space` property, as `char::is_whitespace` tests it.
pub open spec fn is_white_space(c: char) -> bool {
    ||| ('\t' <= c && c <= '\r')
    ||| c == ' '
    ||| c == '\u{85}'
    ||| c == '\u{A0}'
    ||| c == '\u{1680}'
    ||| ('\u{2000}' <= c && c <= '\u{200A}')
    ||| c == '\u{2028}'
    ||| c == '\u{2029}'
    ||| c == '\u{202F}'
    ||| c == '\u{205F}'
    ||| c == '\u{3000}'
}

pub fn white_space(c: char) -> (res: bool)
    ensures
        res == is_white_space(c),
{
    ('\t' <= c && c <= '\r') || c == ' ' || c == '\u{85}' || c == '\u{A0}' || c == '\u{1680}'
        || ('\u{2000}' <= c && c <= '\u{200A}') || c == '\u{2028}' || c == '\u{2029}' || c
        == '\u{202F}' || c == '\u{205F}' || c == '\u{3000}'
}

/// Drops leading whitespace.
pub open spec fn trim_start(s: Seq<char>) -> Seq<char>
    decreases s.len(),
{
    if s.len() > 0 && is_white_space(s[0]) {
        trim_start(s.drop_first())
    } else {
        s
    }
}

/// Drops trailing whitespace.
pub open spec fn trim_end(s: Seq<char>) -> Seq<char>
    decreases s.len(),
{
    if s.len() > 0 && is_white_space(s.last()) {
        trim_end(s.drop_last())
    } else {
        s
    }
}

/// `str::trim`: drops leading and trailing whitespace.
pub open spec fn trim(s: Seq<char>) -> Seq<char> {
    trim_end(trim_start(s))
}

/// Copy of `v` without its leading and trailing whitespace.
pub fn trimmed(v: &Vec<char>) -> (res: Vec<char>)
    ensures
        res@ == trim(v@),
{
    let n = v.len();
    let mut i: usize = 0;
    assert(v@.subrange(0, n as int) =~= v@);
    while i < n && white_space(v[i])
        invariant
            i <= n,
            n == v.len(),
            trim_start(v@) == trim_start(v@.subrange(i as int, n as int)),
        decreases n - i,
    {
        assert(v@.subrange(i as int, n as int).drop_first() =~= v@.subrange(
            i + 1,
            n as int,
        ));
        i += 1;
    }
    assert(trim_start(v@) == v@.subrange(i as int, n as int));
    let mut j: usize = n;
    while j > i && white_space(v[j - 1])
        invariant
            i <= j <= n,
            n == v.len(),
            trim_end(v@.subrange(i as int, n as int)) == trim_end(
                v@.subrange(i as int, j as int),
            ),
        decreases j - i,
    {
        assert(v@.subrange(i as int, j as int).drop_last() =~= v@.subrange(
            i as int,
            j - 1,
        ));
        j -= 1;
    }
    assert(trim_end(v@.subrange(i as int, j as int)) == v@.subrange(i as int, j as int));
    let mut out: Vec<char> = Vec::new();
    let mut k: usize = i;
    while k < j
        invariant
            i <= k <= j,
            j <= n,
            n == v.len(),
            out@ == v@.subrange(i as int, k as int),
        decreases j - k,
    {
        out.push(v[k]);
        k += 1;
        assert(out@ =~= v@.subrange(i as int, k as int));
    }
    out
}

// ───────────────────────── splitting ─────────────────────────

/// `str::split(sep)` with a single-character separator: the pieces between
/// separators, in order; there is always at least one piece.
pub open spec fn split_on(s: Seq<char>, sep: char) -> Seq<Seq<char>>
    decreases s.len(),
{
    if s.len() == 0 {
        seq![Seq::<char>::empty()]
    } else {
        let prev = split_on(s.drop_last(), sep);
        if s.last() == sep {
            prev.push(Seq::<char>::empty())
        } else {
            prev.update(prev.len() - 1, prev.last().push(s.last()))
        }
    }
}

pub proof fn lemma_split_nonempty(s: Seq<char>, sep: char)
    ensures
        split_on(s, sep).len() >= 1,
    decreases s.len(),
{
    if s.len() > 0 {
        lemma_split_nonempty(s.drop_last(), sep);
    }
}

/// The views of a sequence of character vectors.
pub open spec fn views(parts: Seq<Vec<char>>) -> Seq<Seq<char>> {
    parts.map_values(|p: Vec<char>| p@)
}

/// The views of a sequence of strings.
pub open spec fn string_views(v: Seq<String>) -> Seq<Seq<char>> {
    v.map_values(|s: String| s@)
}

/// The pieces of `v` between occurrences of `sep`.
pub fn split_chars(v: &Vec<char>, sep: char) -> (res: Vec<Vec<char>>)
    ensures
        views(res@) == split_on(v@, sep),
{
    let mut parts: Vec<Vec<char>> = Vec::new();
    let mut cur: Vec<char> = Vec::new();
    let mut i: usize = 0;
    while i < v.len()
        invariant
            i <= v.len(),
            views(parts@).push(cur@) == split_on(v@.take(i as int), sep),
        decreases v.len() - i,
    {
        let c = v[i];
        proof {
            assert(v@.take(i + 1).drop_last() =~= v@.take(i as int));
            lemma_split_nonempty(v@.take(i as int), sep);
        }
        if c == sep {
            let done = cur;
            parts.push(done);
            cur = Vec::new();
            assert(views(parts@).push(cur@) =~= split_on(v@.take(i + 1), sep));
        } else {
            let ghost before = views(parts@).push(cur@);
            cur.push(c);
            assert(views(parts@).push(cur@) =~= before.update(
                before.len() - 1,
                before.last().push(c),
            ));
        }
        i += 1;
    }
    assert(v@.take(v.len() as int) =~= v@);
    parts.push(cur);
    parts
}

// ───────────────────────── decimal numbers ─────────────────────────

pub open spec fn is_ascii_digit(c: char) -> bool {
    '0' <= c && c <= '9'
}

pub open spec fn digit_value(c: char) -> nat {
    ((c as u32) - ('0' as u32)) as nat
}

pub open spec fn all_digits(s: Seq<char>) -> bool {
    forall|i: int| 0 <= i < s.len() ==> is_ascii_digit(#[trigger] s[i])
}

/// The number that a string of decimal digits denotes.
pub open spec fn decimal_value(s: Seq<char>) -> nat
    decreases s.len(),
{
    if s.len() == 0 {
        0
    } else {
        decimal_value(s.drop_last()) * 10 + digit_value(s.last())
    }
}

/// What `u8::from_str` (radix 10) gives back: an optional `+` followed by at least
/// one ASCII digit, denoting a value that fits in a byte (leading zeros allowed).
pub open spec fn parse_u8_spec(s: Seq<char>) -> Option<u8> {
    let digits = if s.len() > 0 && s[0] == '+' {
        s.drop_first()
    } else {
        s
    };
    if digits.len() == 0 || !all_digits(digits) || decimal_value(digits) > 255 {
        None
    } else {
        Some(decimal_value(digits) as u8)
    }
}

/// Parses the characters of `v` from index `start` on as a byte, as `u8::from_str` does.
pub fn parse_u8(v: &Vec<char>, start: usize) -> (res: Option<u8>)
    requires
        start <= v.len(),
    ensures
        res == parse_u8_spec(v@.skip(start as int)),
{
    let ghost s = v@.skip(start as int);
    let mut first = start;
    if start < v.len() && v[start] == '+' {
        first = start + 1;
    }
    let ghost digits = v@.skip(first as int);
    assert(digits =~= (if s.len() > 0 && s[0] == '+' {
        s.drop_first()
    } else {
        s
    }));
    if first == v.len() {
        return None;
    }
    // `acc` follows the value of the digits read so far, capped at 256.
    let mut acc: u32 = 0;
    let mut i: usize = first;
    while i < v.len()
        invariant
            first <= i <= v.len(),
            s == v@.skip(start as int),
            digits == v@.skip(first as int),
            digits == (if s.len() > 0 && s[0] == '+' {
                s.drop_first()
            } else {
                s
            }),
            forall|k: int| first <= k < i ==> is_ascii_digit(#[trigger] v@[k]),
            acc as int == if decimal_value(v@.subrange(first as int, i as int)) > 256 {
                256
            } else {
                decimal_value(v@.subrange(first as int, i as int)) as int
            },
        decreases v.len() - i,
    {
        let c = v[i];
        if !('0' <= c && c <= '9') {
            assert(digits[i - first] == c);
            assert(!is_ascii_digit(digits[i - first]));
            assert(!all_digits(digits));
            return None;
        }
        let d = (c as u32) - ('0' as u32);
        proof {
            assert(v@.subrange(first as int, i + 1).drop_last() =~= v@.subrange(
                first as int,
                i as int,
            ));
        }
        if acc >= 256 {
            acc = 256;
        } else {
            let next = acc * 10 + d;
            acc = if next > 256 {
                256
            } else {
                next
            };
        }
        i += 1;
    }
    assert(v@.subrange(first as int, v.len() as int) =~= digits);
    assert(all_digits(digits)) by {
        assert forall|k: int| 0 <= k < digits.len() implies is_ascii_digit(#[trigger] digits[k]) by {
            assert(digits[k] == v@[first + k]);
        }
    }
    if acc > 255 {
        None
    } else {
        Some(acc as u8)
    }
}

/// The character of a decimal digit.
pub open spec fn digit_char(d: nat) -> char {
    (('0' as u32) + d) as char
}

/// The decimal digits of `n`, most significant first, without leading zeros.
pub open spec fn decimal_digits(n: nat) -> Seq<char>
    decreases n,
{
    if n < 10 {
        seq![digit_char(n)]
    } else {
        decimal_digits(n / 10).push(digit_char(n % 10))
    }
}

/// How `Display` writes an integer: a `-` for negative numbers, then the digits.
pub open spec fn decimal_text(n: int) -> Seq<char> {
    if n < 0 {
        seq!['-'] + decimal_digits((-n) as nat)
    } else {
        decimal_digits(n as nat)
    }
}

/// A number below 100 written with at least two digits (`{:02}`).
pub open spec fn two_digit_text(n: nat) -> Seq<char> {
    if n < 10 {
        seq!['0', digit_char(n)]
    } else {
        decimal_digits(n)
    }
}

fn digit_to_char(d: u64) -> (c: char)
    requires
        d < 10,
    ensures
        c == digit_char(d as nat),
{
    ((d as u8) + 48u8) as char
}

/// Appends the decimal digits of `n` to `out`.
pub fn push_decimal(out: &mut String, n: u64)
    ensures
        final(out)@ == old(out)@ + decimal_digits(n as nat),
    decreases n,
{
    if n >= 10 {
        push_decimal(out, n / 10);
    }
    let c = digit_to_char(n % 10);
    push_char(out, c);
    if n >= 10 {
        assert(out@ =~= old(out)@ + decimal_digits(n as nat));
    } else {
        assert(out@ =~= old(out)@ + decimal_digits(n as nat));
    }
}

/// Appends `n` as `Display` writes it.
pub fn push_i64(out: &mut String, n: i64)
    ensures
        final(out)@ == old(out)@ + decimal_text(n as int),
{
    if n < 0 {
        push_char(out, '-');
        let magnitude: u64 = if n == i64::MIN {
            9223372036854775808u64
        } else {
            (-n) as u64
        };
        push_decimal(out, magnitude);
        assert(out@ =~= old(out)@ + decimal_text(n as int));
    } else {
        push_decimal(out, n as u64);
    }
}

/// Appends `n` (below 100) with at least two digits, as `{:02}` writes it.
pub fn push_two_digits(out: &mut String, n: u64)
    requires
        n < 100,
    ensures
        final(out)@ == old(out)@ + two_digit_text(n as nat),
{
    if n < 10 {
        push_char(out, '0');
        push_char(out, digit_to_char(n));
        assert(out@ =~= old(out)@ + two_digit_text(n as nat));
    } else {
        push_decimal(out, n);
    }
}

// ───────────────────────── substring search ─────────────────────────

/// `q` occurs in `s` starting at index `i`.
pub open spec fn occurs_at(s: Seq<char>, q: Seq<char>, i: int) -> bool {
    0 <= i && i + q.len() <= s.len() && s.subrange(i, i + q.len()) == q
}

/// `str::contains` with a string pattern (the empty pattern occurs everywhere).
pub open spec fn has_substring(s: Seq<char>, q: Seq<char>) -> bool {
    exists|i: int| occurs_at(s, q, i)
}

fn occurs_here(s: &Vec<char>, q: &Vec<char>, i: usize) -> (res: bool)
    requires
        i + q.len() <= s.len(),
    ensures
        res == occurs_at(s@, q@, i as int),
{
    let mut k: usize = 0;
    while k < q.len()
        invariant
            k <= q.len(),
            i + q.len() <= s.len(),
            forall|m: int| 0 <= m < k ==> s@[i + m] == q@[m],
        decreases q.len() - k,
    {
        if s[i + k] != q[k] {
            assert(s@.subrange(i as int, i + q.len())[k as int] != q@[k as int]);
            return false;
        }
        k += 1;
    }
    assert(s@.subrange(i as int, i + q.len()) =~= q@);
    true
}

/// Whether `q` occurs in `s`.
pub fn contains_chars(s: &Vec<char>, q: &Vec<char>) -> (res: bool)
    ensures
        res == has_substring(s@, q@),
{
    if q.len() > s.len() {
        assert(!has_substring(s@, q@));
        return false;
    }
    let last = s.len() - q.len();
    let mut i: usize = 0;
    loop
        invariant
            i <= last,
            last + q.len() == s.len(),
            forall|m: int| 0 <= m < i ==> !occurs_at(s@, q@, m),
        ensures
            forall|m: int| 0 <= m <= last ==> !occurs_at(s@, q@, m),
        decreases last - i,
    {
        if occurs_here(s, q, i) {
            return true;
        }
        if i == last {
            break;
        }
        i += 1;
    }
    assert(!has_substring(s@, q@)) by {
        if has_substring(s@, q@) {
            let m = choose|m: int| occurs_at(s@, q@, m);
            assert(m <= last);
        }
    }
    false
}

// ───────────────────────── Unicode case (std) ─────────────────────────

/// What `str::to_lowercase` gives back for a text (full Unicode case mapping).
pub uninterp spec fn unicode_lowercase(s: Seq<char>) -> Seq<char>;

/// What `str::to_uppercase` gives back for a text (full Unicode case mapping).
pub uninterp spec fn unicode_uppercase(s: Seq<char>) -> Seq<char>;

/// std's `str::to_lowercase`. Trusted: its result is the name `unicode_lowercase`
/// applied to the text; the Unicode tables themselves are not restated here.
#[verifier::external_body]
pub(crate) fn to_lowercase(s: &str) -> (res: String)
    ensures
        res@ == unicode_lowercase(s@),
{
    s.to_lowercase()
}

/// std's `str::to_uppercase`. Trusted: its result is the name `unicode_uppercase`
/// applied to the text; the Unicode tables themselves are not restated here.
#[verifier::external_body]
pub(crate) fn to_uppercase(s: &str) -> (res: String)
    ensures
        res@ == unicode_uppercase(s@),
{
    s.to_uppercase()
}

} // verus!
