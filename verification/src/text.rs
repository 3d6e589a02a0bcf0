//! Character-level text helpers with exact specifications: blank checks,
//! trimming, ASCII case folding, substring search, word splitting,
//! decimal parsing and decimal rendering.

use vstd::prelude::*;

verus! {

/// Whether `c` has the Unicode `White_Space` property.
pub open spec fn spec_is_whitespace(c: char) -> bool {
    ||| c == ' '
    ||| ('\u{9}' <= c && c <= '\u{d}')
    ||| c == '\u{85}'
    ||| c == '\u{a0}'
    ||| c == '\u{1680}'
    ||| ('\u{2000}' <= c && c <= '\u{200a}')
    ||| c == '\u{2028}'
    ||| c == '\u{2029}'
    ||| c == '\u{202f}'
    ||| c == '\u{205f}'
    ||| c == '\u{3000}'
}

/// A text is blank when every character is white space (trimming it leaves nothing).
pub open spec fn spec_is_blank(s: Seq<char>) -> bool {
    forall|i: int| 0 <= i < s.len() ==> spec_is_whitespace(#[trigger] s[i])
}

/// `s` without its leading white space.
pub open spec fn spec_trim_start(s: Seq<char>) -> Seq<char>
    decreases s.len(),
{
    if s.len() > 0 && spec_is_whitespace(s[0]) {
        spec_trim_start(s.drop_first())
    } else {
        s
    }
}

/// `s` without its trailing white space.
pub open spec fn spec_trim_end(s: Seq<char>) -> Seq<char>
    decreases s.len(),
{
    if s.len() > 0 && spec_is_whitespace(s.last()) {
        spec_trim_end(s.drop_last())
    } else {
        s
    }
}

/// `s` without leading and trailing white space.
pub open spec fn spec_trim(s: Seq<char>) -> Seq<char> {
    spec_trim_end(spec_trim_start(s))
}

/// ASCII upper-case letters map to lower case; every other character is kept.
pub open spec fn spec_ascii_lower_char(c: char) -> char {
    if 'A' <= c && c <= 'Z' {
        ((c as u32) + 32) as char
    } else {
        c
    }
}

pub open spec fn spec_ascii_lowercase(s: Seq<char>) -> Seq<char> {
    s.map_values(|c: char| spec_ascii_lower_char(c))
}

/// `needle` occurs in `hay` starting at position `i`.
pub open spec fn spec_occurs_at(hay: Seq<char>, needle: Seq<char>, i: int) -> bool {
    0 <= i && i + needle.len() <= hay.len() && hay.subrange(i, i + needle.len()) == needle
}

/// `needle` occurs somewhere in `hay` (the empty text occurs everywhere).
pub open spec fn spec_contains(hay: Seq<char>, needle: Seq<char>) -> bool {
    exists|i: int| spec_occurs_at(hay, needle, i)
}

pub open spec fn spec_starts_with(s: Seq<char>, prefix: Seq<char>) -> bool {
    prefix.len() <= s.len() && s.subrange(0, prefix.len() as int) == prefix
}

/// Length of the longest prefix of `s` made of non white-space characters.
pub open spec fn spec_word_len(s: Seq<char>) -> nat
    decreases s.len(),
{
    if s.len() > 0 && !spec_is_whitespace(s[0]) {
        1 + spec_word_len(s.drop_first())
    } else {
        0
    }
}

/// The maximal runs of non white-space characters of `s`, in order.
pub open spec fn spec_words(s: Seq<char>) -> Seq<Seq<char>>
    decreases s.len(),
{
    let t = spec_trim_start(s);
    if t.len() == 0 {
        seq![]
    } else {
        let n = spec_word_len(t);
        if 0 < n <= t.len() && t.len() <= s.len() {
            seq![t.subrange(0, n as int)] + spec_words(t.subrange(n as int, t.len() as int))
        } else {
            seq![]
        }
    }
}

pub open spec fn spec_is_digit(c: char) -> bool {
    '0' <= c && c <= '9'
}

pub open spec fn spec_digit_value(c: char) -> nat {
    ((c as u32) - ('0' as u32)) as nat
}

/// How reading an unsigned decimal number ends.
pub enum NumberParse {
    Parsed(u64),
    Empty,
    InvalidDigit,
    TooLarge,
}

/// Reads the digits of `s` from the left into `acc`, stopping at the first
/// character that is no digit or the first prefix whose value exceeds `max`.
pub open spec fn spec_read_digits(s: Seq<char>, acc: nat, max: nat) -> NumberParse
    decreases s.len(),
{
    if s.len() == 0 {
        NumberParse::Parsed(acc as u64)
    } else if !spec_is_digit(s[0]) {
        NumberParse::InvalidDigit
    } else if acc * 10 + spec_digit_value(s[0]) > max {
        NumberParse::TooLarge
    } else {
        spec_read_digits(s.drop_first(), acc * 10 + spec_digit_value(s[0]), max)
    }
}

/// Parsing an unsigned decimal number no greater than `max`: an optional `+`
/// sign followed by at least one digit.
pub open spec fn spec_parse_unsigned(s: Seq<char>, max: nat) -> NumberParse {
    if s.len() == 0 {
        NumberParse::Empty
    } else if s[0] == '+' {
        if s.len() == 1 {
            NumberParse::InvalidDigit
        } else {
            spec_read_digits(s.drop_first(), 0, max)
        }
    } else {
        spec_read_digits(s, 0, max)
    }
}

pub open spec fn spec_digit_char(d: nat) -> char {
    (('0' as u32) + d) as char
}

/// The decimal representation of `n`, without leading zeros.
pub open spec fn spec_decimal(n: nat) -> Seq<char>
    decreases n,
{
    if n < 10 {
        seq![spec_digit_char(n)]
    } else {
        spec_decimal(n / 10).push(spec_digit_char(n % 10))
    }
}

pub fn is_whitespace(c: char) -> (r: bool)
    ensures
        r == spec_is_whitespace(c),
{
    c == ' ' || ('\u{9}' <= c && c <= '\u{d}') || c == '\u{85}' || c == '\u{a0}' || c == '\u{1680}'
        || ('\u{2000}' <= c && c <= '\u{200a}') || c == '\u{2028}' || c == '\u{2029}' || c
        == '\u{202f}' || c == '\u{205f}' || c == '\u{3000}'
}

/// The characters of `s`, in order.
pub fn chars_of(s: &str) -> (r: Vec<char>)
    ensures
        r@ == s@,
{
    let n = s.unicode_len();
    let mut out: Vec<char> = Vec::new();
    let mut i: usize = 0;
    while i < n
        invariant
            n == s@.len(),
            i <= n,
            out@ == s@.subrange(0, i as int),
        decreases n - i,
    {
        out.push(s.get_char(i));
        i += 1;
        assert(out@ =~= s@.subrange(0, i as int));
    }
    assert(out@ =~= s@);
    out
}

/// Whether the text is empty after trimming white space.
pub fn is_blank(s: &str) -> (r: bool)
    ensures
        r == spec_is_blank(s@),
{
    let n = s.unicode_len();
    let mut i: usize = 0;
    while i < n
        invariant
            n == s@.len(),
            i <= n,
            forall|j: int| 0 <= j < i ==> spec_is_whitespace(#[trigger] s@[j]),
        decreases n - i,
    {
        if !is_whitespace(s.get_char(i)) {
            return false;
        }
        i += 1;
    }
    true
}

/// Appends one character to a `String` (std's `String::push`).
#[verifier::external_body]
pub(crate) fn push_char(s: &mut String, c: char)
    ensures
        final(s)@ == old(s)@.push(c),
{
    s.push(c);
}

pub proof fn lemma_trim_start_skips(s: Seq<char>, lo: int)
    requires
        0 <= lo <= s.len(),
        forall|j: int| 0 <= j < lo ==> spec_is_whitespace(#[trigger] s[j]),
        lo == s.len() || !spec_is_whitespace(s[lo]),
    ensures
        spec_trim_start(s) == s.subrange(lo, s.len() as int),
    decreases lo,
{
    if lo == 0 {
        assert(s.subrange(0, s.len() as int) =~= s);
    } else {
        assert(spec_is_whitespace(s[0]));
        let t = s.drop_first();
        assert forall|j: int| 0 <= j < lo - 1 implies spec_is_whitespace(#[trigger] t[j]) by {
            assert(t[j] == s[j + 1]);
        }
        if lo < s.len() {
            assert(t[lo - 1] == s[lo]);
        }
        lemma_trim_start_skips(t, lo - 1);
        assert(t.subrange(lo - 1, t.len() as int) =~= s.subrange(lo, s.len() as int));
    }
}

pub proof fn lemma_trim_end_drops(s: Seq<char>, hi: int)
    requires
        0 <= hi <= s.len(),
        forall|j: int| hi <= j < s.len() ==> spec_is_whitespace(#[trigger] s[j]),
        hi == 0 || !spec_is_whitespace(s[hi - 1]),
    ensures
        spec_trim_end(s) == s.subrange(0, hi),
    decreases s.len() - hi,
{
    if hi == s.len() {
        assert(s.subrange(0, hi) =~= s);
    } else {
        assert(spec_is_whitespace(s.last()));
        let t = s.drop_last();
        assert forall|j: int| hi <= j < t.len() implies spec_is_whitespace(#[trigger] t[j]) by {
            assert(t[j] == s[j]);
        }
        if hi > 0 {
            assert(t[hi - 1] == s[hi - 1]);
        }
        lemma_trim_end_drops(t, hi);
        assert(t.subrange(0, hi) =~= s.subrange(0, hi));
    }
}

/// `s` with leading and trailing white space removed.
pub fn trim(s: &str) -> (r: String)
    ensures
        r@ == spec_trim(s@),
{
    let n = s.unicode_len();
    let mut lo: usize = 0;
    while lo < n && is_whitespace(s.get_char(lo))
        invariant
            n == s@.len(),
            lo <= n,
            forall|j: int| 0 <= j < lo ==> spec_is_whitespace(#[trigger] s@[j]),
        decreases n - lo,
    {
        lo += 1;
    }
    let mut hi: usize = n;
    while hi > lo && is_whitespace(s.get_char(hi - 1))
        invariant
            n == s@.len(),
            lo <= hi <= n,
            forall|j: int| hi <= j < n ==> spec_is_whitespace(#[trigger] s@[j]),
        decreases hi - lo,
    {
        hi -= 1;
    }
    proof {
        lemma_trim_start_skips(s@, lo as int);
        let t = s@.subrange(lo as int, n as int);
        assert forall|j: int| hi - lo <= j < t.len() implies spec_is_whitespace(#[trigger] t[j]) by {
            assert(t[j] == s@[j + lo]);
        }
        if hi > lo {
            assert(t[hi - lo - 1] == s@[hi - 1]);
        }
        lemma_trim_end_drops(t, hi - lo);
        assert(t.subrange(0, hi - lo) =~= s@.subrange(lo as int, hi as int));
    }
    let piece = s.substring_char(lo, hi);
    String::from_str(piece)
}

pub fn ascii_lower_char(c: char) -> (r: char)
    ensures
        r == spec_ascii_lower_char(c),
{
    if 'A' <= c && c <= 'Z' {
        let b: u8 = c as u8;
        assert(b == c as u32);
        let lowered: u8 = b + 32;
        lowered as char
    } else {
        c
    }
}

/// `s` with ASCII letters folded to lower case.
pub fn ascii_lowercase(s: &str) -> (r: String)
    ensures
        r@ == spec_ascii_lowercase(s@),
{
    let n = s.unicode_len();
    let mut out = String::new();
    let mut i: usize = 0;
    while i < n
        invariant
            n == s@.len(),
            i <= n,
            out@ == spec_ascii_lowercase(s@.subrange(0, i as int)),
        decreases n - i,
    {
        let c = s.get_char(i);
        push_char(&mut out, ascii_lower_char(c));
        i += 1;
        assert(spec_ascii_lowercase(s@.subrange(0, i as int)) =~= spec_ascii_lowercase(
            s@.subrange(0, i - 1),
        ).push(spec_ascii_lower_char(c)));
    }
    assert(s@.subrange(0, n as int) =~= s@);
    out
}

fn occurs_at(hay: &Vec<char>, needle: &Vec<char>, i: usize) -> (r: bool)
    requires
        i + needle@.len() <= hay@.len(),
    ensures
        r == spec_occurs_at(hay@, needle@, i as int),
{
    let m = needle.len();
    let mut k: usize = 0;
    while k < m
        invariant
            m == needle@.len(),
            i + m <= hay@.len(),
            hay@.len() == hay.len(),
            k <= m,
            forall|j: int| 0 <= j < k ==> hay@[i + j] == needle@[j],
        decreases m - k,
    {
        if hay[i + k] != needle[k] {
            assert(hay@.subrange(i as int, i + m)[k as int] != needle@[k as int]);
            return false;
        }
        k += 1;
    }
    assert(hay@.subrange(i as int, i + m) =~= needle@);
    true
}

/// Whether `needle` occurs in `hay` (as `str::contains` with a text pattern).
pub fn contains_text(hay: &str, needle: &str) -> (r: bool)
    ensures
        r == spec_contains(hay@, needle@),
{
    let h = chars_of(hay);
    let nd = chars_of(needle);
    if nd.len() > h.len() {
        assert forall|i: int| !spec_occurs_at(hay@, needle@, i) by {}
        return false;
    }
    let last = h.len() - nd.len();
    let mut i: usize = 0;
    loop
        invariant
            h@ == hay@,
            nd@ == needle@,
            last == h@.len() - nd@.len(),
            i <= last,
            forall|j: int| 0 <= j < i ==> !spec_occurs_at(hay@, needle@, j),
        decreases last - i,
    {
        if occurs_at(&h, &nd, i) {
            return true;
        }
        if i == last {
            assert forall|j: int| !spec_occurs_at(hay@, needle@, j) by {
                if 0 <= j && j + needle@.len() <= hay@.len() {
                    assert(j <= last);
                }
            }
            return false;
        }
        i += 1;
    }
}

/// Whether `s` begins with `prefix`.
pub fn starts_with_text(s: &str, prefix: &str) -> (r: bool)
    ensures
        r == spec_starts_with(s@, prefix@),
{
    let h = chars_of(s);
    let p = chars_of(prefix);
    if p.len() > h.len() {
        return false;
    }
    occurs_at(&h, &p, 0)
}

/// The decimal digits of `n`.
pub fn decimal_string(n: u64) -> (r: String)
    ensures
        r@ == spec_decimal(n as nat),
{
    let mut digits: Vec<char> = Vec::new();
    let mut m: u64 = n;
    let ghost mut rest: nat = n as nat;
    // digits@ holds the low-order digits, least significant first
    while m >= 10
        invariant
            m as nat == rest,
            spec_decimal(n as nat) == spec_decimal(rest) + digits@.reverse(),
        decreases m,
    {
        let d: u64 = m % 10;
        let c = digit_char(d);
        proof {
            assert(spec_decimal(rest) == spec_decimal(rest / 10).push(spec_digit_char(rest % 10)));
        }
        digits.push(c);
        m = m / 10;
        proof {
            let old_rest = rest;
            rest = m as nat;
            assert(digits@.reverse() =~= seq![c] + digits@.drop_last().reverse());
            assert(spec_decimal(old_rest) + digits@.drop_last().reverse() =~= spec_decimal(rest)
                + digits@.reverse());
        }
    }
    let mut out = String::new();
    push_char(&mut out, digit_char(m));
    proof {
        assert(spec_decimal(rest) =~= seq![spec_digit_char(rest)]);
    }
    let mut k: usize = digits.len();
    while k > 0
        invariant
            k <= digits@.len(),
            out@ + digits@.subrange(0, k as int).reverse() == spec_decimal(n as nat),
        decreases k,
    {
        k -= 1;
        let c = digits[k];
        push_char(&mut out, c);
        assert(digits@.subrange(0, k + 1).reverse() =~= seq![c] + digits@.subrange(
            0,
            k as int,
        ).reverse());
    }
    assert(digits@.subrange(0, 0).reverse() =~= Seq::<char>::empty());
    out
}

fn digit_char(d: u64) -> (c: char)
    requires
        d < 10,
    ensures
        c == spec_digit_char(d as nat),
{
    let b: u8 = 48u8 + (d as u8);
    b as char
}

} // verus!

verus! {

pub proof fn lemma_word_len_exact(t: Seq<char>, m: int)
    requires
        0 <= m <= t.len(),
        forall|j: int| 0 <= j < m ==> !spec_is_whitespace(#[trigger] t[j]),
        m == t.len() || spec_is_whitespace(t[m]),
    ensures
        spec_word_len(t) == m,
    decreases m,
{
    if m > 0 {
        let u = t.drop_first();
        assert forall|j: int| 0 <= j < m - 1 implies !spec_is_whitespace(#[trigger] u[j]) by {
            assert(u[j] == t[j + 1]);
        }
        if m < t.len() {
            assert(u[m - 1] == t[m]);
        }
        lemma_word_len_exact(u, m - 1);
    }
}

pub proof fn lemma_words_blank(u: Seq<char>)
    requires
        forall|j: int| 0 <= j < u.len() ==> spec_is_whitespace(#[trigger] u[j]),
    ensures
        spec_words(u) == Seq::<Seq<char>>::empty(),
{
    lemma_trim_start_skips(u, u.len() as int);
}

pub proof fn lemma_words_step(u: Seq<char>, k: int, m: int)
    requires
        0 <= k,
        1 <= m,
        k + m <= u.len(),
        forall|j: int| 0 <= j < k ==> spec_is_whitespace(#[trigger] u[j]),
        forall|j: int| k <= j < k + m ==> !spec_is_whitespace(#[trigger] u[j]),
        k + m == u.len() || spec_is_whitespace(u[k + m]),
    ensures
        spec_words(u) == seq![u.subrange(k, k + m)] + spec_words(u.subrange(k + m, u.len() as int)),
{
    lemma_trim_start_skips(u, k);
    let t = u.subrange(k, u.len() as int);
    assert forall|j: int| 0 <= j < m implies !spec_is_whitespace(#[trigger] t[j]) by {
        assert(t[j] == u[j + k]);
    }
    if k + m < u.len() {
        assert(t[m] == u[k + m]);
    }
    lemma_word_len_exact(t, m);
    assert(t.subrange(0, m) =~= u.subrange(k, k + m));
    assert(t.subrange(m, t.len() as int) =~= u.subrange(k + m, u.len() as int));
}

/// The white-space separated words of `s` (as `str::split_whitespace`).
pub fn words(s: &str) -> (r: Vec<String>)
    ensures
        r@.map_values(|w: String| w@) == spec_words(s@),
{
    let n = s.unicode_len();
    let mut out: Vec<String> = Vec::new();
    let mut i: usize = 0;
    assert(out@.map_values(|w: String| w@) =~= Seq::<Seq<char>>::empty());
    assert(s@.subrange(0, n as int) =~= s@);
    assert(Seq::<Seq<char>>::empty() + spec_words(s@) =~= spec_words(s@));
    loop
        invariant
            n == s@.len(),
            i <= n,
            out@.map_values(|w: String| w@) + spec_words(s@.subrange(i as int, n as int))
                == spec_words(s@),
        decreases n - i,
    {
        let ghost u = s@.subrange(i as int, n as int);
        let start0 = i;
        while i < n && is_whitespace(s.get_char(i))
            invariant
                n == s@.len(),
                start0 <= i <= n,
                forall|j: int| start0 <= j < i ==> spec_is_whitespace(#[trigger] s@[j]),
            decreases n - i,
        {
            i += 1;
        }
        if i == n {
            proof {
                assert forall|j: int| 0 <= j < u.len() implies spec_is_whitespace(#[trigger] u[j]) by {
                    assert(u[j] == s@[j + start0]);
                }
                lemma_words_blank(u);
                assert(out@.map_values(|w: String| w@) + Seq::<Seq<char>>::empty() =~= out@.map_values(
                    |w: String| w@,
                ));
            }
            return out;
        }
        let start = i;
        while i < n && !is_whitespace(s.get_char(i))
            invariant
                n == s@.len(),
                start <= i <= n,
                forall|j: int| start <= j < i ==> !spec_is_whitespace(#[trigger] s@[j]),
            decreases n - i,
        {
            i += 1;
        }
        let piece = s.substring_char(start, i);
        let word = String::from_str(piece);
        proof {
            let k = start - start0;
            let m = i - start;
            assert forall|j: int| 0 <= j < k implies spec_is_whitespace(#[trigger] u[j]) by {
                assert(u[j] == s@[j + start0]);
            }
            assert forall|j: int| k <= j < k + m implies !spec_is_whitespace(#[trigger] u[j]) by {
                assert(u[j] == s@[j + start0]);
            }
            if k + m < u.len() {
                assert(u[k + m] == s@[i as int]);
            }
            lemma_words_step(u, k, m);
            assert(u.subrange(k, k + m) =~= s@.subrange(start as int, i as int));
            assert(u.subrange(k + m, u.len() as int) =~= s@.subrange(i as int, n as int));
        }
        let ghost before = out@.map_values(|w: String| w@);
        out.push(word);
        proof {
            assert(out@.map_values(|w: String| w@) =~= before.push(word@));
            assert(before.push(word@) + spec_words(s@.subrange(i as int, n as int)) =~= before + (seq![
                word@,
            ] + spec_words(s@.subrange(i as int, n as int))));
        }
    }
}

proof fn lemma_read_digits_within(s: Seq<char>, acc: nat, max: nat)
    requires
        acc <= max,
        max <= u64::MAX,
    ensures
        spec_read_digits(s, acc, max) matches NumberParse::Parsed(n) ==> n <= max,
    decreases s.len(),
{
    if s.len() > 0 && spec_is_digit(s[0]) && acc * 10 + spec_digit_value(s[0]) <= max {
        lemma_read_digits_within(s.drop_first(), acc * 10 + spec_digit_value(s[0]), max);
    }
}

/// A parsed number never exceeds the bound it was parsed against.
pub proof fn lemma_parsed_within(s: Seq<char>, max: nat)
    requires
        max <= u64::MAX,
    ensures
        spec_parse_unsigned(s, max) matches NumberParse::Parsed(n) ==> n <= max,
{
    if s.len() > 0 {
        if s[0] == '+' {
            if s.len() > 1 {
                lemma_read_digits_within(s.drop_first(), 0, max);
            }
        } else {
            lemma_read_digits_within(s, 0, max);
        }
    }
}

/// Reads an unsigned decimal number no greater than `max` (as `str::parse`
/// for an unsigned integer type whose largest value is `max`).
pub fn parse_unsigned(s: &str, max: u64) -> (r: NumberParse)
    ensures
        r == spec_parse_unsigned(s@, max as nat),
{
    let n = s.unicode_len();
    if n == 0 {
        return NumberParse::Empty;
    }
    let mut i: usize = 0;
    if s.get_char(0) == '+' {
        if n == 1 {
            return NumberParse::InvalidDigit;
        }
        i = 1;
        assert(s@.drop_first() =~= s@.subrange(1, n as int));
    } else {
        assert(s@ =~= s@.subrange(0, n as int));
    }
    let mut acc: u64 = 0;
    while i < n
        invariant
            n == s@.len(),
            i <= n,
            acc <= max,
            spec_parse_unsigned(s@, max as nat) == spec_read_digits(
                s@.subrange(i as int, n as int),
                acc as nat,
                max as nat,
            ),
        decreases n - i,
    {
        let c = s.get_char(i);
        let ghost u = s@.subrange(i as int, n as int);
        assert(u[0] == c);
        assert(u.drop_first() =~= s@.subrange(i + 1, n as int));
        if !('0' <= c && c <= '9') {
            return NumberParse::InvalidDigit;
        }
        let d: u32 = (c as u32) - 48;
        let next: u128 = (acc as u128) * 10 + (d as u128);
        if next > max as u128 {
            return NumberParse::TooLarge;
        }
        acc = next as u64;
        i += 1;
    }
    assert(s@.subrange(n as int, n as int) =~= Seq::<char>::empty());
    NumberParse::Parsed(acc)
}

} // verus!

verus! {

/// Whether two texts are equal character by character.
pub fn text_eq(a: &str, b: &str) -> (r: bool)
    ensures
        r == (a@ == b@),
{
    let n = a.unicode_len();
    if n != b.unicode_len() {
        return false;
    }
    let mut i: usize = 0;
    while i < n
        invariant
            n == a@.len(),
            n == b@.len(),
            i <= n,
            forall|j: int| 0 <= j < i ==> a@[j] == b@[j],
        decreases n - i,
    {
        if a.get_char(i) != b.get_char(i) {
            return false;
        }
        i += 1;
    }
    assert(a@ =~= b@);
    true
}

/// Whether `items` holds a text equal to `s`.
pub fn list_contains(items: &Vec<String>, s: &str) -> (r: bool)
    ensures
        r == exists|i: int| 0 <= i < items@.len() && #[trigger] items@[i]@ == s@,
{
    let n = items.len();
    let mut i: usize = 0;
    while i < n
        invariant
            n == items@.len(),
            i <= n,
            forall|j: int| 0 <= j < i ==> #[trigger] items@[j]@ != s@,
        decreases n - i,
    {
        if text_eq(items[i].as_str(), s) {
            return true;
        }
        i += 1;
    }
    false
}

/// Whether an optional text is present and equal to `s`.
pub fn option_text_is(value: &Option<String>, s: &str) -> (r: bool)
    ensures
        r == (value matches Some(v) && v@ == s@),
{
    match value {
        Some(v) => text_eq(v.as_str(), s),
        None => false,
    }
}

/// A copy of a list of texts.
pub fn copy_texts(items: &Vec<String>) -> (r: Vec<String>)
    ensures
        r@ == items@,
{
    let mut out: Vec<String> = Vec::new();
    let n = items.len();
    let mut i: usize = 0;
    while i < n
        invariant
            n == items@.len(),
            i <= n,
            out@ == items@.subrange(0, i as int),
        decreases n - i,
    {
        out.push(items[i].clone());
        i += 1;
        assert(out@ =~= items@.subrange(0, i as int));
    }
    assert(out@ =~= items@);
    out
}

/// A copy of an optional text.
pub fn copy_option_text(value: &Option<String>) -> (r: Option<String>)
    ensures
        r == *value,
{
    match value {
        Some(v) => Some(v.clone()),
        None => None,
    }
}

/// The pieces of `s` between occurrences of `sep` (as `str::split` with a
/// character): there is always at least one piece.
pub open spec fn spec_split(s: Seq<char>, sep: char) -> Seq<Seq<char>>
    decreases s.len(),
{
    if s.len() == 0 {
        seq![seq![]]
    } else {
        let init = spec_split(s.drop_last(), sep);
        if s.last() == sep {
            init.push(seq![])
        } else {
            init.update(init.len() - 1, init.last().push(s.last()))
        }
    }
}

pub proof fn lemma_split_nonempty(s: Seq<char>, sep: char)
    ensures
        spec_split(s, sep).len() >= 1,
    decreases s.len(),
{
    if s.len() > 0 {
        lemma_split_nonempty(s.drop_last(), sep);
    }
}

/// Appending text without the separator extends the last piece.
pub proof fn lemma_split_extend(s: Seq<char>, t: Seq<char>, sep: char)
    requires
        !t.contains(sep),
    ensures
        spec_split(s + t, sep) == spec_split(s, sep).update(
            spec_split(s, sep).len() - 1,
            spec_split(s, sep).last() + t,
        ),
        spec_split(s + t, sep).len() == spec_split(s, sep).len(),
    decreases t.len(),
{
    lemma_split_nonempty(s, sep);
    if t.len() == 0 {
        assert(s + t =~= s);
        assert(spec_split(s, sep).last() + t =~= spec_split(s, sep).last());
        assert(spec_split(s, sep).update(spec_split(s, sep).len() - 1, spec_split(s, sep).last())
            =~= spec_split(s, sep));
    } else {
        let t0 = t.drop_last();
        assert(!t0.contains(sep)) by {
            if t0.contains(sep) {
                let k = choose|k: int| 0 <= k < t0.len() && t0[k] == sep;
                assert(t[k] == sep);
            }
        }
        lemma_split_extend(s, t0, sep);
        assert((s + t).drop_last() =~= s + t0);
        assert((s + t).last() == t.last());
        assert(t.last() != sep) by {
            assert(t[t.len() - 1] == t.last());
        }
        let p = spec_split(s, sep);
        let init = spec_split(s + t0, sep);
        assert(init.len() == p.len());
        assert(init.last() == p.last() + t0);
        assert((p.last() + t0).push(t.last()) =~= p.last() + t);
        assert(spec_split(s + t, sep) == init.update(init.len() - 1, init.last().push(t.last())));
        assert(init.update(init.len() - 1, init.last().push(t.last())) =~= p.update(
            p.len() - 1,
            p.last() + t,
        ));
    }
}

/// Appending the separator and then text without it adds one piece.
pub proof fn lemma_split_join(s: Seq<char>, t: Seq<char>, sep: char)
    requires
        !t.contains(sep),
    ensures
        spec_split(s + seq![sep] + t, sep) == spec_split(s, sep).push(t),
{
    let u = s + seq![sep];
    assert(u.drop_last() =~= s);
    assert(u.last() == sep);
    lemma_split_nonempty(s, sep);
    lemma_split_extend(u, t, sep);
    let p = spec_split(u, sep);
    assert(p == spec_split(s, sep).push(seq![]));
    assert(seq![] + t =~= t);
    assert(p.update(p.len() - 1, p.last() + t) =~= spec_split(s, sep).push(t));
}

/// Text without the separator is a single piece.
pub proof fn lemma_split_single(t: Seq<char>, sep: char)
    requires
        !t.contains(sep),
    ensures
        spec_split(t, sep) == seq![t],
{
    lemma_split_extend(seq![], t, sep);
    assert(Seq::<char>::empty() + t =~= t);
    assert(spec_split(Seq::<char>::empty(), sep).update(0, seq![] + t) =~= seq![t]);
}

/// Splits a text at every occurrence of a character.
pub fn split_text(s: &str, sep: char) -> (r: Vec<String>)
    ensures
        r@.map_values(|p: String| p@) == spec_split(s@, sep),
{
    let n = s.unicode_len();
    let mut pieces: Vec<String> = Vec::new();
    let mut current = String::new();
    let mut i: usize = 0;
    while i < n
        invariant
            n == s@.len(),
            i <= n,
            pieces@.map_values(|p: String| p@).push(current@) == spec_split(
                s@.subrange(0, i as int),
                sep,
            ),
        decreases n - i,
    {
        let c = s.get_char(i);
        let ghost before = pieces@.map_values(|p: String| p@);
        let ghost prefix = s@.subrange(0, i + 1);
        assert(prefix.drop_last() =~= s@.subrange(0, i as int));
        assert(prefix.last() == c);
        if c == sep {
            let done = current;
            current = String::new();
            pieces.push(done);
            assert(pieces@.map_values(|p: String| p@) =~= before.push(done@));
            assert(pieces@.map_values(|p: String| p@).push(current@) =~= before.push(done@).push(
                seq![],
            ));
        } else {
            let ghost old_current = current@;
            push_char(&mut current, c);
            assert(before.push(current@) =~= before.push(old_current).update(
                before.push(old_current).len() - 1,
                before.push(old_current).last().push(c),
            ));
        }
        i += 1;
    }
    assert(s@.subrange(0, n as int) =~= s@);
    let ghost before = pieces@.map_values(|p: String| p@);
    let last = current;
    pieces.push(last);
    assert(pieces@.map_values(|p: String| p@) =~= before.push(last@));
    pieces
}

/// Whether `a` sorts strictly before `b`, character by character (the
/// order of `str`, since UTF-8 preserves the order of code points).
pub open spec fn spec_text_less(a: Seq<char>, b: Seq<char>) -> bool
    decreases a.len(),
{
    if a.len() == 0 {
        b.len() > 0
    } else if b.len() == 0 {
        false
    } else if a[0] != b[0] {
        (a[0] as u32) < (b[0] as u32)
    } else {
        spec_text_less(a.drop_first(), b.drop_first())
    }
}

/// Whether `a` sorts strictly before `b`.
pub fn text_less(a: &str, b: &str) -> (r: bool)
    ensures
        r == spec_text_less(a@, b@),
{
    let n = a.unicode_len();
    let m = b.unicode_len();
    let mut i: usize = 0;
    assert(a@.skip(0) =~= a@);
    assert(b@.skip(0) =~= b@);
    while i < n && i < m
        invariant
            n == a@.len(),
            m == b@.len(),
            i <= n,
            i <= m,
            spec_text_less(a@, b@) == spec_text_less(a@.skip(i as int), b@.skip(i as int)),
        decreases n - i,
    {
        let x = a.get_char(i);
        let y = b.get_char(i);
        assert(a@.skip(i as int)[0] == x);
        assert(b@.skip(i as int)[0] == y);
        if x != y {
            return (x as u32) < (y as u32);
        }
        assert(a@.skip(i as int).drop_first() =~= a@.skip(i + 1));
        assert(b@.skip(i as int).drop_first() =~= b@.skip(i + 1));
        i += 1;
    }
    i < m
}

pub proof fn lemma_text_less_irreflexive(a: Seq<char>)
    ensures
        !spec_text_less(a, a),
    decreases a.len(),
{
    if a.len() > 0 {
        lemma_text_less_irreflexive(a.drop_first());
    }
}

pub proof fn lemma_text_less_total(a: Seq<char>, b: Seq<char>)
    ensures
        a == b || spec_text_less(a, b) || spec_text_less(b, a),
    decreases a.len(),
{
    if a.len() > 0 && b.len() > 0 && a[0] == b[0] {
        lemma_text_less_total(a.drop_first(), b.drop_first());
        if a.drop_first() == b.drop_first() {
            assert(a =~= seq![a[0]] + a.drop_first());
            assert(b =~= seq![b[0]] + b.drop_first());
        }
    } else if a.len() == 0 && b.len() == 0 {
        assert(a =~= b);
    } else if a.len() > 0 && b.len() > 0 {
        if (a[0] as u32) == (b[0] as u32) {
            vstd::utf8::char_u32_cast(a[0], a[0] as u32);
            vstd::utf8::char_u32_cast(b[0], b[0] as u32);
        }
    }
}

pub proof fn lemma_text_less_asymmetric(a: Seq<char>, b: Seq<char>)
    ensures
        !(spec_text_less(a, b) && spec_text_less(b, a)),
    decreases a.len(),
{
    if a.len() > 0 && b.len() > 0 && a[0] == b[0] {
        lemma_text_less_asymmetric(a.drop_first(), b.drop_first());
    }
}

pub proof fn lemma_text_less_transitive(a: Seq<char>, b: Seq<char>, c: Seq<char>)
    requires
        spec_text_less(a, b),
        spec_text_less(b, c),
    ensures
        spec_text_less(a, c),
    decreases a.len(),
{
    if a.len() > 0 && b.len() > 0 && c.len() > 0 && a[0] == b[0] && b[0] == c[0] {
        lemma_text_less_transitive(a.drop_first(), b.drop_first(), c.drop_first());
    }
}


/// The items joined by `sep` (as `[String]::join`).
pub open spec fn spec_join(items: Seq<Seq<char>>, sep: Seq<char>) -> Seq<char>
    decreases items.len(),
{
    if items.len() == 0 {
        Seq::empty()
    } else if items.len() == 1 {
        items[0]
    } else {
        spec_join(items.drop_last(), sep) + sep + items.last()
    }
}

/// The texts joined by `sep`.
pub fn join_texts(items: &Vec<String>, sep: &str) -> (r: String)
    ensures
        r@ == spec_join(items@.map_values(|t: String| t@), sep@),
{
    let ghost views = items@.map_values(|t: String| t@);
    let n = items.len();
    let mut out = String::new();
    let mut i: usize = 0;
    while i < n
        invariant
            n == items@.len(),
            views == items@.map_values(|t: String| t@),
            i <= n,
            out@ == spec_join(views.subrange(0, i as int), sep@),
        decreases n - i,
    {
        proof {
            let pre = views.subrange(0, i + 1);
            assert(pre.drop_last() =~= views.subrange(0, i as int));
            assert(pre.last() == items@[i as int]@);
            if i == 0 {
                assert(pre[0] == items@[0]@);
            }
        }
        if i > 0 {
            out.append(sep);
        }
        out.append(items[i].as_str());
        i += 1;
        proof {
            if i == 1 {
                assert(out@ =~= spec_join(views.subrange(0, i as int), sep@));
            }
        }
    }
    proof {
        assert(views.subrange(0, n as int) =~= views);
    }
    out
}

} // verus!
