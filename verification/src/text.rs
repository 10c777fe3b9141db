//! Character-level helpers shared by the string-building modules:
//! appending characters and decimal rendering of integers.

use vstd::prelude::*;

verus! {

/// The ASCII digit for `d` (meaningful for `0 <= d < 10`).
pub open spec fn digit_char(d: nat) -> char {
    (48 + d) as char
}

/// Decimal rendering of `n`, most significant digit first, without leading zeros.
pub open spec fn dec(n: nat) -> Seq<char>
    decreases n,
{
    if n < 10 {
        seq![digit_char(n)]
    } else {
        dec(n / 10).push(digit_char(n % 10))
    }
}

/// Decimal rendering of `n` left-padded with `'0'` to at least `width` characters
/// (the `{:0width$}` format of std).
pub open spec fn dec_padded(n: nat, width: nat) -> Seq<char> {
    let d = dec(n);
    if d.len() < width {
        Seq::new((width - d.len()) as nat, |i: int| '0') + d
    } else {
        d
    }
}

/// Appends one character to a `String` (std's `String::push`).
#[verifier::external_body]
pub(crate) fn push_char(s: &mut String, c: char)
    ensures
        final(s)@ == old(s)@.push(c),
{
    s.push(c);
}

/// Appends a string slice to a `String`.
pub fn push_str(s: &mut String, t: &str)
    ensures
        final(s)@ == old(s)@ + t@,
{
    s.append(t);
}

/// The character of the decimal digit `d`.
pub fn digit(d: u64) -> (c: char)
    requires
        d < 10,
    ensures
        c == digit_char(d as nat),
{
    let b: u8 = 48u8 + d as u8;
    b as char
}

/// Number of decimal digits of `n`.
pub fn dec_len(n: u64) -> (k: usize)
    ensures
        k == dec(n as nat).len(),
        1 <= k <= 20,
    decreases n,
{
    if n < 10 {
        1
    } else {
        proof {
            assert(pow10(19) == 10000000000000000000) by { reveal_with_fuel(pow10, 20); }
            lemma_dec_len_le((n / 10) as nat, 19);
        }
        1 + dec_len(n / 10)
    }
}

/// Ten to the power `k`.
pub open spec fn pow10(k: nat) -> nat
    decreases k,
{
    if k == 0 { 1 } else { 10 * pow10((k - 1) as nat) }
}

/// A number below `10^k` (with `k >= 1`) has at most `k` decimal digits.
pub proof fn lemma_dec_len_le(n: nat, k: nat)
    requires
        1 <= k,
        n < pow10(k),
    ensures
        1 <= dec(n).len() <= k,
    decreases n,
{
    if n >= 10 {
        let p = pow10((k - 1) as nat);
        assert(k >= 2) by {
            if k == 1 {
                assert(pow10(1) == 10) by { reveal_with_fuel(pow10, 2); }
            }
        }
        assert(n / 10 < p) by (nonlinear_arith)
            requires n < 10 * p, p >= 1;
        lemma_dec_len_le(n / 10, (k - 1) as nat);
    }
}

/// Appends the decimal rendering of `n`.
pub fn push_decimal(out: &mut String, n: u64)
    ensures
        final(out)@ == old(out)@ + dec(n as nat),
    decreases n,
{
    if n >= 10 {
        push_decimal(out, n / 10);
    }
    push_char(out, digit(n % 10));
}

/// Appends the decimal rendering of `n`, left-padded with zeros to `width` characters.
pub fn push_decimal_padded(out: &mut String, n: u64, width: usize)
    ensures
        final(out)@ == old(out)@ + dec_padded(n as nat, width as nat),
{
    let k = dec_len(n);
    let ghost start = out@;
    if k < width {
        let mut i: usize = k;
        while i < width
            invariant
                k <= i <= width,
                out@ == start + Seq::new((i - k) as nat, |j: int| '0'),
            decreases width - i,
        {
            push_char(out, '0');
            i = i + 1;
            assert(out@ =~= start + Seq::new((i - k) as nat, |j: int| '0'));
        }
    }
    let ghost mid = out@;
    push_decimal(out, n);
    assert(out@ =~= start + dec_padded(n as nat, width as nat));
}

/// The decimal rendering of `n` as a new `String`.
pub fn decimal(n: u64) -> (s: String)
    ensures
        s@ == dec(n as nat),
{
    let mut s = String::new();
    push_decimal(&mut s, n);
    assert(s@ =~= dec(n as nat));
    s
}

/// ASCII lowercase of one character: `A`..`Z` become `a`..`z`, everything else stays.
pub open spec fn ascii_lower_char(c: char) -> char {
    if 'A' <= c && c <= 'Z' {
        ((c as u32) + 32) as char
    } else {
        c
    }
}

/// ASCII lowercase of a character sequence.
pub open spec fn ascii_lower(s: Seq<char>) -> Seq<char> {
    s.map_values(|c: char| ascii_lower_char(c))
}

/// ASCII uppercase of one character (other characters unchanged).
pub open spec fn ascii_upper_char(c: char) -> char {
    if 'a' <= c && c <= 'z' {
        ((c as u32) - 32) as char
    } else {
        c
    }
}

/// The ASCII uppercase of one character.
pub fn upper_char(c: char) -> (r: char)
    ensures
        r == ascii_upper_char(c),
{
    if 'a' <= c && c <= 'z' {
        let u: u32 = (c as u32) - 32;
        assert(0x41 <= u <= 0x5a);
        char_from_ascii_code(u)
    } else {
        c
    }
}

/// The ASCII lowercase of one character.
pub fn lower_char(c: char) -> (r: char)
    ensures
        r == ascii_lower_char(c),
{
    if 'A' <= c && c <= 'Z' {
        let u: u32 = (c as u32) + 32;
        assert(0x61 <= u <= 0x7a);
        char_from_ascii_code(u)
    } else {
        c
    }
}

/// The character with the given code point, for a code point in the ASCII range.
pub fn char_from_ascii_code(u: u32) -> (c: char)
    requires
        u < 128,
    ensures
        c == u as char,
{
    let b: u8 = u as u8;
    b as char
}

/// The characters of `s`, ASCII-lowercased.
pub fn ascii_lowercase_chars(s: &str) -> (v: Vec<char>)
    ensures
        v@ == ascii_lower(s@),
{
    let mut v: Vec<char> = Vec::new();
    for c in it: s.chars()
        invariant
            it.seq() == s@,
            v@ == ascii_lower(s@.take(it.index() as int)),
    {
        assert(s@.take(it.index() + 1) == s@.take(it.index() as int).push(c));
        v.push(lower_char(c));
        assert(v@ =~= ascii_lower(s@.take(it.index() + 1)));
    }
    assert(s@.take(s@.len() as int) == s@);
    v
}

/// The characters of `s`.
pub fn chars_of(s: &str) -> (v: Vec<char>)
    ensures
        v@ == s@,
{
    let mut v: Vec<char> = Vec::new();
    for c in it: s.chars()
        invariant
            it.seq() == s@,
            v@ == s@.take(it.index() as int),
    {
        v.push(c);
        assert(v@ =~= s@.take(it.index() + 1));
    }
    assert(s@.take(s@.len() as int) == s@);
    v
}

/// Whether the characters in `a` spell exactly `b`.
pub fn chars_equal(a: &Vec<char>, b: &str) -> (r: bool)
    ensures
        r == (a@ == b@),
{
    let bv = chars_of(b);
    if a.len() != bv.len() {
        return false;
    }
    let mut i: usize = 0;
    while i < a.len()
        invariant
            a@.len() == bv@.len(),
            bv@ == b@,
            i <= a@.len(),
            forall|j: int| 0 <= j < i ==> a@[j] == bv@[j],
        decreases a.len() - i,
    {
        if a[i] != bv[i] {
            return false;
        }
        i = i + 1;
    }
    assert(a@ =~= bv@);
    true
}

/// An element is in `s.push(c)` exactly when it is in `s` or is `c`.
pub proof fn lemma_contains_push<A>(s: Seq<A>, x: A, c: A)
    ensures
        s.push(c).contains(x) <==> (s.contains(x) || x == c),
{
    let t = s.push(c);
    if t.contains(x) {
        let j = choose|j: int| 0 <= j < t.len() && t[j] == x;
        if j < s.len() {
            assert(s[j] == x);
        }
    }
    if s.contains(x) {
        let j = choose|j: int| 0 <= j < s.len() && s[j] == x;
        assert(t[j] == x);
    }
    if x == c {
        assert(t[s.len() as int] == x);
    }
}

/// Whether two string slices hold the same text.
pub fn str_equal(a: &str, b: &str) -> (r: bool)
    ensures
        r == (a@ == b@),
{
    let av = chars_of(a);
    chars_equal(&av, b)
}

} // verus!
