//! Character-level helpers on strings: trimming, searching, ASCII case and
//! decimal numerals.
//!
//! A string is modelled by its sequence of characters, `s@: Seq<char>`.

use vstd::prelude::*;
use vstd::string::*;

verus! {

// ---------------------------------------------------------------- white space

/// The Unicode `White_Space` property.
pub open spec fn is_white(c: char) -> bool {
    let n = c as u32;
    ||| 0x9 <= n <= 0xD
    ||| n == 0x20
    ||| n == 0x85
    ||| n == 0xA0
    ||| n == 0x1680
    ||| 0x2000 <= n <= 0x200A
    ||| n == 0x2028
    ||| n == 0x2029
    ||| n == 0x202F
    ||| n == 0x205F
    ||| n == 0x3000
}

/// Whether `c` is white space.
pub fn is_white_space(c: char) -> (r: bool)
    ensures
        r == is_white(c),
{
    let n: u32 = c as u32;
    (0x9 <= n && n <= 0xD) || n == 0x20 || n == 0x85 || n == 0xA0 || n == 0x1680 || (0x2000 <= n
        && n <= 0x200A) || n == 0x2028 || n == 0x2029 || n == 0x202F || n == 0x205F || n == 0x3000
}

/// A string with nothing but white space in it; the empty string is one.
pub open spec fn blank(s: Seq<char>) -> bool {
    forall|i: int| 0 <= i < s.len() ==> is_white(#[trigger] s[i])
}

/// An absent string counts as blank.
pub open spec fn blank_opt(s: Option<Seq<char>>) -> bool {
    match s {
        Some(t) => blank(t),
        None => true,
    }
}

/// `t` is what is left of `s` once the white space at both ends is gone:
/// `s` is white space, then `t`, then white space, and `t` neither begins nor
/// ends with white space.
pub open spec fn is_trimmed(s: Seq<char>, t: Seq<char>) -> bool {
    exists|a: int, b: int| #[trigger] trims_at(s, t, a, b)
}

/// `t` is `s[a..b]`, with white space only outside and none at its own ends.
pub open spec fn trims_at(s: Seq<char>, t: Seq<char>, a: int, b: int) -> bool {
    &&& 0 <= a <= b <= s.len()
    &&& t == s.subrange(a, b)
    &&& blank(s.subrange(0, a))
    &&& blank(s.subrange(b, s.len() as int))
    &&& t.len() > 0 ==> !is_white(t[0]) && !is_white(t.last())
}

/// What is left of `s` once the white space at both ends is gone.
pub open spec fn trimmed(s: Seq<char>) -> Seq<char> {
    choose|t: Seq<char>| is_trimmed(s, t)
}

/// Trimming has exactly one result.
pub proof fn lemma_trimmed_unique(s: Seq<char>, t: Seq<char>)
    requires
        is_trimmed(s, t),
    ensures
        t == trimmed(s),
        t.len() == 0 <==> blank(s),
{
    let u = trimmed(s);
    let (a, b) = choose|a: int, b: int| trims_at(s, t, a, b);
    let (c, d) = choose|c: int, d: int| trims_at(s, u, c, d);
    assert(trims_at(s, t, a, b) && trims_at(s, u, c, d));
    lemma_blank_iff_trims_empty(s, t, a, b);
    lemma_blank_iff_trims_empty(s, u, c, d);
    if !blank(s) {
        assert(t[0] == s[a] && t.last() == s[b - 1]);
        assert(u[0] == s[c] && u.last() == s[d - 1]);
        if a < c {
            assert(s.subrange(0, c)[a] == s[a]);
        }
        if c < a {
            assert(s.subrange(0, a)[c] == s[c]);
        }
        if b < d {
            assert(s.subrange(b, s.len() as int)[d - 1 - b] == s[d - 1]);
        }
        if d < b {
            assert(s.subrange(d, s.len() as int)[b - 1 - d] == s[b - 1]);
        }
    }
    assert(t =~= u);
}

proof fn lemma_blank_iff_trims_empty(s: Seq<char>, t: Seq<char>, a: int, b: int)
    requires
        trims_at(s, t, a, b),
    ensures
        t.len() == 0 <==> blank(s),
{
    if t.len() == 0 {
        assert forall|i: int| 0 <= i < s.len() implies is_white(#[trigger] s[i]) by {
            if i < a {
                assert(s.subrange(0, a)[i] == s[i]);
            } else {
                assert(s.subrange(b, s.len() as int)[i - b] == s[i]);
            }
        }
    } else {
        assert(t[0] == s[a]);
    }
}

/// The characters of `s`, one by one.
pub fn chars_of(s: &str) -> (r: Vec<char>)
    ensures
        r@ == s@,
{
    let mut out: Vec<char> = Vec::new();
    for c in it: s.chars()
        invariant
            it.seq() == s@,
            out@ == s@.take(it.index() as int),
    {
        out.push(c);
    }
    assert(s@.take(s@.len() as int) =~= s@);
    out
}

/// Whether `s` holds nothing but white space.
pub fn is_blank(s: &str) -> (r: bool)
    ensures
        r == blank(s@),
{
    let chars = chars_of(s);
    let mut i: usize = 0;
    while i < chars.len()
        invariant
            chars@ == s@,
            i <= chars.len(),
            forall|j: int| 0 <= j < i ==> is_white(#[trigger] s@[j]),
        decreases chars.len() - i,
    {
        if !is_white_space(chars[i]) {
            return false;
        }
        i += 1;
    }
    true
}

/// Whether `s` is absent or holds nothing but white space.
pub fn is_blank_opt(s: &Option<String>) -> (r: bool)
    ensures
        r == blank_opt(s.deep_view()),
{
    match s {
        Some(t) => is_blank(t.as_str()),
        None => true,
    }
}

/// `s` without the white space at its ends.
pub fn trim(s: &str) -> (r: &str)
    ensures
        r@ == trimmed(s@),
        r@.len() == 0 <==> blank(s@),
        is_trimmed(s@, r@),
{
    let chars = chars_of(s);
    let mut a: usize = 0;
    while a < chars.len() && is_white_space(chars[a])
        invariant
            chars@ == s@,
            a <= chars.len(),
            forall|j: int| 0 <= j < a ==> is_white(#[trigger] s@[j]),
        decreases chars.len() - a,
    {
        a += 1;
    }
    let mut b: usize = chars.len();
    while b > a && is_white_space(chars[b - 1])
        invariant
            chars@ == s@,
            a <= b <= chars.len(),
            a < chars.len() ==> !is_white(s@[a as int]),
            forall|j: int| 0 <= j < a ==> is_white(#[trigger] s@[j]),
            forall|j: int| b <= j < chars.len() ==> is_white(#[trigger] s@[j]),
        decreases b,
    {
        b -= 1;
    }
    let t = s.substring_char(a, b);
    proof {
        assert(trims_at(s@, t@, a as int, b as int));
        lemma_trimmed_unique(s@, t@);
    }
    t
}

// ------------------------------------------------------------------ searching

/// `p` stands in `s` at position `i`.
pub open spec fn occurs_at(s: Seq<char>, p: Seq<char>, i: int) -> bool {
    &&& 0 <= i <= s.len() - p.len()
    &&& s.subrange(i, i + p.len()) == p
}

/// `p` stands somewhere in `s`.
pub open spec fn contains_text(s: Seq<char>, p: Seq<char>) -> bool {
    exists|i: int| occurs_at(s, p, i)
}

/// `s` begins with `p`.
pub open spec fn begins_with(s: Seq<char>, p: Seq<char>) -> bool {
    occurs_at(s, p, 0)
}

/// Whether `p` stands in `s` at position `i`.
pub fn chars_occur_at(s: &Vec<char>, p: &Vec<char>, i: usize) -> (r: bool)
    ensures
        r == occurs_at(s@, p@, i as int),
{
    if p.len() > s.len() || i > s.len() - p.len() {
        return false;
    }
    let mut k: usize = 0;
    while k < p.len()
        invariant
            i + p.len() <= s.len(),
            k <= p.len(),
            forall|j: int| 0 <= j < k ==> s@[i + j] == #[trigger] p@[j],
        decreases p.len() - k,
    {
        if s[i + k] != p[k] {
            assert(s@.subrange(i as int, i + p@.len())[k as int] != p@[k as int]);
            return false;
        }
        k += 1;
    }
    assert(s@.subrange(i as int, i + p@.len()) =~= p@);
    true
}

/// The first position at or after `from` where `p` stands in `s`.
pub open spec fn first_at(s: Seq<char>, p: Seq<char>, from: int) -> Option<int>
    decreases s.len() + 1 - from,
{
    if from > s.len() - p.len() {
        None
    } else if occurs_at(s, p, from) {
        Some(from)
    } else {
        first_at(s, p, from + 1)
    }
}

/// What the search finds is at or after its start.
pub proof fn lemma_found_at(s: Seq<char>, p: Seq<char>, from: int)
    ensures
        first_at(s, p, from) matches Some(i) ==> from <= i && occurs_at(s, p, i),
    decreases s.len() + 1 - from,
{
    if from <= s.len() - p.len() && !occurs_at(s, p, from) {
        lemma_found_at(s, p, from + 1);
    }
}

/// The first position where `p` stands is what the search finds.
pub proof fn lemma_first_at(s: Seq<char>, p: Seq<char>, from: int, i: int)
    requires
        from <= i,
        occurs_at(s, p, i),
        forall|j: int| from <= j < i ==> !occurs_at(s, p, j),
    ensures
        first_at(s, p, from) == Some(i),
    decreases i - from,
{
    if from < i {
        assert(!occurs_at(s, p, from));
        lemma_first_at(s, p, from + 1, i);
    }
}

/// The search finds nothing where `p` stands nowhere.
pub proof fn lemma_first_at_none(s: Seq<char>, p: Seq<char>, from: int)
    requires
        forall|j: int| from <= j ==> !occurs_at(s, p, j),
    ensures
        first_at(s, p, from) is None,
    decreases s.len() + 1 - from,
{
    if from <= s.len() - p.len() {
        assert(!occurs_at(s, p, from));
        lemma_first_at_none(s, p, from + 1);
    }
}

/// The first position at or after `from` where `p` stands in `s`.
pub fn find_chars(s: &Vec<char>, p: &Vec<char>, from: usize) -> (r: Option<usize>)
    ensures
        match r {
            Some(i) => from <= i && occurs_at(s@, p@, i as int) && forall|j: int|
                from <= j < i ==> !occurs_at(s@, p@, j),
            None => forall|j: int| from <= j ==> !occurs_at(s@, p@, j),
        },
{
    if p.len() > s.len() {
        return None;
    }
    let mut i: usize = from;
    while i <= s.len() - p.len()
        invariant
            p.len() <= s.len(),
            from <= i,
            forall|j: int| from <= j < i ==> !occurs_at(s@, p@, j),
        decreases s.len() + 1 - i,
    {
        if chars_occur_at(s, p, i) {
            return Some(i);
        }
        if i == usize::MAX {
            return None;
        }
        i += 1;
    }
    None
}

/// Whether `p` stands somewhere in `s`.
pub fn contains(s: &str, p: &str) -> (r: bool)
    ensures
        r == contains_text(s@, p@),
{
    chars_contain(&chars_of(s), p)
}

/// Whether `p` stands somewhere in `s`.
pub fn chars_contain(s: &Vec<char>, p: &str) -> (r: bool)
    ensures
        r == contains_text(s@, p@),
{
    match find_chars(s, &chars_of(p), 0) {
        Some(i) => {
            assert(occurs_at(s@, p@, i as int));
            true
        },
        None => false,
    }
}

/// Whether `s` begins with `p`.
pub fn starts_with(s: &str, p: &str) -> (r: bool)
    ensures
        r == begins_with(s@, p@),
{
    chars_occur_at(&chars_of(s), &chars_of(p), 0)
}

/// Whether two strings hold the same characters.
pub fn same_text(a: &str, b: &str) -> (r: bool)
    ensures
        r == (a@ == b@),
{
    let x = chars_of(a);
    let y = chars_of(b);
    if x.len() != y.len() {
        return false;
    }
    let r = chars_occur_at(&x, &y, 0);
    assert(x@.subrange(0, y@.len() as int) =~= x@);
    r
}

// ----------------------------------------------------------------- ASCII case

/// The lower-case form of an ASCII letter; any other character as it is.
pub open spec fn lower_char(c: char) -> char {
    if 'A' <= c <= 'Z' {
        ((c as u32) + 32) as char
    } else {
        c
    }
}

/// `s` with its ASCII letters in lower case.
pub open spec fn lower(s: Seq<char>) -> Seq<char> {
    s.map_values(|c: char| lower_char(c))
}

/// The lower-case form of an ASCII letter; any other character as it is.
pub fn lower_case(c: char) -> (r: char)
    ensures
        r == lower_char(c),
{
    if 'A' <= c && c <= 'Z' {
        let n: u8 = (c as u8) + 32;
        n as char
    } else {
        c
    }
}

/// The characters of `s` with the ASCII letters in lower case.
pub fn lower_chars(s: &str) -> (r: Vec<char>)
    ensures
        r@ == lower(s@),
{
    let chars = chars_of(s);
    let mut out: Vec<char> = Vec::new();
    let mut i: usize = 0;
    while i < chars.len()
        invariant
            chars@ == s@,
            i <= chars.len(),
            out@ == lower(s@.take(i as int)),
        decreases chars.len() - i,
    {
        out.push(lower_case(chars[i]));
        i += 1;
        assert(out@ =~= lower(s@.take(i as int)));
    }
    assert(s@.take(i as int) =~= s@);
    out
}

/// Whether two strings are equal but for the case of ASCII letters.
pub fn eq_ignore_ascii_case(a: &str, b: &str) -> (r: bool)
    ensures
        r == (lower(a@) == lower(b@)),
{
    let x = lower_chars(a);
    let y = lower_chars(b);
    if x.len() != y.len() {
        return false;
    }
    let r = chars_occur_at(&x, &y, 0);
    assert(x@.subrange(0, y@.len() as int) =~= x@);
    r
}

// ------------------------------------------------------------------- numerals

/// The decimal digit `d`, for `d < 10`.
pub open spec fn digit_char(d: nat) -> char {
    (48 + d) as char
}

/// The decimal numeral of `n`, without leading zeros.
pub open spec fn decimal(n: nat) -> Seq<char>
    decreases n,
{
    if n < 10 {
        seq![digit_char(n)]
    } else {
        decimal(n / 10).push(digit_char(n % 10))
    }
}

/// The decimal numeral of an integer, with `-` in front of a negative one.
pub open spec fn decimal_int(n: int) -> Seq<char> {
    if n < 0 {
        seq!['-'] + decimal((-n) as nat)
    } else {
        decimal(n as nat)
    }
}

fn push_digit(out: &mut String, d: u8)
    requires
        d < 10,
    ensures
        final(out)@ == old(out)@.push(digit_char(d as nat)),
{
    proof {
        reveal_strlit("0");
        reveal_strlit("1");
        reveal_strlit("2");
        reveal_strlit("3");
        reveal_strlit("4");
        reveal_strlit("5");
        reveal_strlit("6");
        reveal_strlit("7");
        reveal_strlit("8");
        reveal_strlit("9");
    }
    let text = match d {
        0 => "0",
        1 => "1",
        2 => "2",
        3 => "3",
        4 => "4",
        5 => "5",
        6 => "6",
        7 => "7",
        8 => "8",
        _ => "9",
    };
    assert(text@ =~= seq![digit_char(d as nat)]);
    let ghost before = out@;
    out.append(text);
    assert(out@ =~= before.push(digit_char(d as nat)));
}

/// Append the decimal numeral of `n`.
pub fn push_u128(out: &mut String, n: u128)
    ensures
        final(out)@ == old(out)@ + decimal(n as nat),
    decreases n,
{
    let ghost before = out@;
    if n >= 10 {
        push_u128(out, n / 10);
    }
    push_digit(out, (n % 10) as u8);
    assert(out@ =~= before + decimal(n as nat));
}

/// Append the decimal numeral of `n`.
pub fn push_i128(out: &mut String, n: i128)
    ensures
        final(out)@ == old(out)@ + decimal_int(n as int),
{
    let ghost before = out@;
    if n < 0 {
        proof {
            reveal_strlit("-");
        }
        out.append("-");
        assert("-"@ =~= seq!['-']);
        let magnitude: u128 = if n == i128::MIN {
            170_141_183_460_469_231_731_687_303_715_884_105_728
        } else {
            (-n) as u128
        };
        push_u128(out, magnitude);
        assert(out@ =~= before + decimal_int(n as int));
    } else {
        push_u128(out, n as u128);
    }
}

/// The decimal numeral of `n`.
pub fn u64_text(n: u64) -> (r: String)
    ensures
        r@ == decimal(n as nat),
{
    let mut out = String::new();
    push_u128(&mut out, n as u128);
    assert(out@ =~= decimal(n as nat));
    out
}

/// `c` is a decimal digit.
pub open spec fn is_digit(c: char) -> bool {
    '0' <= c <= '9'
}

/// The number that a sequence of decimal digits denotes.
pub open spec fn digits_value(s: Seq<char>) -> nat
    decreases s.len(),
{
    if s.len() == 0 {
        0
    } else {
        digits_value(s.drop_last()) * 10 + (s.last() as u32 - 48) as nat
    }
}

/// `s` without a leading `+`.
pub open spec fn unsigned_part(s: Seq<char>) -> Seq<char> {
    if s.len() > 0 && s[0] == '+' {
        s.skip(1)
    } else {
        s
    }
}

/// `s` reads as an unsigned 64-bit integer: an optional `+`, then one or more
/// decimal digits, of a value that fits.
pub open spec fn reads_as_u64(s: Seq<char>) -> bool {
    let t = unsigned_part(s);
    &&& t.len() > 0
    &&& forall|i: int| 0 <= i < t.len() ==> is_digit(#[trigger] t[i])
    &&& digits_value(t) <= u64::MAX
}

/// The value that `s` reads as, if it reads as an unsigned 64-bit integer.
pub open spec fn u64_value(s: Seq<char>) -> Option<u64> {
    if reads_as_u64(s) {
        Some(digits_value(unsigned_part(s)) as u64)
    } else {
        None
    }
}

proof fn lemma_digits_grow(s: Seq<char>, i: int)
    requires
        0 <= i <= s.len(),
        forall|j: int| 0 <= j < s.len() ==> is_digit(#[trigger] s[j]),
    ensures
        digits_value(s.take(i)) <= digits_value(s),
    decreases s.len() - i,
{
    if i < s.len() {
        lemma_digits_grow(s, i + 1);
        assert(s.take(i + 1).drop_last() =~= s.take(i));
    } else {
        assert(s.take(i) =~= s);
    }
}

/// Read an unsigned 64-bit integer.
pub fn parse_u64(s: &str) -> (r: Option<u64>)
    ensures
        r == u64_value(s@),
{
    let chars = chars_of(s);
    let start: usize = if chars.len() > 0 && chars[0] == '+' {
        1
    } else {
        0
    };
    let ghost t = unsigned_part(s@);
    assert(t =~= s@.skip(start as int));
    if chars.len() == start {
        return None;
    }
    let mut value: u64 = 0;
    let mut i: usize = start;
    while i < chars.len()
        invariant
            chars@ == s@,
            t == unsigned_part(s@),
            t == s@.skip(start as int),
            start <= i <= chars.len(),
            forall|j: int| 0 <= j < i - start ==> is_digit(#[trigger] t[j]),
            value == digits_value(t.take(i - start)),
        decreases chars.len() - i,
    {
        let c = chars[i];
        assert(c == t[i - start]);
        if !('0' <= c && c <= '9') {
            return None;
        }
        let d: u64 = (c as u32 - 48) as u64;
        proof {
            assert(t.take(i - start + 1).drop_last() =~= t.take(i - start));
            assert(digits_value(t.take(i - start + 1)) == value * 10 + d);
            if forall|j: int| 0 <= j < t.len() ==> is_digit(#[trigger] t[j]) {
                lemma_digits_grow(t, i - start + 1);
            }
        }
        if value > (u64::MAX - d) / 10 {
            return None;
        }
        value = value * 10 + d;
        i += 1;
    }
    assert(t.take(i - start) =~= t);
    Some(value)
}

/// A numeral has digits only, and they denote the number.
pub proof fn lemma_decimal_digits(n: nat)
    ensures
        decimal(n).len() > 0,
        forall|i: int| 0 <= i < decimal(n).len() ==> is_digit(#[trigger] decimal(n)[i]),
        digits_value(decimal(n)) == n,
    decreases n,
{
    if n < 10 {
        assert(decimal(n).drop_last() =~= Seq::<char>::empty());
        assert(digits_value(decimal(n)) == n) by {
            reveal_with_fuel(digits_value, 2);
        }
    } else {
        lemma_decimal_digits(n / 10);
        assert(decimal(n).drop_last() =~= decimal(n / 10));
    }
}

/// Reading the numeral of a number gives the number back.
pub proof fn lemma_decimal_reads_back(n: u64)
    ensures
        u64_value(decimal(n as nat)) == Some(n),
{
    lemma_decimal_digits(n as nat);
    assert(is_digit(decimal(n as nat)[0]));
}

} // verus!
