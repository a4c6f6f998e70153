//! Texts and numerals.

use vstd::prelude::*;

use crate::text::{
    begins_with, blank, contains_text, decimal, decimal_int, digits_value, is_digit, is_white,
    lemma_decimal_digits, lower, occurs_at, unsigned_part, u64_value,
};

verus! {

/// A blank text has nothing but white space in it. A blank, a tab and the ends
/// of lines are white space; no visible ASCII character is.
pub proof fn lemma_blank_texts(s: Seq<char>)
    ensures
        blank(s) <==> forall|i: int| 0 <= i < s.len() ==> is_white(#[trigger] s[i]),
        s.len() == 0 ==> blank(s),
        is_white(' ') && is_white('\t') && is_white('\n') && is_white('\r'),
        forall|c: char| #[trigger]
            is_white(c) <==> 9 <= c as u32 <= 13 || c as u32 == 0x20 || c as u32 == 0x85 || c as u32
                == 0xa0 || c as u32 == 0x1680 || 0x2000 <= c as u32 <= 0x200a || c as u32 == 0x2028
                || c as u32 == 0x2029 || c as u32 == 0x202f || c as u32 == 0x205f || c as u32
                == 0x3000,
        forall|c: char| '!' <= c <= '~' ==> !#[trigger] is_white(c),
        forall|i: int| 0 <= i < s.len() && '!' <= #[trigger] s[i] <= '~' ==> !blank(s),
{
}

/// A text between two others is found there, and what is found somewhere stands
/// between what comes before and what comes after.
pub proof fn lemma_found_text(a: Seq<char>, p: Seq<char>, b: Seq<char>, s: Seq<char>)
    ensures
        contains_text(a + p + b, p),
        begins_with(p + b, p),
        contains_text(s, p) ==> exists|i: int|
            0 <= i <= s.len() - p.len() && s == #[trigger] s.take(i) + p + s.skip(i + p.len()),
        begins_with(s, p) ==> p.len() <= s.len() && s == p + s.skip(p.len() as int),
{
    let t = a + p + b;
    assert(t.subrange(a.len() as int, (a.len() + p.len()) as int) =~= p);
    assert(occurs_at(t, p, a.len() as int));
    assert((p + b).subrange(0, p.len() as int) =~= p);
    assert(occurs_at(p + b, p, 0));
    if contains_text(s, p) {
        let i = choose|i: int| occurs_at(s, p, i);
        assert(s.subrange(i, i + p.len()) == p);
        assert(s =~= s.take(i) + p + s.skip(i + p.len()));
    }
    if begins_with(s, p) {
        assert(s.subrange(0, p.len() as int) == p);
        assert(s =~= p + s.skip(p.len() as int));
    }
}

/// Lower case changes the ASCII capitals to their small letters, one for one,
/// and nothing else.
pub proof fn lemma_lower_case(s: Seq<char>, i: int)
    requires
        0 <= i < s.len(),
    ensures
        lower(s).len() == s.len(),
        'A' <= s[i] <= 'Z' ==> lower(s)[i] as u32 == s[i] as u32 + 32,
        !('A' <= s[i] <= 'Z') ==> lower(s)[i] == s[i],
{
}

/// The digits of a numeral count for ten times what those before them do.
pub proof fn lemma_digits_count(s: Seq<char>, c: char)
    requires
        is_digit(c),
    ensures
        digits_value(Seq::<char>::empty()) == 0,
        digits_value(s.push(c)) == 10 * digits_value(s) + (c as u32 - '0' as u32),
{
    assert(s.push(c).drop_last() =~= s);
}

/// The numeral of a number is one or more digits, the first of which is no zero
/// unless it is the only one, and they denote the number.
pub proof fn lemma_decimal_denotes(n: nat)
    ensures
        decimal(n).len() > 0,
        forall|i: int| 0 <= i < decimal(n).len() ==> '0' <= #[trigger] decimal(n)[i] <= '9',
        decimal(n).len() > 1 ==> decimal(n)[0] != '0',
        digits_value(decimal(n)) == n,
    decreases n,
{
    lemma_decimal_digits(n);
    assert forall|i: int| 0 <= i < decimal(n).len() implies '0' <= #[trigger] decimal(n)[i]
        <= '9' by {
        assert(is_digit(decimal(n)[i]));
    }
    if n >= 10 {
        lemma_decimal_denotes(n / 10);
        lemma_decimal_digits(n / 10);
        if decimal(n / 10).len() == 1 {
            assert(n / 10 > 0);
            assert(decimal(n / 10) == seq![decimal(n / 10)[0]]);
            if decimal(n / 10)[0] == '0' {
                assert(decimal(n / 10).drop_last() =~= Seq::<char>::empty());
                assert(digits_value(decimal(n / 10)) == 0) by {
                    reveal_with_fuel(digits_value, 2);
                }
            }
        }
    }
}

/// Different integers have different numerals; a negative one has a minus sign
/// in front of the numeral of its size, and no other has.
pub proof fn lemma_integers_differ_in_text(m: int, n: int)
    ensures
        decimal_int(m) == decimal_int(n) ==> m == n,
        n < 0 ==> decimal_int(n) == seq!['-'] + decimal((-n) as nat),
        n >= 0 ==> decimal_int(n) == decimal(n as nat),
{
    lemma_decimal_denotes(if m < 0 {
        (-m) as nat
    } else {
        m as nat
    });
    lemma_decimal_denotes(if n < 0 {
        (-n) as nat
    } else {
        n as nat
    });
    if decimal_int(m) == decimal_int(n) {
        let x = decimal_int(m);
        if m < 0 && n < 0 {
            assert(x.skip(1) =~= decimal((-m) as nat));
            assert(x.skip(1) =~= decimal((-n) as nat));
        } else if m < 0 {
            assert(x[0] == '-');
        } else if n < 0 {
            assert(x[0] == '-');
        }
    }
}

/// A text reads as an unsigned number exactly where it is one or more digits,
/// with a plus sign in front or none, of a value below two to the 64; and what it
/// reads as is that value.
pub proof fn lemma_read_number(s: Seq<char>, t: Seq<char>)
    requires
        s == seq!['+'] + t || (s == t && !(t.len() > 0 && t[0] == '+')),
    ensures
        t.len() > 0 && (forall|i: int| 0 <= i < t.len() ==> '0' <= #[trigger] t[i] <= '9')
            && digits_value(t) < 0x1_0000_0000_0000_0000 ==> u64_value(s) == Some(
            digits_value(t) as u64,
        ),
        u64_value(s) is Some ==> t.len() > 0 && (forall|i: int|
            0 <= i < t.len() ==> '0' <= #[trigger] t[i] <= '9') && digits_value(t)
            < 0x1_0000_0000_0000_0000,
{
    assert(unsigned_part(s) =~= t);
    if forall|i: int| 0 <= i < t.len() ==> '0' <= #[trigger] t[i] <= '9' {
        assert forall|i: int| 0 <= i < t.len() implies is_digit(#[trigger] t[i]) by {}
    }
    if u64_value(s) is Some {
        assert forall|i: int| 0 <= i < t.len() implies '0' <= #[trigger] t[i] <= '9' by {
            assert(is_digit(t[i]));
        }
    }
}

} // verus!
