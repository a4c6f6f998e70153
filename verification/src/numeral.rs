//! Decimal numerals, and when two of them denote the same number.

use vstd::prelude::*;

use crate::text::{chars_of, digits_value, is_digit};

verus! {

/// What a numeral denotes: its digits, the last of which counts for ten to the
/// power `low`, and its sign.
pub struct Numeral {
    pub negative: bool,
    pub digits: Seq<char>,
    pub low: int,
}

impl Numeral {
    /// The digit that counts for ten to the power `k`.
    pub open spec fn place(self, k: int) -> char {
        if 0 <= k - self.low < self.digits.len() {
            self.digits[self.digits.len() - 1 - (k - self.low)]
        } else {
            '0'
        }
    }

    /// The numeral denotes zero.
    pub open spec fn is_zero(self) -> bool {
        forall|i: int| 0 <= i < self.digits.len() ==> #[trigger] self.digits[i] == '0'
    }

    /// The two numerals denote the same number: they have the same digit at
    /// every place and the same sign; the sign of zero does not count.
    pub open spec fn denotes_same(self, other: Numeral) -> bool {
        &&& forall|k: int| self.place(k) == other.place(k)
        &&& self.negative == other.negative || self.is_zero()
    }
}

/// The end of the run of digits that starts at position `i`.
pub open spec fn run_end(s: Seq<char>, i: int) -> int
    decreases s.len() - i,
{
    if 0 <= i < s.len() && is_digit(s[i]) {
        run_end(s, i + 1)
    } else {
        i
    }
}

/// Where a sign that may stand at position `i` ends.
pub open spec fn sign_end(s: Seq<char>, i: int) -> int {
    if 0 <= i < s.len() && (s[i] == '-' || s[i] == '+') {
        i + 1
    } else {
        i
    }
}

/// The exponent that stands at position `i` and ends the text: none at all, or
/// an `e` in either case, a sign that may be left out, and one to nine digits.
pub open spec fn exponent_at(s: Seq<char>, i: int) -> Option<int> {
    let from = sign_end(s, i + 1);
    if i == s.len() {
        Some(0)
    } else if (s[i] == 'e' || s[i] == 'E') && from < run_end(s, from) == s.len() <= from + 9 {
        let n = digits_value(s.subrange(from, s.len() as int)) as int;
        Some(
            if s[i + 1] == '-' {
                -n
            } else {
                n
            },
        )
    } else {
        None
    }
}

/// The numeral that a text is: a sign that may be left out, digits with a point
/// that may stand anywhere among them, and an exponent that may be left out.
pub open spec fn numeral(s: Seq<char>) -> Option<Numeral> {
    let a = sign_end(s, 0);
    let b = run_end(s, a);
    let c = if b < s.len() && s[b] == '.' {
        b + 1
    } else {
        b
    };
    let d = run_end(s, c);
    let digits = s.subrange(a, b) + s.subrange(c, d);
    match exponent_at(s, d) {
        Some(e) if digits.len() > 0 => Some(
            Numeral { negative: s[0] == '-', digits, low: e - (d - c) },
        ),
        _ => None,
    }
}

/// The two texts are numerals that denote the same number.
pub open spec fn same_number(s: Seq<char>, t: Seq<char>) -> bool {
    match (numeral(s), numeral(t)) {
        (Some(a), Some(b)) => a.denotes_same(b),
        _ => false,
    }
}

/// A run of digits ends within the text, and holds digits only.
proof fn lemma_run(s: Seq<char>, i: int)
    requires
        0 <= i <= s.len(),
    ensures
        i <= run_end(s, i) <= s.len(),
        forall|j: int| i <= j < run_end(s, i) ==> is_digit(#[trigger] s[j]),
    decreases s.len() - i,
{
    if i < s.len() && is_digit(s[i]) {
        lemma_run(s, i + 1);
    }
}

fn find_run_end(s: &Vec<char>, from: usize) -> (r: usize)
    requires
        from <= s@.len(),
    ensures
        from <= r <= s@.len(),
        r == run_end(s@, from as int),
        forall|j: int| from <= j < r ==> is_digit(#[trigger] s@[j]),
{
    let mut i: usize = from;
    while i < s.len() && '0' <= s[i] && s[i] <= '9'
        invariant
            from <= i <= s@.len(),
            run_end(s@, from as int) == run_end(s@, i as int),
        decreases s.len() - i,
    {
        i += 1;
    }
    proof {
        lemma_run(s@, from as int);
    }
    i
}

fn find_sign_end(s: &Vec<char>, i: usize) -> (r: usize)
    requires
        i <= s@.len(),
    ensures
        i <= r <= s@.len(),
        r == sign_end(s@, i as int),
{
    if i < s.len() && (s[i] == '-' || s[i] == '+') {
        i + 1
    } else {
        i
    }
}

fn read_exponent(s: &Vec<char>, i: usize) -> (r: Option<i128>)
    requires
        i <= s@.len(),
    ensures
        match r {
            Some(e) => exponent_at(s@, i as int) == Some(e as int) && -0x1_0000_0000 < e
                < 0x1_0000_0000,
            None => exponent_at(s@, i as int) is None,
        },
{
    let n: usize = s.len();
    if i == n {
        return Some(0);
    }
    if !(s[i] == 'e' || s[i] == 'E') {
        return None;
    }
    let from: usize = find_sign_end(s, i + 1);
    let end: usize = find_run_end(s, from);
    if !(from < end && end == n && n - from <= 9) {
        return None;
    }
    let ghost all = s@.subrange(from as int, n as int);
    let mut value: i128 = 0;
    let mut bound: i128 = 1;
    let mut k: usize = from;
    assert(all.take(0) =~= Seq::<char>::empty());
    while k < n
        invariant
            n == s@.len(),
            from <= k <= n,
            n - from <= 9,
            all == s@.subrange(from as int, n as int),
            forall|j: int| from <= j < n ==> is_digit(#[trigger] s@[j]),
            value == digits_value(all.take(k - from)),
            0 <= value < bound,
            k - from == 0 ==> bound == 1,
            k - from == 1 ==> bound == 10,
            k - from == 2 ==> bound == 100,
            k - from == 3 ==> bound == 1_000,
            k - from == 4 ==> bound == 10_000,
            k - from == 5 ==> bound == 100_000,
            k - from == 6 ==> bound == 1_000_000,
            k - from == 7 ==> bound == 10_000_000,
            k - from == 8 ==> bound == 100_000_000,
            k - from == 9 ==> bound == 1_000_000_000,
        decreases n - k,
    {
        assert(is_digit(s@[k as int]));
        assert(all.take(k - from + 1).drop_last() =~= all.take(k - from));
        assert(all.take(k - from + 1).last() == s@[k as int]);
        let digit: i128 = (s[k] as u32 - 48) as i128;
        value = value * 10 + digit;
        bound = bound * 10;
        k += 1;
    }
    assert(all.take(k - from) =~= all);
    if s[i + 1] == '-' {
        Some(-value)
    } else {
        Some(value)
    }
}

/// A numeral taken apart.
struct Parts {
    negative: bool,
    digits: Vec<char>,
    low: i128,
}

impl Parts {
    spec fn view(&self) -> Numeral {
        Numeral { negative: self.negative, digits: self.digits@, low: self.low as int }
    }

    spec fn wf(&self) -> bool {
        -0x1_0000_0000_0000_0000_0000 < self.low < 0x1_0000_0000_0000_0000_0000
    }

    fn digit_at(&self, k: i128) -> (r: char)
        requires
            self.wf(),
            -0x1_0000_0000_0000_0000_0000_0000 < k < 0x1_0000_0000_0000_0000_0000_0000,
        ensures
            r == self@.place(k as int),
    {
        let n: usize = self.digits.len();
        let up: i128 = k - self.low;
        if 0 <= up && up < n as i128 {
            self.digits[n - 1 - up as usize]
        } else {
            '0'
        }
    }

    /// Whether the other numeral has each digit of this one at its place.
    fn found_in(&self, other: &Parts) -> (r: bool)
        requires
            self.wf(),
            other.wf(),
        ensures
            r == forall|k: int|
                self@.low <= k < self@.low + self@.digits.len() ==> #[trigger] self@.place(k)
                    == other@.place(k),
    {
        let n: usize = self.digits.len();
        let mut i: usize = 0;
        while i < n
            invariant
                self.wf(),
                other.wf(),
                n == self.digits@.len(),
                i <= n,
                forall|k: int|
                    self@.low <= k < self@.low + i ==> #[trigger] self@.place(k) == other@.place(k),
            decreases n - i,
        {
            let k: i128 = self.low + i as i128;
            if self.digit_at(k) != other.digit_at(k) {
                assert(self@.place(k as int) != other@.place(k as int));
                return false;
            }
            i += 1;
        }
        true
    }

    fn check_zero(&self) -> (r: bool)
        ensures
            r == self@.is_zero(),
    {
        let mut i: usize = 0;
        while i < self.digits.len()
            invariant
                i <= self.digits@.len(),
                forall|j: int| 0 <= j < i ==> #[trigger] self.digits@[j] == '0',
            decreases self.digits.len() - i,
        {
            if self.digits[i] != '0' {
                assert(self@.digits[i as int] != '0');
                return false;
            }
            i += 1;
        }
        true
    }
}

fn take_apart(text: &str) -> (r: Option<Parts>)
    ensures
        match r {
            Some(p) => p.wf() && numeral(text@) == Some(p@),
            None => numeral(text@) is None,
        },
{
    let s = chars_of(text);
    let n: usize = s.len();
    let a: usize = find_sign_end(&s, 0);
    let b: usize = find_run_end(&s, a);
    let c: usize = if b < n && s[b] == '.' {
        b + 1
    } else {
        b
    };
    let d: usize = find_run_end(&s, c);
    let exponent: i128 = match read_exponent(&s, d) {
        Some(e) => e,
        None => {
            return None;
        },
    };
    if a == b && c == d {
        return None;
    }
    let mut digits: Vec<char> = Vec::new();
    let mut i: usize = a;
    while i < d
        invariant
            n == s@.len(),
            a <= b <= c <= d <= n,
            a <= i <= d,
            c <= b + 1,
            digits@ == (if i <= b {
                s@.subrange(a as int, i as int)
            } else if i <= c {
                s@.subrange(a as int, b as int)
            } else {
                s@.subrange(a as int, b as int) + s@.subrange(c as int, i as int)
            }),
        decreases d - i,
    {
        if i < b || c <= i {
            digits.push(s[i]);
        }
        i += 1;
        assert(digits@ =~= (if i <= b {
            s@.subrange(a as int, i as int)
        } else if i <= c {
            s@.subrange(a as int, b as int)
        } else {
            s@.subrange(a as int, b as int) + s@.subrange(c as int, i as int)
        }));
    }
    assert(digits@ =~= s@.subrange(a as int, b as int) + s@.subrange(c as int, d as int));
    let low: i128 = exponent - (d - c) as i128;
    Some(Parts { negative: s[0] == '-', digits, low })
}

/// Whether two texts are numerals that denote the same number.
pub fn is_same_number(s: &str, t: &str) -> (r: bool)
    ensures
        r == same_number(s@, t@),
{
    match (take_apart(s), take_apart(t)) {
        (Some(a), Some(b)) => {
            let there = a.found_in(&b);
            let back = b.found_in(&a);
            proof {
                if there && back {
                    assert forall|k: int| a@.place(k) == b@.place(k) by {
                        if a@.low <= k < a@.low + a@.digits.len() {
                        } else if b@.low <= k < b@.low + b@.digits.len() {
                            assert(b@.place(k) == a@.place(k));
                        }
                    }
                } else if a@.denotes_same(b@) {
                    assert forall|k: int| b@.place(k) == a@.place(k) by {
                        assert(a@.place(k) == b@.place(k));
                    }
                }
            }
            there && back && (a.negative == b.negative || a.check_zero())
        },
        _ => false,
    }
}

} // verus!
