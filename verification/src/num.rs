//! Decimal number tokens: the JSON number grammar, decimal rendering of
//! integers, and the `Decimal` type that carries fractional tuning parameters
//! as validated number text.

use vstd::prelude::*;
use crate::chars::chars_of;
use crate::chars::push_char;

verus! {

pub open spec fn is_digit_char(c: char) -> bool {
    48 <= c as u32 && c as u32 <= 57
}

pub open spec fn digit_val(c: char) -> nat {
    ((c as u32) - 48) as nat
}

pub open spec fn digit_char(d: nat) -> char {
    if d == 0 {
        '0'
    } else if d == 1 {
        '1'
    } else if d == 2 {
        '2'
    } else if d == 3 {
        '3'
    } else if d == 4 {
        '4'
    } else if d == 5 {
        '5'
    } else if d == 6 {
        '6'
    } else if d == 7 {
        '7'
    } else if d == 8 {
        '8'
    } else {
        '9'
    }
}

/// First index at or after `i` that does not hold a decimal digit.
pub open spec fn digits_end(s: Seq<char>, i: int) -> int
    decreases s.len() - i,
{
    if 0 <= i && i < s.len() && is_digit_char(s[i]) {
        digits_end(s, i + 1)
    } else {
        i
    }
}

/// End of an optional fraction part starting at `i`, if well-formed.
pub open spec fn frac_end(s: Seq<char>, i: int) -> Option<int> {
    if 0 <= i && i < s.len() && s[i] == '.' {
        let d = digits_end(s, i + 1);
        if d > i + 1 {
            Some(d)
        } else {
            None
        }
    } else {
        Some(i)
    }
}

/// End of an optional exponent part starting at `i`, if well-formed.
pub open spec fn exp_end(s: Seq<char>, i: int) -> Option<int> {
    if 0 <= i && i < s.len() && (s[i] == 'e' || s[i] == 'E') {
        let a = if i + 1 < s.len() && (s[i + 1] == '+' || s[i + 1] == '-') {
            i + 2
        } else {
            i + 1
        };
        let d = digits_end(s, a);
        if d > a {
            Some(d)
        } else {
            None
        }
    } else {
        Some(i)
    }
}

/// End of a JSON number token starting at `i`, if one starts there.
pub open spec fn num_end(s: Seq<char>, i: int) -> Option<int> {
    let a = if 0 <= i && i < s.len() && s[i] == '-' {
        i + 1
    } else {
        i
    };
    if 0 <= a && a < s.len() && is_digit_char(s[a]) {
        let b = if s[a] == '0' {
            a + 1
        } else {
            digits_end(s, a)
        };
        match frac_end(s, b) {
            Some(c) => exp_end(s, c),
            None => None,
        }
    } else {
        None
    }
}

/// Whether `t` is exactly one well-formed JSON number token.
pub open spec fn is_number_token(t: Seq<char>) -> bool {
    num_end(t, 0) == Some(t.len() as int)
}

/// Numeric value of a run of decimal digits.
pub open spec fn digits_val(s: Seq<char>) -> nat
    decreases s.len(),
{
    if s.len() == 0 {
        0
    } else {
        digits_val(s.drop_last()) * 10 + digit_val(s.last())
    }
}

/// Decimal rendering of a natural number, without leading zeros.
pub open spec fn dec_str(n: nat) -> Seq<char>
    decreases n,
{
    if n < 10 {
        seq![digit_char(n)]
    } else {
        dec_str(n / 10).push(digit_char(n % 10))
    }
}

pub fn is_digit_x(c: char) -> (r: bool)
    ensures
        r == is_digit_char(c),
{
    let u = c as u32;
    48 <= u && u <= 57
}

pub(crate) fn digit_char_x(d: u32) -> (r: char)
    requires
        d < 10,
    ensures
        r == digit_char(d as nat),
{
    if d == 0 {
        '0'
    } else if d == 1 {
        '1'
    } else if d == 2 {
        '2'
    } else if d == 3 {
        '3'
    } else if d == 4 {
        '4'
    } else if d == 5 {
        '5'
    } else if d == 6 {
        '6'
    } else if d == 7 {
        '7'
    } else if d == 8 {
        '8'
    } else {
        '9'
    }
}

/// Renders `n` in decimal.
pub fn u32_to_dec(n: u32) -> (r: String)
    ensures
        r@ == dec_str(n as nat),
    decreases n,
{
    if n < 10 {
        let mut s = String::new();
        push_char(&mut s, digit_char_x(n));
        proof {
            assert(s@ =~= dec_str(n as nat));
        }
        s
    } else {
        let mut s = u32_to_dec(n / 10);
        push_char(&mut s, digit_char_x(n % 10));
        s
    }
}

pub(crate) fn digits_end_x(s: &Vec<char>, i: usize) -> (r: usize)
    requires
        i <= s.len(),
    ensures
        r as int == digits_end(s@, i as int),
        i <= r && r <= s.len(),
    decreases s.len() - i,
{
    if i < s.len() && is_digit_x(s[i]) {
        digits_end_x(s, i + 1)
    } else {
        i
    }
}

pub proof fn lemma_digits_end_ge(s: Seq<char>, i: int)
    ensures
        i <= digits_end(s, i),
    decreases s.len() - i,
{
    if 0 <= i && i < s.len() && is_digit_char(s[i]) {
        lemma_digits_end_ge(s, i + 1);
    }
}

pub open spec fn opt_idx_is(r: Option<usize>, m: Option<int>) -> bool {
    match (r, m) {
        (Option::None, Option::None) => true,
        (Option::Some(a), Option::Some(b)) => a as int == b,
        _ => false,
    }
}

pub(crate) fn frac_end_x(s: &Vec<char>, i: usize) -> (r: Option<usize>)
    requires
        i <= s.len(),
    ensures
        opt_idx_is(r, frac_end(s@, i as int)),
        r is Some ==> i <= r->0 && r->0 <= s.len(),
{
    if i < s.len() && s[i] == '.' {
        let d = digits_end_x(s, i + 1);
        if d > i + 1 {
            Some(d)
        } else {
            None
        }
    } else {
        Some(i)
    }
}

pub(crate) fn exp_end_x(s: &Vec<char>, i: usize) -> (r: Option<usize>)
    requires
        i <= s.len(),
    ensures
        opt_idx_is(r, exp_end(s@, i as int)),
        r is Some ==> i <= r->0 && r->0 <= s.len(),
{
    if i < s.len() && (s[i] == 'e' || s[i] == 'E') {
        let a = if i + 1 < s.len() && (s[i + 1] == '+' || s[i + 1] == '-') {
            i + 2
        } else {
            i + 1
        };
        let d = digits_end_x(s, a);
        if d > a {
            Some(d)
        } else {
            None
        }
    } else {
        Some(i)
    }
}

pub(crate) fn num_end_x(s: &Vec<char>, i: usize) -> (r: Option<usize>)
    requires
        i <= s.len(),
    ensures
        opt_idx_is(r, num_end(s@, i as int)),
        r is Some ==> i < r->0 && r->0 <= s.len(),
{
    let a = if i < s.len() && s[i] == '-' {
        i + 1
    } else {
        i
    };
    if a < s.len() && is_digit_x(s[a]) {
        let b = if s[a] == '0' {
            a + 1
        } else {
            proof {
                lemma_digits_end_ge(s@, a as int + 1);
            }
            digits_end_x(s, a)
        };
        match frac_end_x(s, b) {
            Some(c) => exp_end_x(s, c),
            None => None,
        }
    } else {
        None
    }
}

/// A decimal number carried as validated JSON number text, standing in for a
/// fractional tuning parameter such as a sampling temperature.
#[derive(Debug)]
pub struct Decimal {
    text: String,
}

impl View for Decimal {
    type V = Seq<char>;

    closed spec fn view(&self) -> Seq<char> {
        self.text@
    }
}

impl Decimal {
    #[verifier::type_invariant]
    pub open spec fn inv(self) -> bool {
        is_number_token(self@)
    }

    /// Accepts `s` exactly when it is one well-formed JSON number token.
    pub fn new(s: String) -> (r: Option<Decimal>)
        ensures
            r is Some <==> is_number_token(s@),
            r is Some ==> r->0@ == s@,
    {
        let v = chars_of(s.as_str());
        match num_end_x(&v, 0) {
            Some(e) => {
                if e == v.len() {
                    Some(Decimal { text: s })
                } else {
                    None
                }
            },
            None => None,
        }
    }

    /// The number text.
    pub fn text(&self) -> (r: &str)
        ensures
            r@ == self@,
    {
        self.text.as_str()
    }

    /// A copy holding the same text.
    pub fn duplicate(&self) -> (r: Decimal)
        ensures
            r@ == self@,
    {
        proof {
            use_type_invariant(self);
        }
        Decimal { text: self.text.clone() }
    }
}

pub proof fn lemma_digits_end_all(t: Seq<char>, i: int)
    requires
        0 <= i && i <= t.len(),
        forall|k: int| i <= k && k < t.len() ==> is_digit_char(#[trigger] t[k]),
    ensures
        digits_end(t, i) == t.len(),
    decreases t.len() - i,
{
    if i < t.len() {
        lemma_digits_end_all(t, i + 1);
    }
}

pub proof fn lemma_dec_str_chars(n: nat)
    ensures
        dec_str(n).len() >= 1,
        forall|k: int| 0 <= k && k < dec_str(n).len() ==> is_digit_char(#[trigger] dec_str(n)[k]),
        n < 10 ==> dec_str(n).len() == 1,
        dec_str(n)[0] == '0' ==> n == 0,
    decreases n,
{
    if n >= 10 {
        lemma_dec_str_chars(n / 10);
        assert(dec_str(n) == dec_str(n / 10).push(digit_char(n % 10)));
        assert(dec_str(n)[0] == dec_str(n / 10)[0]);
        assert(is_digit_char(digit_char(n % 10)));
    } else {
        assert(dec_str(n) == seq![digit_char(n)]);
        assert(is_digit_char(digit_char(n)));
    }
}

/// Decimal renderings of integers are well-formed number tokens.
pub proof fn lemma_dec_str_token(n: nat)
    ensures
        is_number_token(dec_str(n)),
{
    lemma_dec_str_chars(n);
    let t = dec_str(n);
    assert(t[0] != '-');
    if t[0] == '0' {
        assert(t.len() == 1);
        assert(num_end(t, 0) == Some(1int));
    } else {
        lemma_digits_end_all(t, 0);
        assert(num_end(t, 0) == Some(t.len() as int));
    }
}

/// The decimal rendering of `n` denotes `n`.
pub proof fn lemma_dec_str_val(n: nat)
    ensures
        digits_val(dec_str(n)) == n,
    decreases n,
{
    if n < 10 {
        assert(dec_str(n) == seq![digit_char(n)]);
        assert(seq![digit_char(n)].drop_last() =~= Seq::<char>::empty());
        assert(seq![digit_char(n)].last() == digit_char(n));
        assert(digits_val(Seq::<char>::empty()) == 0);
        assert(digit_val(digit_char(n)) == n);
        assert(digits_val(dec_str(n)) == digits_val(seq![digit_char(n)].drop_last()) * 10
            + digit_val(seq![digit_char(n)].last()));
    } else {
        lemma_dec_str_val(n / 10);
        assert(dec_str(n).drop_last() =~= dec_str(n / 10));
        assert(dec_str(n).last() == digit_char(n % 10));
        assert(digit_val(digit_char(n % 10)) == n % 10);
        assert(digits_val(dec_str(n)) == digits_val(dec_str(n).drop_last()) * 10 + digit_val(
            dec_str(n).last(),
        ));
        assert(n == (n / 10) * 10 + n % 10);
    }
}

pub open spec fn all_digits(t: Seq<char>) -> bool {
    forall|k: int| 0 <= k && k < t.len() ==> is_digit_char(#[trigger] t[k])
}

/// The value of a non-empty run of digits, when it is at most `cap`.
pub open spec fn int_token_val(t: Seq<char>, cap: u64) -> Option<u64> {
    if t.len() >= 1 && all_digits(t) && digits_val(t) <= cap {
        Some(digits_val(t) as u64)
    } else {
        None
    }
}

pub proof fn lemma_digits_val_prefix(t: Seq<char>, i: int)
    requires
        0 <= i && i <= t.len(),
    ensures
        digits_val(t.subrange(0, i)) <= digits_val(t),
    decreases t.len() - i,
{
    if i < t.len() {
        lemma_digits_val_prefix(t, i + 1);
        assert(t.subrange(0, i + 1).drop_last() =~= t.subrange(0, i));
        assert(t.subrange(0, i + 1).last() == t[i]);
        assert(digits_val(t.subrange(0, i + 1)) == digits_val(t.subrange(0, i)) * 10 + digit_val(
            t[i],
        ));
    } else {
        assert(t.subrange(0, i) =~= t);
    }
}

pub open spec fn opt_u64_is(r: Option<u64>, m: Option<u64>) -> bool {
    match (r, m) {
        (Option::None, Option::None) => true,
        (Option::Some(a), Option::Some(b)) => a == b,
        _ => false,
    }
}

/// Reads a non-empty all-digit string as an integer of at most `cap`,
/// exactly as `int_token_val` describes.
#[verifier::loop_isolation(false)]
pub fn digits_capped(t: &str, cap: u64) -> (r: Option<u64>)
    requires
        cap <= 4294967295,
    ensures
        opt_u64_is(r, int_token_val(t@, cap)),
{
    let cs = chars_of(t);
    if cs.len() == 0 {
        return None;
    }
    let mut acc: u64 = 0;
    let mut i: usize = 0;
    while i < cs.len()
        invariant
            i <= cs.len(),
            forall|k: int| 0 <= k && k < i ==> is_digit_char(#[trigger] t@[k]),
            acc == digits_val(t@.subrange(0, i as int)),
            acc <= cap,
        decreases cs.len() - i,
    {
        let c = cs[i];
        if !is_digit_x(c) {
            return None;
        }
        let d: u64 = (c as u32 - 48) as u64;
        let next: u64 = acc * 10 + d;
        proof {
            assert(t@.subrange(0, i as int + 1).drop_last() =~= t@.subrange(0, i as int));
            assert(t@.subrange(0, i as int + 1).last() == t@[i as int]);
            assert(digits_val(t@.subrange(0, i as int + 1)) == acc * 10 + digit_val(t@[i as int]));
        }
        if next > cap {
            proof {
                lemma_digits_val_prefix(t@, i as int + 1);
            }
            return None;
        }
        acc = next;
        i = i + 1;
    }
    proof {
        assert(t@.subrange(0, i as int) =~= t@);
    }
    Some(acc)
}
} // verus!
