//! Exact fixed-point fractions for monetary amounts.
//!
//! A [`Fixed`] is a numerator over a denominator. Amounts of one currency
//! have denominators that divide one another (1, 10, 100, ...), so two of them
//! are combined by scaling the one with the smaller denominator up to the
//! larger one; denominators that do not divide one another are an error.
use vstd::arithmetic::div_mod::{
    lemma_div_by_self, lemma_div_multiples_vanish, lemma_fundamental_div_mod, lemma_mod_multiples_basic, lemma_small_mod,
};
use vstd::prelude::*;

use crate::text::{int_of_text, int_text, nat_text, parse_int, push_int_text, push_nat_text, IntErrorKind};

verus! {

/// Whether `x` is a value of `i32`.
pub open spec fn fits_i32(x: int) -> bool {
    -2147483648 <= x <= 2147483647
}

/// A fraction `numerator / denominator`.
#[derive(Debug, Clone, Copy)]
pub struct Fixed(pub i32, pub u16);

/// Why an amount could not be read or combined.
#[derive(Debug, Clone)]
pub enum FixedError {
    /// The text has no `/` between numerator and denominator; it holds the text.
    MalformedSource(String),
    /// The numerator is not an integer of `i32`.
    ParseNumeratorError(IntErrorKind),
    /// The denominator is not an integer of `u16`.
    ParseDenominatorError(IntErrorKind),
    /// The denominator is zero.
    ZeroDenominator,
    /// Neither denominator divides the other (or one of them is zero).
    IncommensurableDenominators,
    /// A numerator does not fit in an `i32`.
    Overflow,
}

impl Fixed {
    /// A fraction that can take part in arithmetic.
    pub open spec fn wf(self) -> bool {
        self.1 != 0
    }

    /// Whether the two fractions stand for the same rational number.
    pub open spec fn same_value(self, other: Fixed) -> bool {
        self.0 * other.1 == other.0 * self.1
    }
}

/// Whether one of the two nonzero denominators divides the other.
pub open spec fn commensurable(a: u16, b: u16) -> bool {
    a != 0 && b != 0 && (a % b == 0 || b % a == 0)
}

/// The larger of the two denominators.
pub open spec fn common_denominator(a: u16, b: u16) -> u16 {
    if a >= b {
        a
    } else {
        b
    }
}

/// The numerator of `x` once its denominator is scaled to `d`.
pub open spec fn scaled_numerator(x: Fixed, d: u16) -> int {
    x.0 * (d as int / x.1 as int)
}

/// The two fractions brought to their common denominator.
pub open spec fn equalized(a: Fixed, b: Fixed) -> Result<(Fixed, Fixed), FixedError> {
    if !commensurable(a.1, b.1) {
        Err(FixedError::IncommensurableDenominators)
    } else {
        let d = common_denominator(a.1, b.1);
        let na = scaled_numerator(a, d);
        let nb = scaled_numerator(b, d);
        if fits_i32(na) && fits_i32(nb) {
            Ok((Fixed(na as i32, d), Fixed(nb as i32, d)))
        } else {
            Err(FixedError::Overflow)
        }
    }
}

/// `a + b`, or `a - b` where `negate` holds, on the common denominator.
pub open spec fn combined(a: Fixed, b: Fixed, negate: bool) -> Result<Fixed, FixedError> {
    if !commensurable(a.1, b.1) {
        Err(FixedError::IncommensurableDenominators)
    } else {
        let d = common_denominator(a.1, b.1);
        let n = if negate {
            scaled_numerator(a, d) - scaled_numerator(b, d)
        } else {
            scaled_numerator(a, d) + scaled_numerator(b, d)
        };
        if fits_i32(n) {
            Ok(Fixed(n as i32, d))
        } else {
            Err(FixedError::Overflow)
        }
    }
}

/// What `a.add(b)` gives.
pub open spec fn sum_of(a: Fixed, b: Fixed) -> Result<Fixed, FixedError> {
    combined(a, b, false)
}

/// What `a.sub(b)` gives.
pub open spec fn difference_of(a: Fixed, b: Fixed) -> Result<Fixed, FixedError> {
    combined(a, b, true)
}

/// The running sum of `items` from `start`, item by item, up to the first error.
pub open spec fn fold_sum(start: Fixed, items: Seq<Fixed>) -> Result<Fixed, FixedError>
    decreases items.len(),
{
    if items.len() == 0 {
        Ok(start)
    } else {
        match fold_sum(start, items.drop_last()) {
            Ok(acc) => sum_of(acc, items.last()),
            Err(e) => Err(e),
        }
    }
}

/// The exact text of `f`: `"<numerator>/<denominator>"`.
pub open spec fn exact_text(f: Fixed) -> Seq<char> {
    int_text(f.0 as int) + seq!['/'] + nat_text(f.1 as nat)
}

/// Whether `s` holds a `/`.
pub open spec fn has_slash(s: Seq<char>) -> bool {
    exists|i: int| 0 <= i < s.len() && s[i] == '/'
}

/// Whether `i` is the place of the first `/` in `s`.
pub open spec fn first_slash_at(s: Seq<char>, i: int) -> bool {
    &&& 0 <= i < s.len()
    &&& s[i] == '/'
    &&& forall|j: int| 0 <= j < i ==> s[j] != '/'
}

/// The place of the first `/` in `s`, where there is one.
pub open spec fn first_slash(s: Seq<char>) -> int {
    choose|i: int| first_slash_at(s, i)
}

/// The fraction that the numerator text `num` and denominator text `den` write.
pub open spec fn fixed_of_parts(num: Seq<char>, den: Seq<char>) -> Result<Fixed, FixedError> {
    match int_of_text(num, -2147483648, 2147483647) {
        Err(e) => Err(FixedError::ParseNumeratorError(e)),
        Ok(n) => match int_of_text(den, 0, 65535) {
            Err(e) => Err(FixedError::ParseDenominatorError(e)),
            Ok(d) => if d == 0 {
                Err(FixedError::ZeroDenominator)
            } else {
                Ok(Fixed(n as i32, d as u16))
            },
        },
    }
}

/// Whether reading the text `s` as a fraction gives `r`: the text is split at
/// its first `/`; without one it is malformed.
pub open spec fn parses_to(s: Seq<char>, r: Result<Fixed, FixedError>) -> bool {
    if has_slash(s) {
        let i = first_slash(s);
        r == fixed_of_parts(s.subrange(0, i), s.subrange(i + 1, s.len() as int))
    } else {
        r matches Err(FixedError::MalformedSource(t)) && t@ == s
    }
}

/// There is only one first `/`.
proof fn lemma_first_slash_unique(s: Seq<char>, i: int)
    requires
        first_slash_at(s, i),
    ensures
        has_slash(s),
        first_slash(s) == i,
{
    assert(s[i] == '/');
    let k = first_slash(s);
    assert(first_slash_at(s, k));
    if k < i {
        assert(s[k] != '/');
    } else if i < k {
        assert(s[i] != '/');
    }
}

/// A product of an `i32` and a `u16` stays far inside `i64`.
proof fn lemma_product_bound(x: int, y: int)
    requires
        fits_i32(x),
        0 <= y <= 65535,
    ensures
        -140737488355328 <= x * y <= 140737488355328,
{
    assert(-2147483648 * 65535 <= x * y <= 2147483647 * 65535) by (nonlinear_arith)
        requires
            fits_i32(x),
            0 <= y <= 65535,
    ;
}

/// Scaling to a denominator that `x`'s own denominator divides keeps the value.
proof fn lemma_scaled_same_value(x: Fixed, d: u16)
    requires
        x.1 != 0,
        d % x.1 == 0,
    ensures
        scaled_numerator(x, d) * (x.1 as int) == x.0 * (d as int),
{
    let q = d as int / x.1 as int;
    lemma_fundamental_div_mod(d as int, x.1 as int);
    assert(d as int == x.1 as int * q);
    assert(x.0 * q * (x.1 as int) == x.0 * (x.1 as int * q)) by (nonlinear_arith);
}

/// Each of two commensurable denominators divides the larger one.
proof fn lemma_common_divides(a: u16, b: u16)
    requires
        commensurable(a, b),
    ensures
        common_denominator(a, b) % a == 0,
        common_denominator(a, b) % b == 0,
{
    lemma_div_by_self(a as int);
    lemma_div_by_self(b as int);
    lemma_fundamental_div_mod(a as int, a as int);
    lemma_fundamental_div_mod(b as int, b as int);
    if a < b {
        lemma_small_mod(a as nat, b as nat);
    } else if b < a {
        lemma_small_mod(b as nat, a as nat);
    }
}

/// Bringing two amounts to their common denominator keeps what each of them
/// is worth, and with it whether they are equal: the equalized numerators
/// agree exactly when the two fractions stand for the same number.
pub proof fn lemma_equalize_exact(a: Fixed, b: Fixed)
    requires
        equalized(a, b) is Ok,
    ensures
        ({
            let (x, y) = equalized(a, b)->Ok_0;
            &&& x.1 == y.1
            &&& x.1 == common_denominator(a.1, b.1)
            &&& x.same_value(a)
            &&& y.same_value(b)
            &&& (x.0 == y.0) == a.same_value(b)
        }),
{
    let d = common_denominator(a.1, b.1);
    lemma_common_divides(a.1, b.1);
    lemma_scaled_same_value(a, d);
    lemma_scaled_same_value(b, d);
    let na = scaled_numerator(a, d);
    let nb = scaled_numerator(b, d);
    let (da, db, dd) = (a.1 as int, b.1 as int, d as int);
    assert(na == nb <==> a.0 * db == b.0 * da) by (nonlinear_arith)
        requires
            na * da == a.0 * dd,
            nb * db == b.0 * dd,
            da > 0,
            db > 0,
            dd > 0,
    ;
}

/// Adding two amounts is exact: the sum, taken over the common denominator,
/// stands for `a + b` as a rational number.
pub proof fn lemma_sum_exact(a: Fixed, b: Fixed)
    requires
        sum_of(a, b) is Ok,
    ensures
        ({
            let r = sum_of(a, b)->Ok_0;
            &&& r.1 == common_denominator(a.1, b.1)
            &&& r.0 * (a.1 as int) * (b.1 as int) == (a.0 * (b.1 as int) + b.0 * (a.1 as int)) * (r.1 as int)
        }),
{
    let d = common_denominator(a.1, b.1);
    lemma_common_divides(a.1, b.1);
    lemma_scaled_same_value(a, d);
    lemma_scaled_same_value(b, d);
    let na = scaled_numerator(a, d);
    let nb = scaled_numerator(b, d);
    let (da, db, dd) = (a.1 as int, b.1 as int, d as int);
    assert((na + nb) * da * db == (a.0 * db + b.0 * da) * dd) by (nonlinear_arith)
        requires
            na * da == a.0 * dd,
            nb * db == b.0 * dd,
    ;
}

/// Equalization is exact on a finer scale: adding `n2 / (d * k)` to `n1 / d`
/// gives `(n1 * k + n2) / (d * k)`, wherever that numerator fits.
pub proof fn lemma_add_scaled(n1: i32, n2: i32, d: u16, k: u16)
    requires
        d > 0,
        k > 0,
        d * k <= 65535,
        fits_i32(n1 * k + n2),
    ensures
        sum_of(Fixed(n1, d), Fixed(n2, (d * k) as u16)) == Ok::<Fixed, FixedError>(
            Fixed((n1 * k + n2) as i32, (d * k) as u16),
        ),
{
    let dk = (d * k) as u16;
    assert(d as int * k as int >= d as int) by (nonlinear_arith)
        requires
            k >= 1,
            d >= 1,
    ;
    lemma_div_multiples_vanish(k as int, d as int);
    lemma_div_by_self(dk as int);
    lemma_fundamental_div_mod(dk as int, d as int);
    assert(d as int * k as int == k as int * d as int) by (nonlinear_arith);
    assert((dk as int) % (d as int) == 0) by {
        lemma_mod_multiples_basic(k as int, d as int);
    }
    assert(commensurable(d, dk));
    assert(common_denominator(d, dk) == dk);
    assert(scaled_numerator(Fixed(n1, d), dk) == n1 * k);
    assert(dk as int == d as int * k as int);
    assert(dk as int / dk as int == 1);
    assert(n2 as int * (dk as int / dk as int) == n2 as int);
    assert(scaled_numerator(Fixed(n2, dk), dk) == n2);
}

/// Reading the exact text of a fraction gives that fraction back, and nothing else.
pub proof fn lemma_parse_round_trip(f: Fixed)
    requires
        f.wf(),
    ensures
        forall|r: Result<Fixed, FixedError>| parses_to(exact_text(f), r) <==> r == Ok::<Fixed, FixedError>(f),
{
    let s = exact_text(f);
    let num = int_text(f.0 as int);
    let den = nat_text(f.1 as nat);
    let i = num.len() as int;
    assert forall|j: int| 0 <= j < i implies s[j] != '/' by {
        assert(s[j] == num[j]);
        if f.0 < 0 {
            if j > 0 {
                crate::text::lemma_nat_text((-f.0) as nat);
                assert(num[j] == nat_text((-f.0) as nat)[j - 1]);
            }
        } else {
            crate::text::lemma_nat_text(f.0 as nat);
        }
    }
    assert(s[i] == '/');
    lemma_first_slash_unique(s, i);
    assert(s.subrange(0, i) =~= num);
    assert(s.subrange(i + 1, s.len() as int) =~= den);
    crate::text::lemma_int_text_round_trip(f.0 as int, -2147483648, 2147483647);
    crate::text::lemma_int_text_round_trip(f.1 as int, 0, 65535);
}

impl Fixed {
    /// Brings `a` and `b` to the larger of their denominators.
    pub fn equalize_fractions(a: Fixed, b: Fixed) -> (r: Result<(Fixed, Fixed), FixedError>)
        ensures
            r == equalized(a, b),
    {
        if a.1 == 0 || b.1 == 0 {
            return Err(FixedError::IncommensurableDenominators);
        }
        proof {
            lemma_div_by_self(a.1 as int);
            lemma_div_by_self(b.1 as int);
        }
        if a.1 == b.1 {
            proof {
                lemma_fundamental_div_mod(a.1 as int, a.1 as int);
            }
            return Ok((a, b));
        }
        if a.1 > b.1 {
            proof {
                lemma_small_mod(b.1 as nat, a.1 as nat);
            }
            if a.1 % b.1 != 0 {
                return Err(FixedError::IncommensurableDenominators);
            }
            let factor = a.1 / b.1;
            proof {
                lemma_product_bound(b.0 as int, factor as int);
            }
            let n = (b.0 as i64) * (factor as i64);
            if n < -2147483648 || n > 2147483647 {
                return Err(FixedError::Overflow);
            }
            Ok((a, Fixed(n as i32, a.1)))
        } else {
            proof {
                lemma_small_mod(a.1 as nat, b.1 as nat);
            }
            if b.1 % a.1 != 0 {
                return Err(FixedError::IncommensurableDenominators);
            }
            let factor = b.1 / a.1;
            proof {
                lemma_product_bound(a.0 as int, factor as int);
            }
            let n = (a.0 as i64) * (factor as i64);
            if n < -2147483648 || n > 2147483647 {
                return Err(FixedError::Overflow);
            }
            Ok((Fixed(n as i32, b.1), b))
        }
    }

    /// Whether the amount is zero; the denominator plays no part.
    pub fn is_zero(&self) -> (r: bool)
        ensures
            r == (self.0 == 0),
    {
        self.0 == 0
    }

    /// The exact text `"<numerator>/<denominator>"`, which reads back unchanged.
    pub fn to_string_raw(&self) -> (r: String)
        ensures
            r@ == exact_text(*self),
    {
        let mut out = String::new();
        push_int_text(&mut out, self.0 as i64);
        proof {
            reveal_strlit("/");
        }
        out.append("/");
        push_nat_text(&mut out, self.1 as u64);
        assert(out@ =~= exact_text(*self));
        out
    }

    /// Equality after bringing both to the common denominator; fails where
    /// the denominators do not divide one another.
    pub fn equals(&self, other: &Fixed) -> (r: Result<bool, FixedError>)
        ensures
            match equalized(*self, *other) {
                Ok((x, y)) => r == Ok::<bool, FixedError>(x.0 == y.0),
                Err(e) => r == Err::<bool, FixedError>(e),
            },
    {
        match Fixed::equalize_fractions(*self, *other) {
            Ok((x, y)) => Ok(x.0 == y.0),
            Err(e) => Err(e),
        }
    }

    /// Both numerators scaled to the common denominator, held wide enough
    /// that no scaling overflows, with that denominator.
    fn scaled_pair(a: Fixed, b: Fixed) -> (r: Result<(i64, i64, u16), FixedError>)
        ensures
            r is Ok <==> commensurable(a.1, b.1),
            r is Err ==> r == Err::<(i64, i64, u16), FixedError>(FixedError::IncommensurableDenominators),
            r matches Ok((na, nb, d)) ==> {
                &&& d == common_denominator(a.1, b.1)
                &&& na == scaled_numerator(a, d)
                &&& nb == scaled_numerator(b, d)
                &&& -140737488355328 <= na <= 140737488355328
                &&& -140737488355328 <= nb <= 140737488355328
            },
    {
        if a.1 == 0 || b.1 == 0 {
            return Err(FixedError::IncommensurableDenominators);
        }
        if a.1 < b.1 {
            proof {
                lemma_small_mod(a.1 as nat, b.1 as nat);
            }
        } else if b.1 < a.1 {
            proof {
                lemma_small_mod(b.1 as nat, a.1 as nat);
            }
        }
        if a.1 % b.1 != 0 && b.1 % a.1 != 0 {
            return Err(FixedError::IncommensurableDenominators);
        }
        let d = if a.1 >= b.1 {
            a.1
        } else {
            b.1
        };
        proof {
            lemma_common_divides(a.1, b.1);
        }
        let fa = d / a.1;
        let fb = d / b.1;
        proof {
            lemma_product_bound(a.0 as int, fa as int);
            lemma_product_bound(b.0 as int, fb as int);
        }
        Ok(((a.0 as i64) * (fa as i64), (b.0 as i64) * (fb as i64), d))
    }

    /// `self + rhs` on the common denominator; only the sum itself must fit
    /// in an `i32`.
    pub fn add(self, rhs: Fixed) -> (r: Result<Fixed, FixedError>)
        ensures
            r == sum_of(self, rhs),
    {
        match Fixed::scaled_pair(self, rhs) {
            Ok((na, nb, d)) => {
                let n = na + nb;
                if n < -2147483648 || n > 2147483647 {
                    Err(FixedError::Overflow)
                } else {
                    Ok(Fixed(n as i32, d))
                }
            },
            Err(e) => Err(e),
        }
    }

    /// `self - rhs` on the common denominator; only the difference itself
    /// must fit in an `i32`.
    pub fn sub(self, rhs: Fixed) -> (r: Result<Fixed, FixedError>)
        ensures
            r == difference_of(self, rhs),
    {
        match Fixed::scaled_pair(self, rhs) {
            Ok((na, nb, d)) => {
                let n = na - nb;
                if n < -2147483648 || n > 2147483647 {
                    Err(FixedError::Overflow)
                } else {
                    Ok(Fixed(n as i32, d))
                }
            },
            Err(e) => Err(e),
        }
    }

    /// Adds `rhs` in place; on an error `self` is left as it was.
    pub fn add_assign(&mut self, rhs: Fixed) -> (r: Result<(), FixedError>)
        ensures
            match sum_of(*old(self), rhs) {
                Ok(v) => r is Ok && *final(self) == v,
                Err(e) => r == Err::<(), FixedError>(e) && *final(self) == *old(self),
            },
    {
        match self.add(rhs) {
            Ok(v) => {
                *self = v;
                Ok(())
            },
            Err(e) => Err(e),
        }
    }

    /// Subtracts `rhs` in place; on an error `self` is left as it was.
    pub fn sub_assign(&mut self, rhs: Fixed) -> (r: Result<(), FixedError>)
        ensures
            match difference_of(*old(self), rhs) {
                Ok(v) => r is Ok && *final(self) == v,
                Err(e) => r == Err::<(), FixedError>(e) && *final(self) == *old(self),
            },
    {
        match self.sub(rhs) {
            Ok(v) => {
                *self = v;
                Ok(())
            },
            Err(e) => Err(e),
        }
    }

    /// The amount with its sign turned.
    pub fn neg(self) -> (r: Fixed)
        requires
            self.0 != i32::MIN,
        ensures
            r.0 == -self.0,
            r.1 == self.1,
    {
        Fixed(-self.0, self.1)
    }

    /// The sum of `items`, starting from `0/1`.
    pub fn sum(items: &Vec<Fixed>) -> (r: Result<Fixed, FixedError>)
        ensures
            r == fold_sum(Fixed(0, 1), items@),
    {
        let mut acc = Fixed(0, 1);
        let mut i: usize = 0;
        while i < items.len()
            invariant
                i <= items@.len(),
                fold_sum(Fixed(0, 1), items@.subrange(0, i as int)) == Ok::<Fixed, FixedError>(acc),
            decreases items@.len() - i,
        {
            let ghost pre = items@.subrange(0, i as int);
            let ghost next = items@.subrange(0, i + 1);
            assert(next.drop_last() =~= pre);
            match acc.add(items[i]) {
                Ok(v) => {
                    acc = v;
                },
                Err(e) => {
                    proof {
                        lemma_fold_error_stays(Fixed(0, 1), items@, i as int + 1);
                    }
                    return Err(e);
                },
            }
            i = i + 1;
        }
        assert(items@.subrange(0, i as int) =~= items@);
        Ok(acc)
    }

    /// Reads `"<numerator>/<denominator>"`, as [`parses_to`] says.
    pub fn from_str(s: &str) -> (r: Result<Fixed, FixedError>)
        ensures
            parses_to(s@, r),
    {
        let n = s.unicode_len();
        let mut i: usize = 0;
        while i < n
            invariant
                n == s@.len(),
                i <= n,
                forall|j: int| 0 <= j < i ==> s@[j] != '/',
            ensures
                i <= n,
                forall|j: int| 0 <= j < i ==> s@[j] != '/',
                i < n ==> s@[i as int] == '/',
            decreases n - i,
        {
            if s.get_char(i) == '/' {
                break;
            }
            i = i + 1;
        }
        if i == n {
            assert(!has_slash(s@));
            return Err(FixedError::MalformedSource(String::from_str(s)));
        }
        proof {
            lemma_first_slash_unique(s@, i as int);
        }
        let num = s.substring_char(0, i);
        let den = s.substring_char(i + 1, n);
        let n = match parse_int(num, -2147483648, 2147483647) {
            Ok(v) => v,
            Err(e) => {
                return Err(FixedError::ParseNumeratorError(e));
            },
        };
        let d = match parse_int(den, 0, 65535) {
            Ok(v) => v,
            Err(e) => {
                return Err(FixedError::ParseDenominatorError(e));
            },
        };
        if d == 0 {
            return Err(FixedError::ZeroDenominator);
        }
        Ok(Fixed(n as i32, d as u16))
    }
}

/// Once the running sum fails it stays failed.
pub proof fn lemma_fold_error_stays(start: Fixed, items: Seq<Fixed>, k: int)
    requires
        0 <= k <= items.len(),
        fold_sum(start, items.subrange(0, k)) is Err,
    ensures
        fold_sum(start, items) == fold_sum(start, items.subrange(0, k)),
    decreases items.len() - k,
{
    if k < items.len() {
        let next = items.subrange(0, k + 1);
        assert(next.drop_last() =~= items.subrange(0, k));
        lemma_fold_error_stays(start, items, k + 1);
    } else {
        assert(items.subrange(0, k) =~= items);
    }
}

impl Default for Fixed {
    /// Zero, over the denominator one.
    fn default() -> (r: Fixed)
        ensures
            r == Fixed(0, 1),
    {
        Fixed(0, 1)
    }
}

impl PartialEq for Fixed {
    /// Whether the two stand for the same rational number.
    fn eq(&self, other: &Fixed) -> (r: bool) {
        proof {
            lemma_product_bound(self.0 as int, other.1 as int);
            lemma_product_bound(other.0 as int, self.1 as int);
        }
        (self.0 as i64) * (other.1 as i64) == (other.0 as i64) * (self.1 as i64)
    }
}

impl vstd::std_specs::cmp::PartialEqSpecImpl for Fixed {
    open spec fn obeys_eq_spec() -> bool {
        true
    }

    open spec fn eq_spec(&self, other: &Fixed) -> bool {
        self.same_value(*other)
    }
}

} // verus!
