//! Decimal text of integers, and the comparison of words.
use vstd::prelude::*;

verus! {

/// Whether `c` is one of the ASCII digits `0` to `9`.
pub open spec fn is_digit(c: char) -> bool {
    '0' <= c && c <= '9'
}

/// The value of the digit `c`.
pub open spec fn digit_value(c: char) -> int {
    (c as u32) as int - ('0' as u32) as int
}

/// The digit character that stands for `d`, for `d` below ten.
pub open spec fn digit_char(d: int) -> char {
    ((d + ('0' as u32) as int) as u32) as char
}

/// Whether every character of `s` is a digit.
pub open spec fn all_digits(s: Seq<char>) -> bool {
    forall|i: int| 0 <= i < s.len() ==> is_digit(#[trigger] s[i])
}

/// The number that the digits `s` write, most significant first.
pub open spec fn digits_value(s: Seq<char>) -> nat
    decreases s.len(),
{
    if s.len() == 0 {
        0
    } else {
        (digits_value(s.drop_last()) * 10 + digit_value(s.last())) as nat
    }
}

/// The shortest decimal text of `n`: no sign, no leading zero.
pub open spec fn nat_text(n: nat) -> Seq<char>
    decreases n,
{
    if n < 10 {
        seq![digit_char(n as int)]
    } else {
        nat_text(n / 10).push(digit_char((n % 10) as int))
    }
}

/// The decimal text of `i`, with a leading `-` when it is negative.
pub open spec fn int_text(i: int) -> Seq<char> {
    if i < 0 {
        seq!['-'] + nat_text((-i) as nat)
    } else {
        nat_text(i as nat)
    }
}

/// The ways in which a text fails to be an integer of a given range.
#[derive(Debug, Clone, Copy, PartialEq, Eq, Structural)]
pub enum IntErrorKind {
    /// The text is empty.
    Empty,
    /// The text holds a character that is not a digit where one is needed.
    InvalidDigit,
    /// The number is above the largest value of the range.
    PosOverflow,
    /// The number is below the smallest value of the range.
    NegOverflow,
}

/// What reading `s` as an integer in `lo..=hi` gives: an optional `+`
/// (or `-`, where the range holds negative numbers) followed by at least one
/// digit and nothing else.
pub open spec fn int_of_text(s: Seq<char>, lo: int, hi: int) -> Result<int, IntErrorKind> {
    if s.len() == 0 {
        Err(IntErrorKind::Empty)
    } else {
        let negative = s[0] == '-' && lo < 0;
        let body = if s[0] == '+' || negative {
            s.drop_first()
        } else {
            s
        };
        if body.len() == 0 || !all_digits(body) {
            Err(IntErrorKind::InvalidDigit)
        } else {
            let v = if negative {
                -digits_value(body)
            } else {
                digits_value(body) as int
            };
            if v > hi {
                Err(IntErrorKind::PosOverflow)
            } else if v < lo {
                Err(IntErrorKind::NegOverflow)
            } else {
                Ok(v)
            }
        }
    }
}

/// The text of a number is made of digits and reads back as that number.
pub proof fn lemma_nat_text(n: nat)
    ensures
        nat_text(n).len() > 0,
        all_digits(nat_text(n)),
        digits_value(nat_text(n)) == n,
    decreases n,
{
    if n < 10 {
        let s = nat_text(n);
        assert(s.drop_last() =~= Seq::<char>::empty());
        assert(digits_value(s.drop_last()) == 0);
        assert(digit_value(digit_char(n as int)) == n);
        assert(digits_value(s) == n);
    } else {
        lemma_nat_text(n / 10);
        let s = nat_text(n);
        assert((n / 10) * 10 + n % 10 == n);
        assert(s.drop_last() =~= nat_text(n / 10));
        assert(digits_value(s.drop_last()) == n / 10);
        assert(s.last() == digit_char((n % 10) as int));
        assert(digit_value(digit_char((n % 10) as int)) == n % 10);
        assert(digits_value(s) == digits_value(s.drop_last()) * 10 + digit_value(s.last()));
        assert forall|i: int| 0 <= i < s.len() implies is_digit(#[trigger] s[i]) by {
            if i < s.len() - 1 {
                assert(s[i] == nat_text(n / 10)[i]);
            }
        }
    }
}

/// Reading the decimal text of `i` gives `i` back, in any range that holds it.
pub proof fn lemma_int_text_round_trip(i: int, lo: int, hi: int)
    requires
        lo <= i <= hi,
    ensures
        int_of_text(int_text(i), lo, hi) == Ok::<int, IntErrorKind>(i),
{
    let s = int_text(i);
    if i < 0 {
        let m = (-i) as nat;
        lemma_nat_text(m);
        assert(s.drop_first() =~= nat_text(m));
        assert(s[0] == '-');
    } else {
        lemma_nat_text(i as nat);
        assert(is_digit(s[0]));
    }
}

/// The digit character of `d` as a string.
fn digit_str(d: u64) -> (r: &'static str)
    requires
        d < 10,
    ensures
        r@ == seq![digit_char(d as int)],
{
    proof {
        reveal_strlit("0");
        reveal_strlit("1");
        reveal_strlit("2");
        reveal_strlit("3");
        reveal_strlit("4");
        reveal_strlit("5");
        reveal_strlit("6");
        reveal_strlit("7");
        reveal_strlit("8");
        reveal_strlit("9");
    }
    let r = if d == 0 {
        "0"
    } else if d == 1 {
        "1"
    } else if d == 2 {
        "2"
    } else if d == 3 {
        "3"
    } else if d == 4 {
        "4"
    } else if d == 5 {
        "5"
    } else if d == 6 {
        "6"
    } else if d == 7 {
        "7"
    } else if d == 8 {
        "8"
    } else {
        "9"
    };
    assert(r@ =~= seq![digit_char(d as int)]);
    r
}

/// Appends the decimal text of `n` to `out`.
pub fn push_nat_text(out: &mut String, n: u64)
    ensures
        final(out)@ == old(out)@ + nat_text(n as nat),
    decreases n,
{
    if n >= 10 {
        push_nat_text(out, n / 10);
    }
    let d = digit_str(n % 10);
    out.append(d);
    assert(final(out)@ =~= old(out)@ + nat_text(n as nat));
}

/// Appends the decimal text of `i` to `out`, with a `-` when it is negative.
pub fn push_int_text(out: &mut String, i: i64)
    ensures
        final(out)@ == old(out)@ + int_text(i as int),
{
    if i < 0 {
        proof {
            reveal_strlit("-");
        }
        out.append("-");
        let m: u64 = if i == i64::MIN {
            9223372036854775808u64
        } else {
            (-i) as u64
        };
        push_nat_text(out, m);
    } else {
        push_nat_text(out, i as u64);
    }
    assert(final(out)@ =~= old(out)@ + int_text(i as int));
}

/// Whether the two texts are the same.
pub fn same_text(a: &str, b: &str) -> (r: bool)
    ensures
        r == (a@ == b@),
{
    let n = a.unicode_len();
    if n != b.unicode_len() {
        return false;
    }
    let mut i: usize = 0;
    while i < n
        invariant
            n == a@.len(),
            n == b@.len(),
            i <= n,
            a@.subrange(0, i as int) == b@.subrange(0, i as int),
        decreases n - i,
    {
        if a.get_char(i) != b.get_char(i) {
            return false;
        }
        assert(a@.subrange(0, i + 1) =~= a@.subrange(0, i as int).push(a@[i as int]));
        assert(b@.subrange(0, i + 1) =~= b@.subrange(0, i as int).push(b@[i as int]));
        i = i + 1;
    }
    assert(a@ =~= a@.subrange(0, n as int));
    assert(b@ =~= b@.subrange(0, n as int));
    true
}

/// Whether the characters of `s` from `start` on are all digits, and if so
/// their value, cut off just past the magnitude of the smallest `i32`.
fn digits_magnitude(s: &str, start: usize) -> (r: Option<u64>)
    requires
        start <= s@.len(),
    ensures
        r is Some <==> all_digits(s@.subrange(start as int, s@.len() as int)),
        r matches Some(m) ==> {
            let v = digits_value(s@.subrange(start as int, s@.len() as int));
            &&& v <= 2147483648 ==> m == v
            &&& v > 2147483648 ==> m == 2147483649
        },
{
    let n = s.unicode_len();
    let mut acc: u64 = 0;
    let mut i: usize = start;
    while i < n
        invariant
            n == s@.len(),
            start <= i <= n,
            all_digits(s@.subrange(start as int, i as int)),
            acc <= 2147483649,
            digits_value(s@.subrange(start as int, i as int)) <= 2147483648
                ==> acc == digits_value(s@.subrange(start as int, i as int)),
            digits_value(s@.subrange(start as int, i as int)) > 2147483648 ==> acc == 2147483649,
        decreases n - i,
    {
        let c = s.get_char(i);
        let ghost pre = s@.subrange(start as int, i as int);
        let ghost next = s@.subrange(start as int, i + 1);
        assert(next =~= pre.push(c));
        if !('0' <= c && c <= '9') {
            assert(!is_digit(s@.subrange(start as int, n as int)[i - start]));
            return None;
        }
        assert(next.drop_last() =~= pre);
        let d = (c as u32 - '0' as u32) as u64;
        assert(digits_value(next) == digits_value(pre) * 10 + d);
        if acc <= 2147483648 {
            let v = acc * 10 + d;
            acc = if v > 2147483648 {
                2147483649
            } else {
                v
            };
        }
        i = i + 1;
    }
    Some(acc)
}

/// Reads `s` as an integer in `lo..=hi`, as [`int_of_text`] says.
pub fn parse_int(s: &str, lo: i64, hi: i64) -> (r: Result<i64, IntErrorKind>)
    requires
        -2147483648 <= lo <= hi <= 2147483647,
    ensures
        match int_of_text(s@, lo as int, hi as int) {
            Ok(v) => r == Ok::<i64, IntErrorKind>(v as i64),
            Err(e) => r == Err::<i64, IntErrorKind>(e),
        },
{
    let n = s.unicode_len();
    if n == 0 {
        return Err(IntErrorKind::Empty);
    }
    let first = s.get_char(0);
    let negative = first == '-' && lo < 0;
    let start: usize = if first == '+' || negative {
        1
    } else {
        0
    };
    let ghost body = s@.subrange(start as int, n as int);
    assert(start == 1 ==> body =~= s@.drop_first());
    assert(start == 0 ==> body =~= s@);
    if start == n {
        return Err(IntErrorKind::InvalidDigit);
    }
    let acc = match digits_magnitude(s, start) {
        Some(m) => m,
        None => {
            return Err(IntErrorKind::InvalidDigit);
        },
    };
    if negative {
        if (acc as i64) > -lo {
            return Err(IntErrorKind::NegOverflow);
        }
        let v = -(acc as i64);
        if v > hi {
            return Err(IntErrorKind::PosOverflow);
        }
        Ok(v)
    } else {
        if (acc as i64) > hi {
            return Err(IntErrorKind::PosOverflow);
        }
        let v = acc as i64;
        if v < lo {
            return Err(IntErrorKind::NegOverflow);
        }
        Ok(v)
    }
}

} // verus!
