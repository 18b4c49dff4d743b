//! Running sums of amounts, one sum per side of a (value, quantity) pair.
use vstd::prelude::*;

use crate::fixed::{fold_sum, lemma_fold_error_stays, Fixed, FixedError};

verus! {

/// A running sum, started afresh for each account.
#[derive(Debug, Clone, Copy)]
pub struct SumExtender(pub Fixed);

/// The value side of a split, in the transaction's currency.
#[derive(Debug, Clone, Copy)]
pub struct Value(pub Fixed);

/// The quantity side of a split, in the account's own commodity.
#[derive(Debug, Clone, Copy)]
pub struct Quantity(pub Fixed);

/// What summing the two sides of `pairs` independently gives, each side from
/// its own start: both sums, or the error of the first side that fails.
pub open spec fn pair_sums(start: (Fixed, Fixed), pairs: Seq<(Fixed, Fixed)>) -> Result<
    (Fixed, Fixed),
    FixedError,
> {
    match fold_sum(start.0, firsts(pairs)) {
        Err(e) => Err(e),
        Ok(a) => match fold_sum(start.1, seconds(pairs)) {
            Err(e) => Err(e),
            Ok(b) => Ok((a, b)),
        },
    }
}

/// The first component of each pair.
pub open spec fn firsts(pairs: Seq<(Fixed, Fixed)>) -> Seq<Fixed> {
    pairs.map_values(|p: (Fixed, Fixed)| p.0)
}

/// The second component of each pair.
pub open spec fn seconds(pairs: Seq<(Fixed, Fixed)>) -> Seq<Fixed> {
    pairs.map_values(|p: (Fixed, Fixed)| p.1)
}

impl Default for SumExtender {
    /// The empty sum, `0/1`.
    fn default() -> (r: SumExtender)
        ensures
            r.0 == Fixed(0, 1),
    {
        SumExtender(Fixed(0, 1))
    }
}

impl Default for Value {
    /// A zero value in hundredths.
    fn default() -> (r: Value)
        ensures
            r.0 == Fixed(0, 100),
    {
        Value(Fixed(0, 100))
    }
}

impl Default for Quantity {
    /// A zero quantity in hundredths.
    fn default() -> (r: Quantity)
        ensures
            r.0 == Fixed(0, 100),
    {
        Quantity(Fixed(0, 100))
    }
}

impl SumExtender {
    /// A running sum that starts at `start`.
    pub fn starting_at(start: Fixed) -> (r: SumExtender)
        ensures
            r.0 == start,
    {
        SumExtender(start)
    }

    /// Adds every item of `items` in order. On an error the sum is left as it
    /// was before the call.
    pub fn extend(&mut self, items: &Vec<Fixed>) -> (r: Result<(), FixedError>)
        ensures
            match fold_sum(old(self).0, items@) {
                Ok(v) => r is Ok && final(self).0 == v,
                Err(e) => r == Err::<(), FixedError>(e) && *final(self) == *old(self),
            },
    {
        let start = self.0;
        let mut acc = self.0;
        let mut i: usize = 0;
        while i < items.len()
            invariant
                i <= items@.len(),
                *self == *old(self),
                start == old(self).0,
                fold_sum(start, items@.subrange(0, i as int)) == Ok::<Fixed, FixedError>(acc),
            decreases items@.len() - i,
        {
            let ghost pre = items@.subrange(0, i as int);
            let ghost next = items@.subrange(0, i + 1);
            assert(next.drop_last() =~= pre);
            match acc.add(items[i]) {
                Ok(v) => {
                    acc = v;
                },
                Err(e) => {
                    proof {
                        lemma_fold_error_stays(start, items@, i as int + 1);
                    }
                    return Err(e);
                },
            }
            i = i + 1;
        }
        assert(items@.subrange(0, i as int) =~= items@);
        self.0 = acc;
        Ok(())
    }

    /// The sum so far.
    pub fn deref(&self) -> (r: &Fixed)
        ensures
            *r == self.0,
    {
        &self.0
    }
}

/// Sums the values and the quantities of `pairs` separately, the first from
/// `start.0` and the second from `start.1`; the two sides are never brought
/// to a common denominator with each other.
pub fn unzip_sums(start: (Fixed, Fixed), pairs: &Vec<(Fixed, Fixed)>) -> (r: Result<(Fixed, Fixed), FixedError>)
    ensures
        r == pair_sums(start, pairs@),
{
    let mut values: Vec<Fixed> = Vec::new();
    let mut quantities: Vec<Fixed> = Vec::new();
    let mut i: usize = 0;
    while i < pairs.len()
        invariant
            i <= pairs@.len(),
            values@ == firsts(pairs@.subrange(0, i as int)),
            quantities@ == seconds(pairs@.subrange(0, i as int)),
        decreases pairs@.len() - i,
    {
        let (v, q) = pairs[i];
        values.push(v);
        quantities.push(q);
        i = i + 1;
        assert(values@ =~= firsts(pairs@.subrange(0, i as int)));
        assert(quantities@ =~= seconds(pairs@.subrange(0, i as int)));
    }
    assert(pairs@.subrange(0, i as int) =~= pairs@);
    let mut value_sum = SumExtender::starting_at(start.0);
    let mut quantity_sum = SumExtender::starting_at(start.1);
    match value_sum.extend(&values) {
        Ok(()) => {},
        Err(e) => {
            return Err(e);
        },
    }
    match quantity_sum.extend(&quantities) {
        Ok(()) => {},
        Err(e) => {
            return Err(e);
        },
    }
    Ok((*value_sum.deref(), *quantity_sum.deref()))
}

} // verus!
