//! Numbers: prices, amounts and thresholds.
use vstd::prelude::*;

verus! {

/// The sign bit of a number.
pub const SIGN_BIT: u64 = 0x8000_0000_0000_0000;

/// The magnitude of infinity. A larger one is that of no number.
pub const INFINITE_MAGNITUDE: u64 = 0x7ff0_0000_0000_0000;

/// The bit pattern of zero.
pub const ZERO_BITS: u64 = 0;

/// The bit pattern of one half.
pub const HALF_BITS: u64 = 0x3fe0_0000_0000_0000;

/// The bit pattern of the number nearest to 95 hundredths.
pub const WIN_PRICE_BITS: u64 = 0x3fee_6666_6666_6666;

/// A number in IEEE 754's format of 64 bits, held as its bit pattern: a sign bit, above a
/// magnitude that grows with the absolute value. Magnitudes above that of infinity stand for
/// no number.
#[derive(Clone, Copy, PartialEq, Eq, Structural, Debug)]
pub struct Number {
    pub bits: u64,
}

impl Number {
    /// The bits below the sign.
    pub open spec fn magnitude(self) -> int {
        if self.bits >= SIGN_BIT {
            self.bits - SIGN_BIT
        } else {
            self.bits as int
        }
    }

    /// Whether this is a number.
    pub open spec fn is_number(self) -> bool {
        self.magnitude() <= INFINITE_MAGNITUDE
    }

    /// The place of a number among the numbers. Both zeros have place 0.
    pub open spec fn rank(self) -> int {
        if self.bits >= SIGN_BIT {
            -self.magnitude()
        } else {
            self.magnitude()
        }
    }

    /// `self < other`: it does not hold where either is no number.
    pub open spec fn lt(self, other: Number) -> bool {
        self.is_number() && other.is_number() && self.rank() < other.rank()
    }

    /// Zero.
    pub open spec fn zero() -> Number {
        Number { bits: ZERO_BITS }
    }

    /// The number with the bit pattern `bits`.
    pub fn from_bits(bits: u64) -> (r: Number)
        ensures
            r.bits == bits,
    {
        Number { bits }
    }

    /// Whether this is a number.
    pub fn has_value(&self) -> (r: bool)
        ensures
            r == self.is_number(),
    {
        let magnitude: u64 = if self.bits >= SIGN_BIT {
            self.bits - SIGN_BIT
        } else {
            self.bits
        };
        magnitude <= INFINITE_MAGNITUDE
    }

    /// The place among the numbers.
    fn place(&self) -> (r: i64)
        requires
            self.is_number(),
        ensures
            r == self.rank(),
    {
        if self.bits >= SIGN_BIT {
            0 - ((self.bits - SIGN_BIT) as i64)
        } else {
            self.bits as i64
        }
    }

    /// `self < other`.
    pub fn is_less_than(&self, other: &Number) -> (r: bool)
        ensures
            r == self.lt(*other),
    {
        self.has_value() && other.has_value() && self.place() < other.place()
    }
}

/// No number is below itself, and of two numbers at most one is below the other.
pub proof fn law_less_than_is_strict(a: Number, b: Number)
    ensures
        !a.lt(a),
        a.lt(b) ==> !b.lt(a),
{
}

/// A number below one that is below a third is below the third.
pub proof fn law_less_than_is_transitive(a: Number, b: Number, c: Number)
    requires
        a.lt(b),
        b.lt(c),
    ensures
        a.lt(c),
{
}

/// Of two numbers, one is below the other or they have the same place. Where one of the two is no
/// number, neither is below the other.
pub proof fn law_comparison_is_total_on_numbers(a: Number, b: Number)
    ensures
        a.is_number() && b.is_number() ==> a.lt(b) || b.lt(a) || a.rank() == b.rank(),
        !(a.is_number() && b.is_number()) ==> !a.lt(b) && !b.lt(a),
{
}

/// The least number in `readings`, of equal ones the first; nothing where nothing was read.
pub open spec fn least(readings: Seq<Option<Number>>) -> Option<Number>
    decreases readings.len(),
{
    if readings.len() == 0 {
        None
    } else {
        match (least(readings.drop_last()), readings.last()) {
            (None, last) => last,
            (Some(best), None) => Some(best),
            (Some(best), Some(last)) => if last.rank() < best.rank() {
                Some(last)
            } else {
                Some(best)
            },
        }
    }
}

/// The greatest number in `readings`, of equal ones the last; nothing where nothing was read.
pub open spec fn greatest(readings: Seq<Option<Number>>) -> Option<Number>
    decreases readings.len(),
{
    if readings.len() == 0 {
        None
    } else {
        match (greatest(readings.drop_last()), readings.last()) {
            (None, last) => last,
            (Some(best), None) => Some(best),
            (Some(best), Some(last)) => if last.rank() >= best.rank() {
                Some(last)
            } else {
                Some(best)
            },
        }
    }
}

/// How many of `readings` were read.
pub open spec fn count_read(readings: Seq<Option<Number>>) -> nat
    decreases readings.len(),
{
    if readings.len() == 0 {
        0
    } else {
        count_read(readings.drop_last()) + if readings.last() is Some {
            1nat
        } else {
            0nat
        }
    }
}

/// Whether the readings can be compared: at most one was read, or each one read is a number.
pub open spec fn comparable(readings: Seq<Option<Number>>) -> bool {
    count_read(readings) <= 1 || forall|i: int|
        0 <= i < readings.len() ==> (#[trigger] readings[i] matches Some(x) ==> x.is_number())
}

/// Whether the readings can be compared.
pub fn are_comparable(readings: &Vec<Option<Number>>) -> (r: bool)
    ensures
        r == comparable(readings@),
{
    let mut count: usize = 0;
    let mut all: bool = true;
    let mut i: usize = 0;
    while i < readings.len()
        invariant
            i <= readings.len(),
            count <= i,
            count == count_read(readings@.take(i as int)),
            all == forall|j: int|
                0 <= j < i ==> (#[trigger] readings@[j] matches Some(x) ==> x.is_number()),
        decreases readings.len() - i,
    {
        assert(readings@.take(i + 1).drop_last() == readings@.take(i as int));
        if let Some(x) = readings[i] {
            count = count + 1;
            if !x.has_value() {
                all = false;
            }
        }
        i = i + 1;
    }
    assert(readings@.take(i as int) == readings@);
    count <= 1 || all
}

/// The least number read.
pub fn least_of(readings: &Vec<Option<Number>>) -> (r: Option<Number>)
    requires
        comparable(readings@),
    ensures
        r == least(readings@),
{
    let mut best: Option<Number> = None;
    let mut i: usize = 0;
    while i < readings.len()
        invariant
            comparable(readings@),
            i <= readings.len(),
            best == least(readings@.take(i as int)),
            best is Some ==> count_read(readings@.take(i as int)) >= 1,
            best is Some && count_read(readings@) > 1 ==> best->0.is_number(),
        decreases readings.len() - i,
    {
        proof {
            assert(readings@.take(i + 1).drop_last() == readings@.take(i as int));
            lemma_count_read_grows(readings@, i + 1);
        }
        best = match (best, readings[i]) {
            (None, last) => last,
            (Some(b), None) => Some(b),
            (Some(b), Some(last)) => if last.place() < b.place() {
                Some(last)
            } else {
                Some(b)
            },
        };
        i = i + 1;
    }
    assert(readings@.take(i as int) == readings@);
    best
}

/// The greatest number read.
pub fn greatest_of(readings: &Vec<Option<Number>>) -> (r: Option<Number>)
    requires
        comparable(readings@),
    ensures
        r == greatest(readings@),
{
    let mut best: Option<Number> = None;
    let mut i: usize = 0;
    while i < readings.len()
        invariant
            comparable(readings@),
            i <= readings.len(),
            best == greatest(readings@.take(i as int)),
            best is Some ==> count_read(readings@.take(i as int)) >= 1,
            best is Some && count_read(readings@) > 1 ==> best->0.is_number(),
        decreases readings.len() - i,
    {
        proof {
            assert(readings@.take(i + 1).drop_last() == readings@.take(i as int));
            lemma_count_read_grows(readings@, i + 1);
        }
        best = match (best, readings[i]) {
            (None, last) => last,
            (Some(b), None) => Some(b),
            (Some(b), Some(last)) => if last.place() >= b.place() {
                Some(last)
            } else {
                Some(b)
            },
        };
        i = i + 1;
    }
    assert(readings@.take(i as int) == readings@);
    best
}

/// A prefix holds no more readings than the whole.
proof fn lemma_count_read_grows(readings: Seq<Option<Number>>, k: int)
    requires
        0 <= k <= readings.len(),
    ensures
        count_read(readings.take(k)) <= count_read(readings),
    decreases readings.len() - k,
{
    if k == readings.len() {
        assert(readings.take(k) == readings);
    } else {
        lemma_count_read_grows(readings, k + 1);
        assert(readings.take(k + 1).drop_last() == readings.take(k));
    }
}

/// The best price exists where anything was read, is one of what was read, and no other number
/// read is better: none is below the least, and none is above the greatest.
pub proof fn law_best_is_read_and_unbeaten(readings: Seq<Option<Number>>)
    ensures
        (least(readings) is Some) == (exists|i: int|
            0 <= i < readings.len() && #[trigger] readings[i] is Some),
        (greatest(readings) is Some) == (least(readings) is Some),
        least(readings) is Some ==> readings.contains(least(readings)),
        greatest(readings) is Some ==> readings.contains(greatest(readings)),
        forall|i: int|
            0 <= i < readings.len() && #[trigger] readings[i] is Some ==> {
                &&& least(readings)->0.rank() <= readings[i]->0.rank()
                &&& readings[i]->0.rank() <= greatest(readings)->0.rank()
            },
    decreases readings.len(),
{
    if readings.len() > 0 {
        let rest = readings.drop_last();
        law_best_is_read_and_unbeaten(rest);
        assert forall|x: Option<Number>| rest.contains(x) implies readings.contains(x) by {
            let j = choose|j: int| 0 <= j < rest.len() && rest[j] == x;
            assert(readings[j] == x);
        }
        assert(readings[readings.len() - 1] == readings.last());
        assert forall|i: int| 0 <= i < readings.len() && #[trigger] readings[i] is Some implies {
            &&& least(readings)->0.rank() <= readings[i]->0.rank()
            &&& readings[i]->0.rank() <= greatest(readings)->0.rank()
        } by {
            if i < rest.len() {
                assert(rest[i] == readings[i]);
            }
        }
        if exists|i: int| 0 <= i < rest.len() && #[trigger] rest[i] is Some {
            let i = choose|i: int| 0 <= i < rest.len() && #[trigger] rest[i] is Some;
            assert(readings[i] is Some);
        }
        if exists|i: int| 0 <= i < readings.len() && #[trigger] readings[i] is Some {
            let i = choose|i: int| 0 <= i < readings.len() && #[trigger] readings[i] is Some;
            if i < rest.len() {
                assert(rest[i] is Some);
            }
        }
    }
}

} // verus!
