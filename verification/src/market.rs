//! The calendar and the random source behind the demo portfolio's synthetic prices.
//!
//! The generator is deterministic, so the same install always gets the same demo: a screenshot
//! or a bug report about it describes numbers anybody else can reproduce. Turning its output into
//! prices is floating-point work and happens outside this library.

use vstd::prelude::*;
use crate::dates::{Date, in_calendar, last_day, weekday_of};

verus! {

/// One xorshift64 step: three shifts.
pub open spec fn xorshift(x: u64) -> u64 {
    let a = x ^ (x >> 12u64);
    let b = a ^ (a << 25u64);
    b ^ (b >> 27u64)
}

/// The xorshift64* output of a state: the state times a fixed odd constant, wrapping.
pub open spec fn scrambled(x: u64) -> u64 {
    ((x as int * 0x2545_f491_4f6c_dd1d) % 0x1_0000_0000_0000_0000) as u64
}

/// A deterministic generator: xorshift64*, enough shape for a price walk.
pub struct Rng(u64);

impl Rng {
    /// A xorshift state of zero would stay zero forever.
    #[verifier::type_invariant]
    spec fn never_zero(self) -> bool {
        self.0 != 0
    }

    pub closed spec fn view(&self) -> u64 {
        self.0
    }

    /// A generator started from `seed`; the lowest bit is set, so no seed starts it at zero.
    pub fn new(seed: u64) -> (r: Rng)
        ensures
            r@ == seed | 1,
            r@ != 0,
    {
        let s = seed | 1;
        assert(s != 0) by (bit_vector)
            requires
                s == seed | 1,
        ;
        Rng(s)
    }

    /// The next number; the state moves one step.
    pub fn next_u64(&mut self) -> (x: u64)
        ensures
            final(self)@ == xorshift(old(self)@),
            x == scrambled(final(self)@),
            final(self)@ != 0,
    {
        proof {
            use_type_invariant(&*self);
        }
        let mut x = self.0;
        let ghost start = x;
        x ^= x >> 12;
        x ^= x << 25;
        x ^= x >> 27;
        assert(x == xorshift(start));
        proof {
            lemma_xorshift_nonzero(start);
        }
        self.0 = x;
        proof {
            law_draws_never_zero(x);
        }
        x.wrapping_mul(0x2545_f491_4f6c_dd1d)
    }
}

/// No draw is ever zero: the state never is, and multiplying by an odd constant modulo 2^64 is
/// a bijection that keeps zero for zero alone.
pub proof fn law_draws_never_zero(state: u64)
    requires
        state != 0,
    ensures
        scrambled(state) != 0,
{
    assert(((state as int * 0x2545_f491_4f6c_dd1d) % 0x1_0000_0000_0000_0000) as u64 != 0) by (bit_vector)
        requires
            state != 0,
    ;
}

/// The first `n` numbers a generator in `state` draws, one `next_u64` after another.
pub open spec fn draws(state: u64, n: nat) -> Seq<u64>
    decreases n,
{
    if n == 0 {
        Seq::empty()
    } else {
        seq![scrambled(xorshift(state))] + draws(xorshift(state), (n - 1) as nat)
    }
}

/// What a generator started from `seed` draws depends on the seed alone, is the same as what
/// one started from `seed | 1` draws, and holds no zero.
pub proof fn law_same_seed_same_draws(seed: u64, n: nat)
    ensures
        draws((seed | 1) | 1, n) == draws(seed | 1, n),
        forall|i: int| 0 <= i < n ==> #[trigger] draws(seed | 1, n)[i] != 0,
{
    assert((seed | 1) | 1 == seed | 1) by (bit_vector);
    let s = seed | 1;
    assert(s != 0) by (bit_vector)
        requires
            s == seed | 1,
    ;
    lemma_draws_nonzero(s, n);
}

proof fn lemma_draws_nonzero(state: u64, n: nat)
    requires
        state != 0,
    ensures
        draws(state, n).len() == n,
        forall|i: int| 0 <= i < n ==> #[trigger] draws(state, n)[i] != 0,
    decreases n,
{
    if n > 0 {
        lemma_xorshift_nonzero(state);
        law_draws_never_zero(xorshift(state));
        lemma_draws_nonzero(xorshift(state), (n - 1) as nat);
        let rest = draws(xorshift(state), (n - 1) as nat);
        assert forall|i: int| 0 <= i < n implies #[trigger] draws(state, n)[i] != 0 by {
            if i > 0 {
                assert(draws(state, n)[i] == rest[i - 1]);
            }
        }
    }
}

/// Each xorshift step can be undone, so a state that is not zero never becomes zero.
pub proof fn lemma_xorshift_nonzero(x: u64)
    requires
        x != 0,
    ensures
        xorshift(x) != 0,
{
    let a = x ^ (x >> 12u64);
    let b = a ^ (a << 25u64);
    let c = b ^ (b >> 27u64);
    assert(c != 0) by (bit_vector)
        requires
            x != 0,
            a == x ^ (x >> 12u64),
            b == a ^ (a << 25u64),
            c == b ^ (b >> 27u64),
    ;
}

/// Whether a day is a trading day: Monday to Friday.
pub open spec fn is_weekday(n: int) -> bool {
    weekday_of(n) < 5
}

/// The trading days from `from` to `to`, both included, oldest first.
pub open spec fn trading_days(from: int, to: int) -> Seq<int>
    decreases to - from + 1,
{
    if to < from {
        Seq::empty()
    } else {
        let before = trading_days(from, to - 1);
        if is_weekday(to) {
            before.push(to)
        } else {
            before
        }
    }
}

/// The days' numbers.
pub open spec fn day_numbers(v: Seq<Date>) -> Seq<int> {
    v.map_values(|d: Date| d@)
}

/// Trading days, oldest first. Quotes only exist on weekdays, which is what the risk metrics
/// assume when they annualise by the square root of 252. When there are days to walk, the day
/// after `to` must exist in the calendar: stepping past its end is where `chrono` panics.
pub fn business_days(from: Date, to: Date) -> (days: Vec<Date>)
    requires
        from@ <= to@ ==> to@ < last_day(),
    ensures
        day_numbers(days@) == trading_days(from@, to@),
{
    let mut days: Vec<Date> = Vec::new();
    let first = from.number();
    let last = to.number();
    let mut date = from;
    assert(day_numbers(days@) =~= trading_days(from@, from@ - 1));
    while date.number() <= last
        invariant
            first == from@,
            last == to@,
            from@ <= date@,
            date@ <= to@ + 1 || date@ == from@,
            from@ <= to@ ==> to@ < last_day(),
            in_calendar(from@),
            day_numbers(days@) == trading_days(from@, date@ - 1),
        decreases to@ - date@ + 1,
    {
        let ghost before = days@;
        if date.weekday() < 5 {
            days.push(date);
            assert(day_numbers(days@) =~= day_numbers(before).push(date@));
        }
        date = date.plus_days(1);
    }
    proof {
        if date@ != to@ + 1 {
            assert(trading_days(from@, to@) =~= Seq::<int>::empty());
            assert(trading_days(from@, date@ - 1) =~= Seq::<int>::empty());
        }
    }
    days
}

/// Strictly increasing: each day once, oldest first.
pub open spec fn increasing(days: Seq<int>) -> bool {
    forall|i: int, j: int| 0 <= i < j < days.len() ==> days[i] < days[j]
}

/// `k` splits the days into those before `date` and those on or after it.
pub open spec fn splits(days: Seq<int>, date: int, k: int) -> bool {
    &&& 0 <= k <= days.len()
    &&& forall|i: int| 0 <= i < k ==> days[i] < date
    &&& forall|i: int| k <= i < days.len() ==> days[i] >= date
}

/// The first trading day on or after `date`, as an index into `days`; the last one when `date`
/// is later than all of them.
pub open spec fn index_on_spec(days: Seq<int>, date: int) -> int {
    let k = choose|k: int| #[trigger] splits(days, date, k);
    if k < days.len() { k } else { days.len() - 1 }
}

/// The first trading day on or after `date`, as an index into `days`; the last one when `date`
/// is later than all of them.
pub fn index_on(days: &Vec<Date>, date: Date) -> (k: usize)
    requires
        days@.len() > 0,
        increasing(day_numbers(days@)),
    ensures
        k < days@.len(),
        forall|i: int| 0 <= i < k ==> days@[i]@ < date@,
        k < days@.len() - 1 ==> days@[k as int]@ >= date@,
        k == index_on_spec(day_numbers(days@), date@),
{
    let ghost nums = day_numbers(days@);
    let mut lo: usize = 0;
    let mut hi: usize = days.len();
    while lo < hi
        invariant
            nums == day_numbers(days@),
            increasing(nums),
            0 <= lo <= hi <= days@.len(),
            forall|i: int| 0 <= i < lo ==> days@[i]@ < date@,
            forall|i: int| hi <= i < days@.len() ==> days@[i]@ >= date@,
        decreases hi - lo,
    {
        let mid = lo + (hi - lo) / 2;
        if days[mid].is_before(&date) {
            proof {
                assert forall|i: int| 0 <= i <= mid implies days@[i]@ < date@ by {
                    assert(nums[i] == days@[i]@ && nums[mid as int] == days@[mid as int]@);
                    if i < mid {
                        assert(nums[i] < nums[mid as int]);
                    }
                }
            }
            lo = mid + 1;
        } else {
            proof {
                assert forall|i: int| mid <= i < days@.len() implies days@[i]@ >= date@ by {
                    assert(nums[i] == days@[i]@ && nums[mid as int] == days@[mid as int]@);
                    if i > mid {
                        assert(nums[mid as int] < nums[i]);
                    }
                }
            }
            hi = mid;
        }
    }
    proof {
        let k = lo as int;
        assert(splits(nums, date@, k));
        assert(exists|c: int| #[trigger] splits(nums, date@, c));
        let c = choose|c: int| #[trigger] splits(nums, date@, c);
        assert(splits(nums, date@, c));
        if c < k {
            assert(nums[c] >= date@);
            assert(nums[c] < date@);
        }
        if c > k {
            assert(nums[k] < date@);
            assert(nums[k] >= date@);
        }
    }
    if lo < days.len() {
        lo
    } else {
        days.len() - 1
    }
}

} // verus!
