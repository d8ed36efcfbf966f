//! The demo portfolio's ledger, as a schedule: three years of a monthly savings habit, with the
//! irregular things a real ledger also holds (a portfolio moved in from another broker, currency
//! exchanges, a closed trade, dividends, custody fees and one withdrawal). What happens in which
//! month is decided here, and so are the amounts a step books (interest, dividends, what a
//! partial sale takes); writing each step as the core's transactions, at the generated prices,
//! is the host's.

use vstd::prelude::*;
use crate::amount::{
    decimal_product, decimal_quotient, exact_product, figure_of, lemma_rounded_keeps_sign, pow10, rounded_sign, rounded_to,
    truncated, Amount,
};

verus! {

/// The instruments the demo holds.
#[derive(Debug, Clone, Copy, PartialEq, Eq, Structural)]
pub enum Instrument {
    Apple,
    Microsoft,
    Netflix,
    AllWorld,
    CoreWorld,
    Bonds,
    Bitcoin,
}

/// One thing that happens in a month of the demo ledger. Amounts are in the currency of the
/// account the step touches.
#[derive(Debug, Clone, Copy)]
pub enum DemoStep {
    /// Cash paid into the euro account.
    Deposit(Amount),
    /// The shares a new user brings with them: this many of the instrument, at cost, no cash leg.
    BringIn(Instrument, Amount),
    /// Euros into the dollar account, this many euros.
    Exchange(Amount),
    /// Buy for this budget on the euro depot.
    BuyEur(Instrument, Amount),
    /// Buy for this budget on the dollar depot.
    BuyUsd(Instrument, Amount),
    /// Sell this share of the position (all of it when `None`) on the dollar depot.
    SellUsd(Instrument, Option<Amount>),
    /// Cash from the euro account into savings.
    ToSavings(Amount),
    /// Cash from savings back into the euro account.
    FromSavings(Amount),
    /// Cash taken out of the euro account.
    Withdrawal(Amount),
    /// The dividends due this month, paid on the 15th.
    Dividends,
    /// Interest on what savings hold.
    Interest,
    /// The annual custody fee.
    Fee(Amount),
    /// Last year's investment income tax, settled.
    Tax(Amount),
}

/// An amount, as the spec reads it: mantissa and scale.
pub open spec fn amt(m: int, s: int) -> (int, int) {
    (m, s)
}

/// What a step is, with its amounts read as numbers.
pub open spec fn step_view(s: DemoStep) -> (int, Option<Instrument>, Option<(int, int)>) {
    match s {
        DemoStep::Deposit(a) => (0, None, Some(a@)),
        DemoStep::BringIn(i, a) => (1, Some(i), Some(a@)),
        DemoStep::Exchange(a) => (2, None, Some(a@)),
        DemoStep::BuyEur(i, a) => (3, Some(i), Some(a@)),
        DemoStep::BuyUsd(i, a) => (4, Some(i), Some(a@)),
        DemoStep::SellUsd(i, a) => (5, Some(i), match a {
            Some(x) => Some(x@),
            None => None,
        }),
        DemoStep::ToSavings(a) => (6, None, Some(a@)),
        DemoStep::FromSavings(a) => (7, None, Some(a@)),
        DemoStep::Withdrawal(a) => (8, None, Some(a@)),
        DemoStep::Dividends => (9, None, None),
        DemoStep::Interest => (10, None, None),
        DemoStep::Fee(a) => (11, None, Some(a@)),
        DemoStep::Tax(a) => (12, None, Some(a@)),
    }
}

pub type StepView = (int, Option<Instrument>, Option<(int, int)>);

pub open spec fn views(v: Seq<DemoStep>) -> Seq<StepView> {
    v.map_values(|s: DemoStep| step_view(s))
}

/// The month's deposit, and in the first month the portfolio brought in and the first dollars.
pub open spec fn opening_plan(month: int) -> Seq<StepView> {
    if month == 0 {
        seq![
            (0, None, Some(amt(6000, 0))),
            (1, Some(Instrument::CoreWorld), Some(amt(60, 0))),
            (2, None, Some(amt(1500, 0))),
        ]
    } else {
        seq![(0, None, Some(amt(1150, 0)))]
    }
}

/// The savings plan into the world index and bonds, every month.
pub open spec fn savings_plan() -> Seq<StepView> {
    seq![(3, Some(Instrument::AllWorld), Some(amt(450, 0))), (3, Some(Instrument::Bonds), Some(amt(200, 0)))]
}

/// Every third month, dollars bought when they are about to be spent, and spent on a US share.
pub open spec fn dollar_plan(month: int) -> Seq<StepView> {
    if month % 3 == 1 {
        seq![
            (2, None, Some(amt(1150, 0))),
            (4, Some(if month % 6 == 1 { Instrument::Apple } else { Instrument::Microsoft }), Some(amt(1200, 0))),
        ]
    } else {
        seq![]
    }
}

/// The one-off trades: a sale is a rotation, not a pile of idle dollars.
pub open spec fn trade_plan(month: int) -> Seq<StepView> {
    if month == 4 {
        seq![(2, None, Some(amt(1300, 0))), (4, Some(Instrument::Netflix), Some(amt(1300, 0)))]
    } else if month == 6 {
        seq![(3, Some(Instrument::Bitcoin), Some(amt(800, 0)))]
    } else if month == 20 {
        seq![(3, Some(Instrument::Bitcoin), Some(amt(600, 0)))]
    } else if month == 26 {
        seq![(5, Some(Instrument::Netflix), None), (4, Some(Instrument::Microsoft), Some(amt(3200, 0)))]
    } else if month == 30 {
        seq![(5, Some(Instrument::Apple), Some(amt(4, 1))), (4, Some(Instrument::Microsoft), Some(amt(3600, 0)))]
    } else {
        seq![]
    }
}

/// Cash moved to and from savings, and the one withdrawal.
pub open spec fn cash_plan(month: int) -> Seq<StepView> {
    if month == 2 {
        seq![(6, None, Some(amt(3000, 0)))]
    } else if month == 22 {
        seq![(7, None, Some(amt(1200, 0)))]
    } else if month == 33 {
        seq![(8, None, Some(amt(1500, 0)))]
    } else {
        seq![]
    }
}

/// Dividends and interest every month; the custody fee in December, last year's tax in March.
pub open spec fn closing_plan(calendar: int) -> Seq<StepView> {
    seq![(9, None, None), (10, None, None)] + (if calendar == 12 {
        seq![(11, None, Some(amt(2490, 2)))]
    } else {
        seq![]
    }) + (if calendar == 3 {
        seq![(12, None, Some(amt(6140, 2)))]
    } else {
        seq![]
    })
}

/// The month's steps, in order, for the `month`-th month of the ledger (counted from zero),
/// whose calendar month is `calendar` (January being 1).
pub open spec fn month_plan(month: int, calendar: int) -> Seq<StepView> {
    opening_plan(month) + savings_plan() + dollar_plan(month) + trade_plan(month) + cash_plan(month)
        + closing_plan(calendar)
}

/// What the schedule allows of a step that sells: the Netflix position closed in month 26, and
/// 40% of the Apple position in month 30, nothing else.
pub open spec fn sale_as_planned(month: int, e: StepView) -> bool {
    e.0 == 5 ==> (month == 26 && e == (5int, Some(Instrument::Netflix), None::<(int, int)>)) || (month == 30 && e
        == (5int, Some(Instrument::Apple), Some(amt(4, 1))))
}

proof fn lemma_sales_concat(month: int, a: Seq<StepView>, b: Seq<StepView>)
    requires
        forall|k: int| 0 <= k < a.len() ==> sale_as_planned(month, #[trigger] a[k]),
        forall|k: int| 0 <= k < b.len() ==> sale_as_planned(month, #[trigger] b[k]),
    ensures
        forall|k: int| 0 <= k < (a + b).len() ==> sale_as_planned(month, #[trigger] (a + b)[k]),
{
    assert forall|k: int| 0 <= k < (a + b).len() implies sale_as_planned(month, #[trigger] (a + b)[k]) by {
        if k < a.len() {
            assert((a + b)[k] == a[k]);
        } else {
            assert((a + b)[k] == b[k - a.len()]);
        }
    }
}

/// The demo ledger sells twice in three years, as a rotation: in month 26 the whole Netflix
/// position, in month 30 a share of 0.4 of the Apple position (a trim, not a close: Apple keeps
/// paying dividends afterwards). No other month sells, and no sale of Apple is of the whole
/// position: every share it names lies strictly between nothing and all.
pub proof fn law_the_ledger_sells_as_planned(month: int, calendar: int)
    ensures
        forall|k: int|
            0 <= k < month_plan(month, calendar).len() ==> sale_as_planned(month, #[trigger] month_plan(month, calendar)[k]),
        forall|k: int|
            0 <= k < month_plan(month, calendar).len() && (#[trigger] month_plan(month, calendar)[k]).0 == 5
                && month_plan(month, calendar)[k].1 == Some(Instrument::Apple) ==> (month_plan(month, calendar)[k].2 matches Some(x)
                && 0 < x.0 && x.0 < pow10(x.1 as nat)),
        month == 30 ==> month_plan(month, calendar).contains((5int, Some(Instrument::Apple), Some(amt(4, 1)))),
        month == 26 ==> month_plan(month, calendar).contains((5int, Some(Instrument::Netflix), None::<(int, int)>)),
{
    let o = opening_plan(month);
    let sv = savings_plan();
    let d = dollar_plan(month);
    let t = trade_plan(month);
    let c = cash_plan(month);
    let cl = closing_plan(calendar);
    assert(forall|k: int| 0 <= k < o.len() ==> sale_as_planned(month, #[trigger] o[k]));
    assert(forall|k: int| 0 <= k < sv.len() ==> sale_as_planned(month, #[trigger] sv[k]));
    assert(forall|k: int| 0 <= k < d.len() ==> sale_as_planned(month, #[trigger] d[k]));
    assert(forall|k: int| 0 <= k < t.len() ==> sale_as_planned(month, #[trigger] t[k]));
    assert(forall|k: int| 0 <= k < c.len() ==> sale_as_planned(month, #[trigger] c[k]));
    assert forall|k: int| 0 <= k < cl.len() implies sale_as_planned(month, #[trigger] cl[k]) by {
        let head: Seq<StepView> = seq![(9, None, None), (10, None, None)];
        let fee: Seq<StepView> = if calendar == 12 { seq![(11, None, Some(amt(2490, 2)))] } else { seq![] };
        let tax: Seq<StepView> = if calendar == 3 { seq![(12, None, Some(amt(6140, 2)))] } else { seq![] };
        assert(cl == head + fee + tax);
        if k < head.len() {
            assert(cl[k] == head[k]);
        } else if k < head.len() + fee.len() {
            assert(cl[k] == fee[k - head.len()]);
        } else {
            assert(cl[k] == tax[k - head.len() - fee.len()]);
        }
    }
    lemma_sales_concat(month, o, sv);
    lemma_sales_concat(month, o + sv, d);
    lemma_sales_concat(month, o + sv + d, t);
    lemma_sales_concat(month, o + sv + d + t, c);
    lemma_sales_concat(month, o + sv + d + t + c, cl);
    let plan = month_plan(month, calendar);
    assert(plan == o + sv + d + t + c + cl);
    assert forall|k: int|
        0 <= k < plan.len() && (#[trigger] plan[k]).0 == 5 && plan[k].1 == Some(Instrument::Apple) implies (plan[k].2 matches Some(
            x,
        ) && 0 < x.0 && x.0 < pow10(x.1 as nat)) by {
        assert(sale_as_planned(month, plan[k]));
        assert(pow10(1) == 10) by {
            reveal_with_fuel(pow10, 2);
        }
    }
    if month == 30 || month == 26 {
        assert(o.len() == 1);
        assert(sv.len() == 2);
        assert(d.len() == 0);
        assert(plan[3] == t[0]);
    }
}

fn whole(n: i64) -> (a: Amount)
    requires
        0 <= n <= 1_000_000,
    ensures
        a@ == (n as int, 0int),
{
    Amount::new(n, 0)
}

fn opening(month: u32) -> (v: Vec<DemoStep>)
    ensures
        views(v@) == opening_plan(month as int),
{
    let v = if month == 0 {
        vec![
            DemoStep::Deposit(whole(6000)),
            DemoStep::BringIn(Instrument::CoreWorld, whole(60)),
            DemoStep::Exchange(whole(1500)),
        ]
    } else {
        vec![DemoStep::Deposit(whole(1150))]
    };
    assert(views(v@) =~= opening_plan(month as int));
    v
}

fn savings() -> (v: Vec<DemoStep>)
    ensures
        views(v@) == savings_plan(),
{
    let v = vec![DemoStep::BuyEur(Instrument::AllWorld, whole(450)), DemoStep::BuyEur(Instrument::Bonds, whole(200))];
    assert(views(v@) =~= savings_plan());
    v
}

fn dollars(month: u32) -> (v: Vec<DemoStep>)
    ensures
        views(v@) == dollar_plan(month as int),
{
    let v = if month % 3 == 1 {
        let us = if month % 6 == 1 { Instrument::Apple } else { Instrument::Microsoft };
        vec![DemoStep::Exchange(whole(1150)), DemoStep::BuyUsd(us, whole(1200))]
    } else {
        Vec::new()
    };
    assert(views(v@) =~= dollar_plan(month as int));
    v
}

fn trades(month: u32) -> (v: Vec<DemoStep>)
    ensures
        views(v@) == trade_plan(month as int),
{
    let v = if month == 4 {
        vec![DemoStep::Exchange(whole(1300)), DemoStep::BuyUsd(Instrument::Netflix, whole(1300))]
    } else if month == 6 {
        vec![DemoStep::BuyEur(Instrument::Bitcoin, whole(800))]
    } else if month == 20 {
        vec![DemoStep::BuyEur(Instrument::Bitcoin, whole(600))]
    } else if month == 26 {
        vec![DemoStep::SellUsd(Instrument::Netflix, None), DemoStep::BuyUsd(Instrument::Microsoft, whole(3200))]
    } else if month == 30 {
        vec![
            DemoStep::SellUsd(Instrument::Apple, Some(Amount::new(4, 1))),
            DemoStep::BuyUsd(Instrument::Microsoft, whole(3600)),
        ]
    } else {
        Vec::new()
    };
    assert(views(v@) =~= trade_plan(month as int));
    v
}

fn cash(month: u32) -> (v: Vec<DemoStep>)
    ensures
        views(v@) == cash_plan(month as int),
{
    let v = if month == 2 {
        vec![DemoStep::ToSavings(whole(3000))]
    } else if month == 22 {
        vec![DemoStep::FromSavings(whole(1200))]
    } else if month == 33 {
        vec![DemoStep::Withdrawal(whole(1500))]
    } else {
        Vec::new()
    };
    assert(views(v@) =~= cash_plan(month as int));
    v
}

fn closing(calendar: u32) -> (v: Vec<DemoStep>)
    ensures
        views(v@) == closing_plan(calendar as int),
{
    let mut v = vec![DemoStep::Dividends, DemoStep::Interest];
    if calendar == 12 {
        v.push(DemoStep::Fee(Amount::new(2490, 2)));
    }
    if calendar == 3 {
        v.push(DemoStep::Tax(Amount::new(6140, 2)));
    }
    assert(views(v@) =~= closing_plan(calendar as int));
    v
}

fn append_steps(v: &mut Vec<DemoStep>, more: Vec<DemoStep>)
    ensures
        views(final(v)@) == views(old(v)@) + views(more@),
{
    let mut more = more;
    let ghost taken = more@;
    v.append(&mut more);
    assert(views(v@) =~= views(old(v)@) + views(taken));
}

/// The steps of the `month`-th month of the ledger (counted from zero), whose calendar month is
/// `calendar`: a deposit every month and a savings plan into the world index and bonds; dollars
/// bought every third month and spent on a US share; one-off trades in the months a real ledger
/// would have them; then the month's dividends and interest, and the fee and tax of their
/// months.
pub fn month_steps(month: u32, calendar: u32) -> (v: Vec<DemoStep>)
    ensures
        views(v@) == month_plan(month as int, calendar as int),
{
    let mut v = opening(month);
    append_steps(&mut v, savings());
    append_steps(&mut v, dollars(month));
    append_steps(&mut v, trades(month));
    append_steps(&mut v, cash(month));
    append_steps(&mut v, closing(calendar));
    v
}

/// Which dividend a month pays, by its place in the quarter: Apple's in the second month,
/// Microsoft's in the third, the bond fund's in the first. The US ones are per share in dollars,
/// the bond fund's a yield on the position.
#[derive(Debug, Clone, Copy)]
pub enum DividendStep {
    /// Per share, in dollars, taxed at source at 15%.
    PerShareUsd(Instrument, Amount),
    /// A yield on the position's quantity, in euros.
    YieldEur(Instrument, Amount),
}

pub fn dividend_step(calendar: u32) -> (d: DividendStep)
    ensures
        calendar % 3 == 2 ==> (d matches DividendStep::PerShareUsd(i, a) && i == Instrument::Apple && a@ == (25int, 2int)),
        calendar % 3 == 0 ==> (d matches DividendStep::PerShareUsd(i, a) && i == Instrument::Microsoft && a@ == (83int, 2int)),
        calendar % 3 == 1 ==> (d matches DividendStep::YieldEur(i, a) && i == Instrument::Bonds && a@ == (32int, 3int)),
{
    let quarter = calendar % 3;
    if quarter == 2 {
        DividendStep::PerShareUsd(Instrument::Apple, Amount::new(25, 2))
    } else if quarter == 0 {
        DividendStep::PerShareUsd(Instrument::Microsoft, Amount::new(83, 2))
    } else {
        DividendStep::YieldEur(Instrument::Bonds, Amount::new(32, 3))
    }
}

/// The product of two figures rounded to the cent, as the ledger books an amount; nothing where
/// the product overflows.
pub open spec fn cents_of_product(a: (int, int), b: (int, int)) -> Option<(int, int, bool)> {
    match decimal_product(a.0, a.1, b.0, b.1) {
        Some(p) => Some((rounded_to(p.0, p.1, 2).0, rounded_to(p.0, p.1, 2).1, rounded_sign(p.0, p.1, 2, p.2))),
        None => None,
    }
}

fn cents_of(a: &Amount, b: &Amount) -> (r: Option<Amount>)
    ensures
        match r {
            Some(x) => cents_of_product(a@, b@) == Some(figure_of(x)),
            None => cents_of_product(a@, b@) is None,
        },
        exact_product(a@, b@) matches Some(p) ==> (r matches Some(x) && x@ == rounded_to(p.0, p.1, 2)
            && x.sign_negative() == (x@.0 < 0)),
{
    match a.times(b) {
        Some(p) => {
            proof {
                lemma_rounded_keeps_sign(p@.0, p@.1, 2);
            }
            Some(p.round_dp(2))
        },
        None => None,
    }
}

/// A dividend on a holding of `held` units at `rate` a unit (so much per share, or a yield on
/// the quantity), to the cent. `None` where the product overflows, where the ledger's `*` panics.
pub fn dividend_amount(held: &Amount, rate: &Amount) -> (r: Option<Amount>)
    ensures
        match r {
            Some(x) => cents_of_product(held@, rate@) == Some(figure_of(x)),
            None => cents_of_product(held@, rate@) is None,
        },
        exact_product(held@, rate@) matches Some(p) ==> (r matches Some(x) && x@ == rounded_to(p.0, p.1, 2)
            && x.sign_negative() == (x@.0 < 0)),
{
    cents_of(held, rate)
}

/// The tax withheld at source on a US dividend: 15% of it, to the cent.
pub fn withholding(dividend: &Amount) -> (r: Option<Amount>)
    ensures
        match r {
            Some(x) => cents_of_product(dividend@, (15int, 2int)) == Some(figure_of(x)),
            None => cents_of_product(dividend@, (15int, 2int)) is None,
        },
        exact_product(dividend@, (15int, 2int)) matches Some(p) ==> (r matches Some(x) && x@ == rounded_to(p.0, p.1, 2)
            && x.sign_negative() == (x@.0 < 0)),
{
    cents_of(dividend, &Amount::new(15, 2))
}

/// A month's interest on the savings account: 0.215% of the balance, to the cent.
pub fn interest(savings: &Amount) -> (r: Option<Amount>)
    ensures
        match r {
            Some(x) => cents_of_product(savings@, (215int, 5int)) == Some(figure_of(x)),
            None => cents_of_product(savings@, (215int, 5int)) is None,
        },
        exact_product(savings@, (215int, 5int)) matches Some(p) ==> (r matches Some(x) && x@ == rounded_to(p.0, p.1, 2)
            && x.sign_negative() == (x@.0 < 0)),
{
    cents_of(savings, &Amount::new(215, 5))
}

/// What a sale takes of a position: `share` of what is held with the fraction dropped, or all
/// of it when no share is named. `None` where the product overflows.
pub fn sold_quantity(held: &Amount, share: Option<Amount>) -> (r: Option<Amount>)
    ensures
        match share {
            None => r == Some(*held),
            Some(part) => match decimal_product(held@.0, held@.1, part@.0, part@.1) {
                Some(p) => r matches Some(x) && x@ == truncated(p.0, p.1) && x.sign_negative() == p.2,
                None => r is None,
            },
        },
        match share {
            Some(part) => exact_product(held@, part@) matches Some(p) ==> (r matches Some(x) && x@ == truncated(
                p.0,
                p.1,
            ) && x.sign_negative() == (p.0 < 0)),
            None => true,
        },
{
    match share {
        None => Some(*held),
        Some(part) => match held.times(&part) {
            Some(p) => Some(p.trunc()),
            None => None,
        },
    }
}

/// The dollars an exchange of `eur` euros books, at `rate` (euros a dollar): the euros over the
/// rate, to the cent. `None` for a zero rate or an overflowing quotient.
pub fn exchanged(eur: &Amount, rate: &Amount) -> (r: Option<Amount>)
    ensures
        match decimal_quotient(eur@.0, eur@.1, rate@.0, rate@.1) {
            Some(q) => r matches Some(x) && x@ == rounded_to(q.0, q.1, 2) && x.sign_negative() == rounded_sign(
                q.0,
                q.1,
                2,
                q.2,
            ),
            None => r is None,
        },
{
    match eur.divided_by(rate) {
        Some(q) => Some(q.round_dp(2)),
        None => None,
    }
}

} // verus!
