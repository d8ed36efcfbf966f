use sq_app::amount::Amount;
use sq_app::demo::{dividend_amount, exchanged, interest, sold_quantity, withholding};
use sq_app::demo::{dividend_step, month_steps, DemoStep, DividendStep, Instrument};

fn kinds(steps: &[DemoStep]) -> Vec<&'static str> {
    steps
        .iter()
        .map(|s| match s {
            DemoStep::Deposit(_) => "deposit",
            DemoStep::BringIn(..) => "bring-in",
            DemoStep::Exchange(_) => "exchange",
            DemoStep::BuyEur(..) => "buy-eur",
            DemoStep::BuyUsd(..) => "buy-usd",
            DemoStep::SellUsd(..) => "sell-usd",
            DemoStep::ToSavings(_) => "to-savings",
            DemoStep::FromSavings(_) => "from-savings",
            DemoStep::Withdrawal(_) => "withdrawal",
            DemoStep::Dividends => "dividends",
            DemoStep::Interest => "interest",
            DemoStep::Fee(_) => "fee",
            DemoStep::Tax(_) => "tax",
        })
        .collect()
}

#[test]
fn the_first_month_brings_a_portfolio_in() {
    let steps = month_steps(0, 9);
    assert_eq!(
        kinds(&steps),
        vec!["deposit", "bring-in", "exchange", "buy-eur", "buy-eur", "dividends", "interest"]
    );
    match steps[0] {
        DemoStep::Deposit(a) => assert_eq!((a.mantissa(), a.scale()), (6000, 0)),
        _ => panic!(),
    }
}

#[test]
fn a_sale_is_a_rotation_and_december_carries_the_fee() {
    let steps = month_steps(26, 12);
    assert_eq!(
        kinds(&steps),
        vec!["deposit", "buy-eur", "buy-eur", "sell-usd", "buy-usd", "dividends", "interest", "fee"]
    );
    assert!(matches!(steps[3], DemoStep::SellUsd(Instrument::Netflix, None)));
    match steps[7] {
        DemoStep::Fee(a) => assert_eq!((a.mantissa(), a.scale()), (2490, 2)),
        _ => panic!(),
    }
}

#[test]
fn dollars_are_bought_every_third_month() {
    let steps = month_steps(1, 3);
    assert_eq!(
        kinds(&steps),
        vec!["deposit", "buy-eur", "buy-eur", "exchange", "buy-usd", "dividends", "interest", "tax"]
    );
    assert!(matches!(steps[4], DemoStep::BuyUsd(Instrument::Apple, _)));
    assert!(matches!(month_steps(4, 5)[4], DemoStep::BuyUsd(Instrument::Microsoft, _)));
}

#[test]
fn each_month_of_a_quarter_pays_another_dividend() {
    assert!(matches!(dividend_step(2), DividendStep::PerShareUsd(Instrument::Apple, _)));
    assert!(matches!(dividend_step(3), DividendStep::PerShareUsd(Instrument::Microsoft, _)));
    assert!(matches!(dividend_step(4), DividendStep::YieldEur(Instrument::Bonds, _)));
}

fn text(a: Option<Amount>) -> String {
    a.unwrap().to_text()
}

/// The ledger's amounts, to the cent: 0.215% interest, dividends on the held quantity with 15%
/// withheld, the bond fund's 3.2%, and a partial sale that drops the fraction of a share.
#[test]
fn the_ledger_books_amounts_to_the_cent() {
    assert_eq!(text(interest(&Amount::new(1000000, 2))), "21.50");
    // 2345.67 * 0.00215 = 5.0431905 -> 5.04
    assert_eq!(text(interest(&Amount::new(234567, 2))), "5.04");
    // banker's rounding: 0.125 goes to the even cent, 0.135 too
    assert_eq!(text(dividend_amount(&Amount::new(1, 0), &Amount::new(125, 3))), "0.12");
    assert_eq!(text(dividend_amount(&Amount::new(1, 0), &Amount::new(135, 3))), "0.14");
    assert_eq!(text(dividend_amount(&Amount::new(7, 0), &Amount::new(83, 2))), "5.81");
    assert_eq!(text(withholding(&Amount::new(581, 2))), "0.87");
    assert_eq!(text(dividend_amount(&Amount::new(1234, 1), &Amount::new(32, 3))), "3.95");
    assert_eq!(text(sold_quantity(&Amount::new(13, 0), Some(Amount::new(5, 1)))), "6");
    assert_eq!(text(sold_quantity(&Amount::new(13, 0), None)), "13");
    assert_eq!(text(dividend_amount(&Amount::new(0, 0), &Amount::new(83, 2))), "0");
}

/// A position's weight is its value over the total, and zero when there is no total.
#[test]
fn a_weight_is_a_share_of_the_total() {
    assert_eq!(text(Amount::new(250, 0).share_of(&Amount::new(1000, 0))), "0.25");
    assert_eq!(text(Amount::new(250, 0).share_of(&Amount::new(0, 2))), "0");
}

/// 500 euros at 0.9213 euros a dollar: 542.71 dollars.
#[test]
fn an_exchange_books_dollars_to_the_cent() {
    assert_eq!(text(exchanged(&Amount::new(500, 0), &Amount::new(9213, 4))), "542.71");
    assert!(exchanged(&Amount::new(500, 0), &Amount::new(0, 4)).is_none());
}
