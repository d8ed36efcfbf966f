//! Money and other exact figures, as `rust_decimal` represents them: an integer mantissa of at
//! most 96 bits and a scale of at most 28 decimal places. The library holds the two numbers and
//! asks `rust_decimal` to read and write the text, to multiply, divide, round and truncate.

use vstd::prelude::*;
use crate::text::digits;

verus! {

/// The largest mantissa `rust_decimal` represents: 2^96 - 1.
pub open spec fn max_mantissa() -> int {
    0xFFFF_FFFF_FFFF_FFFF_FFFF_FFFFint
}

/// The largest scale `rust_decimal` represents.
pub open spec fn max_scale() -> int {
    28
}

pub open spec fn representable(mantissa: int, scale: int) -> bool {
    &&& -max_mantissa() <= mantissa <= max_mantissa()
    &&& 0 <= scale <= max_scale()
}

/// A sign flag that agrees with the mantissa: a figure other than zero is negative exactly when
/// its mantissa is; a zero may carry either sign, as `rust_decimal` keeps it.
pub open spec fn sign_fits(mantissa: int, negative: bool) -> bool {
    mantissa != 0 ==> negative == (mantissa < 0)
}

/// An exact figure: `mantissa / 10^scale`, with `rust_decimal`'s sign flag, which tells a zero
/// written `-0` from a plain one.
#[derive(Debug, Clone, Copy)]
pub struct Amount {
    mantissa: i128,
    scale: u32,
    negative: bool,
}

impl Amount {
    #[verifier::type_invariant]
    spec fn within_range(self) -> bool {
        representable(self.mantissa as int, self.scale as int) && sign_fits(self.mantissa as int, self.negative)
    }

    /// The mantissa and the scale.
    pub closed spec fn view(self) -> (int, int) {
        (self.mantissa as int, self.scale as int)
    }

    /// The sign flag: set for a negative figure, and for a zero `rust_decimal` keeps as `-0`.
    pub closed spec fn sign_negative(self) -> bool {
        self.negative
    }

    /// `mantissa / 10^scale`, as `rust_decimal::Decimal::new` builds it.
    pub fn new(mantissa: i64, scale: u32) -> (a: Amount)
        requires
            scale <= 28,
        ensures
            a.view() == (mantissa as int, scale as int),
            a.sign_negative() == (mantissa < 0),
    {
        Amount { mantissa: mantissa as i128, scale, negative: mantissa < 0 }
    }

    pub fn mantissa(&self) -> (m: i128)
        ensures
            m == self.view().0,
            representable(self.view().0, self.view().1),
    {
        proof {
            use_type_invariant(self);
        }
        self.mantissa
    }

    pub fn scale(&self) -> (s: u32)
        ensures
            s == self.view().1,
    {
        self.scale
    }

    /// Whether the figure is above zero; its sign is its mantissa's.
    pub fn is_positive(&self) -> (r: bool)
        ensures
            r == (self.view().0 > 0),
    {
        self.mantissa > 0
    }

    /// The sign flag.
    pub fn is_sign_negative(&self) -> (r: bool)
        ensures
            r == self.sign_negative(),
            sign_fits(self.view().0, r),
    {
        proof {
            use_type_invariant(self);
        }
        self.negative
    }
}

/// `n` zeros.
pub open spec fn zeros(n: nat) -> Seq<char> {
    Seq::new(n, |_i: int| '0')
}

/// The decimal digits of `n`, with zeros in front to make at least `width` of them.
pub open spec fn padded_digits(n: nat, width: nat) -> Seq<char> {
    let d = digits(n);
    if d.len() < width { zeros((width - d.len()) as nat) + d } else { d }
}

/// The text `rust_decimal` writes for `mantissa / 10^scale` (its `Display`, with no precision
/// asked for): a minus sign when the figure is negative, the whole part (`0` when there is
/// none), and, when the scale is not zero, a point and exactly `scale` fraction digits,
/// trailing zeros kept.
pub open spec fn decimal_text(mantissa: int, scale: int) -> Seq<char> {
    let sign = if mantissa < 0 { seq!['-'] } else { Seq::<char>::empty() };
    let p = padded_digits((if mantissa < 0 { -mantissa } else { mantissa }) as nat, scale as nat);
    if scale <= 0 {
        sign + p
    } else {
        let whole = p.subrange(0, p.len() - scale);
        sign + (if whole.len() == 0 { seq!['0'] } else { whole }) + seq!['.'] + p.subrange(
            p.len() - scale,
            p.len() as int,
        )
    }
}

/// A figure as `rust_decimal` holds it: mantissa, scale and sign flag.
pub open spec fn figure_of(a: Amount) -> (int, int, bool) {
    (a.view().0, a.view().1, a.sign_negative())
}

/// What `rust_decimal` writes for a figure with this sign flag: a zero flagged negative as `-`
/// and the zero's text, any other figure as above.
pub open spec fn figure_text(mantissa: int, scale: int, negative: bool) -> Seq<char> {
    if mantissa == 0 && negative {
        seq!['-'] + decimal_text(0, scale)
    } else {
        decimal_text(mantissa, scale)
    }
}

/// What `rust_decimal` reads a text as (its `FromStr`): the mantissa, the scale and the sign
/// flag, or the sentence its error displays.
pub uninterp spec fn decimal_parse(text: Seq<char>) -> Result<(int, int, bool), Seq<char>>;

/// A character of a written figure: a digit, the decimal point or the minus sign.
pub open spec fn is_figure_char(c: char) -> bool {
    ('0' <= c <= '9') || c == '.' || c == '-'
}

/// The digits of a number are digit characters.
proof fn lemma_digits_are_figures(n: nat)
    ensures
        forall|i: int| 0 <= i < digits(n).len() ==> '0' <= #[trigger] digits(n)[i] <= '9',
    decreases n,
{
    if n >= 10 {
        lemma_digits_are_figures(n / 10);
        let d = digits(n);
        assert forall|i: int| 0 <= i < d.len() implies '0' <= #[trigger] d[i] <= '9' by {
            if i < digits(n / 10).len() {
                assert(d[i] == digits(n / 10)[i]);
            }
        }
    }
}

/// A written figure holds digits, at most one point and at most one minus sign, nothing else.
pub proof fn lemma_decimal_text_chars(mantissa: int, scale: int)
    ensures
        forall|i: int| 0 <= i < decimal_text(mantissa, scale).len() ==> is_figure_char(
            #[trigger] decimal_text(mantissa, scale)[i],
        ),
{
    let m = (if mantissa < 0 { -mantissa } else { mantissa }) as nat;
    lemma_digits_are_figures(m);
    let p = padded_digits(m, scale as nat);
    assert forall|i: int| 0 <= i < p.len() implies '0' <= #[trigger] p[i] <= '9' by {
        let d = digits(m);
        if d.len() < scale {
            let z = zeros((scale - d.len()) as nat);
            if i >= z.len() {
                assert(p[i] == d[i - z.len()]);
            }
        }
    }
    let t = decimal_text(mantissa, scale);
    let sign = if mantissa < 0 { seq!['-'] } else { Seq::<char>::empty() };
    if scale <= 0 {
        assert forall|i: int| 0 <= i < t.len() implies is_figure_char(#[trigger] t[i]) by {
            if i >= sign.len() {
                assert(t[i] == p[i - sign.len()]);
            }
        }
    } else {
        let whole = p.subrange(0, p.len() - scale);
        let w = if whole.len() == 0 { seq!['0'] } else { whole };
        let frac = p.subrange(p.len() - scale, p.len() as int);
        assert forall|i: int| 0 <= i < t.len() implies is_figure_char(#[trigger] t[i]) by {
            if i < sign.len() {
            } else if i < sign.len() + w.len() {
                assert(t[i] == w[i - sign.len()]);
                if whole.len() > 0 {
                    assert(w[i - sign.len()] == p[i - sign.len()]);
                }
            } else if i == sign.len() + w.len() {
            } else {
                assert(t[i] == frac[i - sign.len() - w.len() - 1]);
                assert(frac[i - sign.len() - w.len() - 1] == p[p.len() - scale + i - sign.len() - w.len() - 1]);
            }
        }
    }
}

/// A written figure with its sign flag holds the same characters.
pub proof fn lemma_figure_text_chars(mantissa: int, scale: int, negative: bool)
    ensures
        forall|i: int| 0 <= i < figure_text(mantissa, scale, negative).len() ==> is_figure_char(
            #[trigger] figure_text(mantissa, scale, negative)[i],
        ),
{
    lemma_decimal_text_chars(mantissa, scale);
    lemma_decimal_text_chars(0, scale);
    if mantissa == 0 && negative {
        let t = figure_text(mantissa, scale, negative);
        assert forall|i: int| 0 <= i < t.len() implies is_figure_char(#[trigger] t[i]) by {
            if i > 0 {
                assert(t[i] == decimal_text(0, scale)[i - 1]);
            }
        }
    }
}

/// The figure (`Decimal::from_i128_with_scale(mantissa, scale)` with its sign flag set as given)
/// `.to_string()`: `rust_decimal`'s `to_str_internal` collects the mantissa's digits, pads them
/// with zeros up to the scale and puts the point `scale` digits from the end (a `0` before it
/// when nothing is left), and `pad_integral` puts a minus sign in front of a figure whose sign
/// flag is set, a zero too.
#[verifier::external_body]
fn display_decimal(mantissa: i128, scale: u32, negative: bool) -> (s: String)
    requires
        representable(mantissa as int, scale as int),
        sign_fits(mantissa as int, negative),
    ensures
        s@ == figure_text(mantissa as int, scale as int, negative),
{
    let mut d = rust_decimal::Decimal::from_i128_with_scale(mantissa, scale);
    d.set_sign_negative(negative);
    d.to_string()
}

/// `Decimal::from_str`, taken apart into its mantissa and scale, or its error's text. A value
/// that `rust_decimal` holds is within its range, as every `Decimal` is; which texts it accepts
/// is not stated here.
#[verifier::external_body]
fn parse_decimal(text: &str) -> (r: Result<(i128, u32, bool), String>)
    ensures
        match r {
            Ok((m, s, n)) => decimal_parse(text@) == Ok::<(int, int, bool), Seq<char>>((m as int, s as int, n))
                && representable(m as int, s as int) && sign_fits(m as int, n),
            Err(e) => decimal_parse(text@) == Err::<(int, int, bool), Seq<char>>(e@),
        },
{
    match <rust_decimal::Decimal as std::str::FromStr>::from_str(text) {
        Ok(d) => Ok((d.mantissa(), d.scale(), d.is_sign_negative())),
        Err(e) => Err(e.to_string()),
    }
}

impl Amount {
    /// The figure as `rust_decimal` writes it.
    pub fn to_text(&self) -> (s: String)
        ensures
            s@ == figure_text(self.view().0, self.view().1, self.sign_negative()),
            forall|i: int| 0 <= i < s@.len() ==> is_figure_char(#[trigger] s@[i]),
    {
        proof {
            use_type_invariant(self);
            lemma_figure_text_chars(self.view().0, self.view().1, self.sign_negative());
        }
        display_decimal(self.mantissa, self.scale, self.negative)
    }

    /// A figure read from text, or the reason it is not one.
    pub fn parse(text: &str) -> (r: Result<Amount, String>)
        ensures
            match r {
                Ok(a) => decimal_parse(text@) == Ok::<(int, int, bool), Seq<char>>(
                    (a.view().0, a.view().1, a.sign_negative()),
                ),
                Err(e) => decimal_parse(text@) == Err::<(int, int, bool), Seq<char>>(e@),
            },
    {
        match parse_decimal(text) {
            Ok((m, s, n)) => Ok(Amount { mantissa: m, scale: s, negative: n }),
            Err(e) => Err(e),
        }
    }
}

/// Ten to the `k`.
pub open spec fn pow10(k: nat) -> int
    decreases k,
{
    if k == 0 { 1 } else { 10 * pow10((k - 1) as nat) }
}

/// What `rust_decimal`'s checked product of two figures comes to, as mantissa and scale, or
/// nothing when it overflows.
pub uninterp spec fn decimal_product(ma: int, sa: int, mb: int, sb: int) -> Option<(int, int, bool)>;

/// `Decimal::checked_mul` of the two figures, taken apart. Its source (`ops::mul::mul_impl`): a
/// product with a zero is zero at scale zero; a product whose mantissa fits in 96 bits and whose
/// scale is at most 28 is exact, the scales added; anything else is rounded back into range or,
/// failing that, refused, and is only named here.
#[verifier::external_body]
fn checked_product(ma: i128, sa: u32, mb: i128, sb: u32) -> (r: Option<(i128, u32, bool)>)
    requires
        representable(ma as int, sa as int),
        representable(mb as int, sb as int),
    ensures
        match r {
            Some((m, s, n)) => decimal_product(ma as int, sa as int, mb as int, sb as int) == Some(
                (m as int, s as int, n),
            ) && representable(m as int, s as int) && sign_fits(m as int, n),
            None => decimal_product(ma as int, sa as int, mb as int, sb as int) is None,
        },
        ma == 0 || mb == 0 ==> r == Some((0i128, 0u32, false)),
        ma != 0 && mb != 0 && representable(ma * mb, sa + sb) ==> r == Some(
            ((ma * mb) as i128, (sa + sb) as u32, ma * mb < 0),
        ),
{
    let a = rust_decimal::Decimal::from_i128_with_scale(ma, sa);
    let b = rust_decimal::Decimal::from_i128_with_scale(mb, sb);
    a.checked_mul(b).map(|p| (p.mantissa(), p.scale(), p.is_sign_negative()))
}

/// A figure rounded to `dp` decimal places the way `Decimal::round_dp` does it, banker's
/// rounding: a figure with no more places is left as it is; otherwise the dropped part is
/// rounded away from zero when it is more than half a unit, and to the even neighbour when it is
/// exactly half.
pub open spec fn rounded_to(m: int, s: int, dp: int) -> (int, int) {
    if s <= dp {
        (m, s)
    } else {
        let p = pow10((s - dp) as nat);
        let a = if m < 0 { -m } else { m };
        let q = a / p;
        let r = a % p;
        let up = 2 * r > p || (2 * r == p && q % 2 == 1);
        let q2 = if up { q + 1 } else { q };
        (if m < 0 { -q2 } else { q2 }, dp)
    }
}

/// A figure with its fractional part dropped, as `Decimal::trunc` does: towards zero, scale zero.
pub open spec fn truncated(m: int, s: int) -> (int, int) {
    let a = if m < 0 { -m } else { m };
    let q = a / pow10(s as nat);
    (if m < 0 { -q } else { q }, 0)
}

proof fn lemma_pow10_positive(k: nat)
    ensures
        pow10(k) >= 1,
    decreases k,
{
    if k > 0 {
        lemma_pow10_positive((k - 1) as nat);
    }
}

/// Rounding or truncating never turns a figure's sign: what is left of it is zero or has the
/// sign it had.
pub proof fn lemma_rounded_keeps_sign(m: int, s: int, dp: int)
    ensures
        rounded_to(m, s, dp).0 != 0 ==> m != 0 && (rounded_to(m, s, dp).0 < 0) == (m < 0),
        truncated(m, s).0 != 0 ==> m != 0 && (truncated(m, s).0 < 0) == (m < 0),
{
    if s > dp {
        lemma_pow10_positive((s - dp) as nat);
        let p = pow10((s - dp) as nat);
        let a = if m < 0 { -m } else { m };
        assert(a / p >= 0 && a % p == a - p * (a / p) && (a == 0 ==> a / p == 0 && a % p == 0)) by (nonlinear_arith)
            requires
                p >= 1,
                a >= 0,
        ;
    }
    lemma_pow10_positive(s as nat);
    let a = if m < 0 { -m } else { m };
    let p = pow10(s as nat);
    assert(a / p >= 0 && (a == 0 ==> a / p == 0)) by (nonlinear_arith)
        requires
            p >= 1,
            a >= 0,
    ;
}

/// Rounding or truncating never makes a figure larger, nor a scale larger than it was.
proof fn lemma_rounded_in_range(m: int, s: int, dp: int)
    requires
        representable(m, s),
        0 <= dp,
    ensures
        representable(rounded_to(m, s, dp).0, rounded_to(m, s, dp).1),
        representable(truncated(m, s).0, truncated(m, s).1),
{
    if s > dp {
        let k = (s - dp) as nat;
        lemma_pow10_positive(k);
        assert(pow10(k) >= 10) by {
            assert(pow10(k) == 10 * pow10((k - 1) as nat));
            lemma_pow10_positive((k - 1) as nat);
        }
        let p = pow10(k);
        let a = if m < 0 { -m } else { m };
        assert(a / p <= a / 10) by (nonlinear_arith)
            requires
                p >= 10,
                a >= 0,
        ;
        assert(a / 10 + 1 <= max_mantissa()) by (nonlinear_arith)
            requires
                a <= max_mantissa(),
                a >= 0,
                max_mantissa() == 0xFFFF_FFFF_FFFF_FFFF_FFFF_FFFFint,
        ;
    }
    lemma_pow10_positive(s as nat);
    let a = if m < 0 { -m } else { m };
    let p = pow10(s as nat);
    assert(a / p <= a) by (nonlinear_arith)
        requires
            p >= 1,
            a >= 0,
    ;
}

/// The sign flag of a rounded figure: `round_dp_with_strategy` returns a figure with no more
/// places, and a zero, as they are, sign and all; anything else it builds with `from_parts`,
/// which clears the sign of a zero. So a small negative figure rounds to a plain zero.
pub open spec fn rounded_sign(m: int, s: int, dp: int, negative: bool) -> bool {
    if m != 0 && rounded_to(m, s, dp).0 == 0 { false } else { negative }
}

/// `Decimal::round_dp(dp)` of the figure (with its sign flag), taken apart.
#[verifier::external_body]
fn round_places(m: i128, s: u32, negative: bool, dp: u32) -> (r: (i128, u32, bool))
    requires
        representable(m as int, s as int),
        sign_fits(m as int, negative),
    ensures
        (r.0 as int, r.1 as int) == rounded_to(m as int, s as int, dp as int),
        r.2 == rounded_sign(m as int, s as int, dp as int, negative),
{
    let mut d = rust_decimal::Decimal::from_i128_with_scale(m, s);
    d.set_sign_negative(negative);
    let d = d.round_dp(dp);
    (d.mantissa(), d.scale(), d.is_sign_negative())
}

/// `Decimal::trunc()` of the figure (with its sign flag), taken apart. The sign flag stays, a
/// zero's too: `trunc` sets the flags from the figure's own sign without clearing it, so a small
/// negative figure truncates to a zero flagged negative.
#[verifier::external_body]
fn truncate(m: i128, s: u32, negative: bool) -> (r: (i128, u32, bool))
    requires
        representable(m as int, s as int),
        sign_fits(m as int, negative),
    ensures
        (r.0 as int, r.1 as int) == truncated(m as int, s as int),
        r.2 == negative,
{
    let mut d = rust_decimal::Decimal::from_i128_with_scale(m, s);
    d.set_sign_negative(negative);
    let d = d.trunc();
    (d.mantissa(), d.scale(), d.is_sign_negative())
}

/// The exact product of two figures, where `rust_decimal` holds it as it is: zero at scale zero
/// when either is zero, else the mantissas multiplied and the scales added, when that fits.
pub open spec fn exact_product(a: (int, int), b: (int, int)) -> Option<(int, int)> {
    if a.0 == 0 || b.0 == 0 {
        Some((0, 0))
    } else if representable(a.0 * b.0, a.1 + b.1) {
        Some((a.0 * b.0, a.1 + b.1))
    } else {
        None
    }
}

impl Amount {
    /// The product of two figures, as `rust_decimal` multiplies them; `None` where it overflows
    /// (where `*` panics). Where the exact product fits, it is that.
    pub fn times(&self, other: &Amount) -> (r: Option<Amount>)
        ensures
            match r {
                Some(p) => decimal_product(self.view().0, self.view().1, other.view().0, other.view().1)
                    == Some((p.view().0, p.view().1, p.sign_negative())),
                None => decimal_product(self.view().0, self.view().1, other.view().0, other.view().1) is None,
            },
            exact_product(self.view(), other.view()) matches Some(e) ==> (r matches Some(p) && p.view() == e
                && p.sign_negative() == (e.0 < 0)),
    {
        proof {
            use_type_invariant(self);
            use_type_invariant(other);
        }
        match checked_product(self.mantissa, self.scale, other.mantissa, other.scale) {
            Some((m, s, n)) => Some(Amount { mantissa: m, scale: s, negative: n }),
            None => None,
        }
    }

    /// The figure rounded to `dp` decimal places, banker's rounding.
    pub fn round_dp(&self, dp: u32) -> (r: Amount)
        ensures
            r.view() == rounded_to(self.view().0, self.view().1, dp as int),
            r.sign_negative() == rounded_sign(self.view().0, self.view().1, dp as int, self.sign_negative()),
    {
        proof {
            use_type_invariant(self);
            lemma_rounded_in_range(self.view().0, self.view().1, dp as int);
        }
        let (m, s, n) = round_places(self.mantissa, self.scale, self.negative, dp);
        proof {
            lemma_rounded_keeps_sign(self.view().0, self.view().1, dp as int);
        }
        Amount { mantissa: m, scale: s, negative: n }
    }

    /// The figure with its fractional part dropped, towards zero.
    pub fn trunc(&self) -> (r: Amount)
        ensures
            r.view() == truncated(self.view().0, self.view().1),
            r.sign_negative() == self.sign_negative(),
    {
        proof {
            use_type_invariant(self);
            lemma_rounded_in_range(self.view().0, self.view().1, 0);
        }
        let (m, s, n) = truncate(self.mantissa, self.scale, self.negative);
        proof {
            lemma_rounded_keeps_sign(self.view().0, self.view().1, 0);
        }
        Amount { mantissa: m, scale: s, negative: n }
    }
}

/// What `rust_decimal`'s checked quotient of two figures comes to, as mantissa and scale, or
/// nothing when it overflows or the divisor is zero.
pub uninterp spec fn decimal_quotient(ma: int, sa: int, mb: int, sb: int) -> Option<(int, int, bool)>;

/// `Decimal::checked_div` of the two figures, taken apart. Its source (`ops::div::div_impl`):
/// nothing for a zero divisor, zero at scale zero for a zero dividend; any other quotient is
/// rounded to what 96 bits and 28 places hold, and only named here.
#[verifier::external_body]
fn checked_quotient(ma: i128, sa: u32, mb: i128, sb: u32) -> (r: Option<(i128, u32, bool)>)
    requires
        representable(ma as int, sa as int),
        representable(mb as int, sb as int),
    ensures
        match r {
            Some((m, s, n)) => decimal_quotient(ma as int, sa as int, mb as int, sb as int) == Some(
                (m as int, s as int, n),
            ) && representable(m as int, s as int) && sign_fits(m as int, n),
            None => decimal_quotient(ma as int, sa as int, mb as int, sb as int) is None,
        },
        mb == 0 ==> r is None,
        mb != 0 && ma == 0 ==> r == Some((0i128, 0u32, false)),
{
    let a = rust_decimal::Decimal::from_i128_with_scale(ma, sa);
    let b = rust_decimal::Decimal::from_i128_with_scale(mb, sb);
    a.checked_div(b).map(|q| (q.mantissa(), q.scale(), q.is_sign_negative()))
}

impl Amount {
    /// The quotient of two figures, as `rust_decimal` divides them; `None` for a zero divisor or
    /// where the quotient overflows (where `/` panics).
    pub fn divided_by(&self, divisor: &Amount) -> (r: Option<Amount>)
        ensures
            match r {
                Some(q) => decimal_quotient(self.view().0, self.view().1, divisor.view().0, divisor.view().1)
                    == Some((q.view().0, q.view().1, q.sign_negative())),
                None => decimal_quotient(self.view().0, self.view().1, divisor.view().0, divisor.view().1) is None,
            },
            divisor.view().0 == 0 ==> r is None,
            divisor.view().0 != 0 && self.view().0 == 0 ==> (r matches Some(q) && q.view() == (0int, 0int)
                && !q.sign_negative()),
    {
        proof {
            use_type_invariant(self);
            use_type_invariant(divisor);
        }
        match checked_quotient(self.mantissa, self.scale, divisor.mantissa, divisor.scale) {
            Some((m, s, n)) => Some(Amount { mantissa: m, scale: s, negative: n }),
            None => None,
        }
    }

    /// This figure's share of `total`: zero when the total is zero (nothing to be a share of),
    /// else the quotient as `rust_decimal` divides; `None` where that overflows (where `/`
    /// panics).
    pub fn share_of(&self, total: &Amount) -> (r: Option<Amount>)
        ensures
            total.view().0 == 0 ==> (r matches Some(w) && w.view() == (0int, 0int) && !w.sign_negative()),
            total.view().0 != 0 ==> match r {
                Some(w) => decimal_quotient(self.view().0, self.view().1, total.view().0, total.view().1)
                    == Some((w.view().0, w.view().1, w.sign_negative())),
                None => decimal_quotient(self.view().0, self.view().1, total.view().0, total.view().1) is None,
            },
            total.view().0 != 0 && self.view().0 == 0 ==> (r matches Some(w) && w.view() == (0int, 0int)
                && !w.sign_negative()),
    {
        proof {
            use_type_invariant(self);
            use_type_invariant(total);
        }
        if total.mantissa == 0 {
            return Some(Amount { mantissa: 0, scale: 0, negative: false });
        }
        self.divided_by(total)
    }
}

} // verus!
