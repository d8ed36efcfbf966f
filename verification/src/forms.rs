//! What the frontend's forms send, read: texts that must be there, figures that may carry a
//! decimal comma, ratios and steps that must be positive, and dates in the one format used
//! across the wire. Each refusal says which field and what was wrong with it.

use vstd::prelude::*;
use crate::amount::{decimal_parse, figure_of, Amount};
use crate::dates::{calendar_text_day, Date};
use crate::error::UiError;
use crate::text::{chars_of, concat, debug_quoted, debug_text, sentence, string_of, trim, trimmed};

verus! {

pub open spec fn missing_message(what: Seq<char>) -> Seq<char> {
    "missing: "@ + what
}

/// A text that must be there, trimmed.
pub fn require_text(value: &str, what: &str) -> (r: Result<String, UiError>)
    ensures
        match r {
            Ok(t) => trimmed(value@).len() > 0 && t@ == trimmed(value@),
            Err(e) => trimmed(value@).len() == 0 && e is Invalid && e.message_of() == missing_message(what@),
        },
{
    let t = trim(value);
    if t.unicode_len() == 0 {
        return Err(UiError::invalid(concat("missing: ", what)));
    }
    Ok(t)
}

/// An optional text, trimmed; one that is only white space is no text at all.
pub fn blank_to_none(value: Option<String>) -> (r: Option<String>)
    ensures
        match value {
            Some(v) => if trimmed(v@).len() > 0 {
                r is Some && r->0@ == trimmed(v@)
            } else {
                r is None
            },
            None => r is None,
        },
{
    match value {
        Some(v) => {
            let t = trim(v.as_str());
            if t.unicode_len() == 0 {
                None
            } else {
                Some(t)
            }
        },
        None => None,
    }
}

/// The text with every decimal comma read as a point.
pub open spec fn dot_for_comma(s: Seq<char>) -> Seq<char> {
    s.map_values(|c: char| if c == ',' { '.' } else { c })
}

fn commas_to_dots(s: &str) -> (r: String)
    ensures
        r@ == dot_for_comma(s@),
{
    let chars = chars_of(s);
    let mut out: Vec<char> = Vec::new();
    let mut i: usize = 0;
    while i < chars.len()
        invariant
            chars@ == s@,
            i <= chars@.len(),
            out@ == dot_for_comma(s@.subrange(0, i as int)),
        decreases chars.len() - i,
    {
        let c = chars[i];
        out.push(if c == ',' { '.' } else { c });
        i = i + 1;
        assert(out@ =~= dot_for_comma(s@.subrange(0, i as int)));
    }
    assert(s@.subrange(0, chars@.len() as int) =~= s@);
    string_of(&out)
}

pub open spec fn bad_value_message(what: Seq<char>, raw: Seq<char>, e: Seq<char>) -> Seq<char> {
    "invalid value in field \""@ + what + "\": "@ + debug_quoted(raw) + " ("@ + e + ")"@
}

/// A figure a form sent: `None` when the field is empty, the figure when it reads as one (a
/// decimal comma is taken for a point), and an error naming the field otherwise.
pub fn decimal(value: Option<&str>, what: &str) -> (r: Result<Option<Amount>, UiError>)
    ensures
        match value {
            None => r is Ok && r->Ok_0 is None,
            Some(v) => {
                let raw = trimmed(v@);
                if raw.len() == 0 {
                    r is Ok && r->Ok_0 is None
                } else {
                    match decimal_parse(dot_for_comma(raw)) {
                        Ok(x) => r is Ok && r->Ok_0 is Some && figure_of(r->Ok_0->0) == x,
                        Err(e) => r is Err && r->Err_0 is Invalid && r->Err_0.message_of()
                            == bad_value_message(what@, raw, e),
                    }
                }
            },
        },
{
    let v = match value {
        Some(v) => v,
        None => return Ok(None),
    };
    let raw = trim(v);
    if raw.unicode_len() == 0 {
        return Ok(None);
    }
    let normalized = commas_to_dots(raw.as_str());
    match Amount::parse(normalized.as_str()) {
        Ok(a) => Ok(Some(a)),
        Err(e) => {
            let quoted = debug_text(raw.as_str());
            let m = sentence(&["invalid value in field \"", what, "\": ", quoted.as_str(), " (", e.as_str(), ")"]);
            proof {
                reveal_with_fuel(crate::text::concat_all, 8);
            }
            Err(UiError::invalid(m))
        },
    }
}

pub open spec fn required_message(what: Seq<char>) -> Seq<char> {
    what + " is required"@
}

/// A figure a form must send: an empty one is missing, not zero.
pub fn amount(value: &str, what: &str) -> (r: Result<Amount, UiError>)
    ensures
        ({
            let raw = trimmed(value@);
            if raw.len() == 0 {
                r is Err && r->Err_0 is Invalid && r->Err_0.message_of() == required_message(what@)
            } else {
                match decimal_parse(dot_for_comma(raw)) {
                    Ok(x) => r is Ok && figure_of(r->Ok_0) == x,
                    Err(e) => r is Err && r->Err_0 is Invalid && r->Err_0.message_of() == bad_value_message(
                        what@,
                        raw,
                        e,
                    ),
                }
            }
        }),
{
    match decimal(Some(value), what) {
        Ok(Some(a)) => Ok(a),
        Ok(None) => Err(UiError::invalid(concat(what, " is required"))),
        Err(e) => Err(e),
    }
}

pub open spec fn bad_ratio_message(field: Seq<char>, raw: Seq<char>, e: Seq<char>) -> Seq<char> {
    "invalid "@ + field + " "@ + debug_quoted(raw) + ": "@ + e
}

pub open spec fn not_positive_message(field: Seq<char>) -> Seq<char> {
    field + " must be greater than zero"@
}

/// A ratio of a corporate action: a figure greater than zero.
pub fn parse_ratio(value: &str, field: &str) -> (r: Result<Amount, UiError>)
    ensures
        ({
            let raw = trimmed(value@);
            match decimal_parse(raw) {
                Ok(x) => if x.0 > 0 {
                    r is Ok && figure_of(r->Ok_0) == x
                } else {
                    r is Err && r->Err_0 is Invalid && r->Err_0.message_of() == not_positive_message(field@)
                },
                Err(e) => r is Err && r->Err_0 is Invalid && r->Err_0.message_of() == bad_ratio_message(
                    field@,
                    raw,
                    e,
                ),
            }
        }),
{
    let raw = trim(value);
    match Amount::parse(raw.as_str()) {
        Ok(a) => if a.is_positive() {
            Ok(a)
        } else {
            Err(UiError::invalid(concat(field, " must be greater than zero")))
        },
        Err(e) => {
            let quoted = debug_text(raw.as_str());
            let m = sentence(&["invalid ", field, " ", quoted.as_str(), ": ", e.as_str()]);
            proof {
                reveal_with_fuel(crate::text::concat_all, 7);
            }
            Err(UiError::invalid(m))
        },
    }
}

pub open spec fn bad_step_message(raw: Seq<char>, e: Seq<char>) -> Seq<char> {
    "invalid quantity step "@ + debug_quoted(raw) + ": "@ + e
}

pub open spec fn step_not_positive_message() -> Seq<char> {
    "the quantity step must be greater than zero"@
}

/// The smallest quantity an instrument trades in, when the form gives one.
pub fn parse_step(value: Option<&str>) -> (r: Result<Option<Amount>, UiError>)
    ensures
        match value {
            None => r is Ok && r->Ok_0 is None,
            Some(v) => {
                let raw = trimmed(v@);
                if raw.len() == 0 {
                    r is Ok && r->Ok_0 is None
                } else {
                    match decimal_parse(raw) {
                        Ok(x) => if x.0 > 0 {
                            r is Ok && r->Ok_0 is Some && figure_of(r->Ok_0->0) == x
                        } else {
                            r is Err && r->Err_0 is Invalid && r->Err_0.message_of() == step_not_positive_message()
                        },
                        Err(e) => r is Err && r->Err_0 is Invalid && r->Err_0.message_of() == bad_step_message(raw, e),
                    }
                }
            },
        },
{
    let v = match value {
        Some(v) => v,
        None => return Ok(None),
    };
    let raw = trim(v);
    if raw.unicode_len() == 0 {
        return Ok(None);
    }
    match Amount::parse(raw.as_str()) {
        Ok(a) => if a.is_positive() {
            Ok(Some(a))
        } else {
            Err(UiError::invalid(crate::text::owned("the quantity step must be greater than zero")))
        },
        Err(e) => {
            let quoted = debug_text(raw.as_str());
            let m = sentence(&["invalid quantity step ", quoted.as_str(), ": ", e.as_str()]);
            proof {
                reveal_with_fuel(crate::text::concat_all, 5);
            }
            Err(UiError::invalid(m))
        },
    }
}

pub open spec fn bad_date_message(value: Seq<char>, e: Seq<char>) -> Seq<char> {
    "invalid date "@ + debug_quoted(value) + ": "@ + e
}

/// A date in the one format used across the wire, `YYYY-MM-DD`.
pub fn parse_date(value: &str) -> (r: Result<Date, UiError>)
    ensures
        match calendar_text_day(value@) {
            Ok(n) => r is Ok && r->Ok_0@ == n,
            Err(e) => r is Err && r->Err_0 is Invalid && r->Err_0.message_of() == bad_date_message(value@, e),
        },
{
    match Date::parse(value) {
        Ok(d) => Ok(d),
        Err(e) => {
            let quoted = debug_text(value);
            let m = sentence(&["invalid date ", quoted.as_str(), ": ", e.as_str()]);
            proof {
                reveal_with_fuel(crate::text::concat_all, 5);
            }
            Err(UiError::invalid(m))
        },
    }
}

/// The window immediately before `[from, to]`, of the same length: what "versus the previous
/// window" means on the reports screen. The window must not reach past the calendar's start.
pub fn previous_window(from: Date, to: Date) -> (w: (Date, Date))
    requires
        crate::dates::in_calendar(from@ - (to@ - from@ + 1)),
        crate::dates::in_calendar(from@ - 1),
    ensures
        w.1@ == from@ - 1,
        w.0@ == from@ - 1 - (to@ - from@ + 1) + 1,
        w.1@ - w.0@ == to@ - from@,
{
    let span = to.days_since(&from) + 1;
    let previous_to = from.minus_days(1);
    let first = previous_to.minus_days((span - 1) as i32);
    (first, previous_to)
}

} // verus!
