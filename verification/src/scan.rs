//! Scanning glue: the candidate-line filter and the composed result line
//! printed for each evaluated number.

use vstd::prelude::*;

use crate::brand::brand_of;
use crate::brand::detect_brand_digits;
use crate::digits::digits_of;
use crate::digits::extract_digits;
use crate::luhn::luhn_check_digits;
use crate::luhn::luhn_valid;
use crate::mask::mask_digits;
use crate::mask::mask_spec;

verus! {

/// A line of text is a validation candidate exactly when it contains
/// between twelve and nineteen digit characters.
pub open spec fn likely_card_line(s: Seq<char>) -> bool {
    12 <= digits_of(s).len() <= 19
}

/// The textual form of a validation verdict.
pub open spec fn verdict_label(b: bool) -> Seq<char> {
    if b {
        "true"@
    } else {
        "false"@
    }
}

/// The result line shown for a digit sequence: its masked form, the
/// issuer brand and the Luhn verdict, with fixed field labels.
pub open spec fn result_line_spec(digits: Seq<char>) -> Seq<char> {
    mask_spec(digits) + " | Bandeira: "@ + brand_of(digits).label_spec() + " | V\u{e1}lido: "@
        + verdict_label(luhn_valid(digits))
}

/// Decides whether a line of text is a candidate for validation: it is
/// one exactly when it holds between twelve and nineteen digit
/// characters. This is a heuristic filter, not a guarantee that the line
/// holds a real card number.
pub fn is_likely_card_line(line: &str) -> (r: bool)
    ensures
        r == likely_card_line(line@),
{
    let d = extract_digits(line);
    let n = d.as_str().unicode_len();
    12 <= n && n <= 19
}

/// Composes the result line for a payment-card number given as free-form
/// text: the masked form of its digits, the issuer brand and the Luhn
/// verdict, joined with fixed field labels.
pub fn format_result(number: &str) -> (r: String)
    ensures
        r@ == result_line_spec(digits_of(number@)),
{
    let digits = extract_digits(number);
    let mut out = mask_digits(digits.as_str());
    out.append(" | Bandeira: ");
    out.append(detect_brand_digits(digits.as_str()).label());
    out.append(" | V\u{e1}lido: ");
    if luhn_check_digits(digits.as_str()) {
        out.append("true");
    } else {
        out.append("false");
    }
    out
}

/// Evaluates one line of scanned text: a candidate line yields its result
/// line, any other line yields nothing.
pub fn scan_line(line: &str) -> (r: Option<String>)
    ensures
        r is Some <==> likely_card_line(line@),
        r is Some ==> (r->0)@ == result_line_spec(digits_of(line@)),
{
    if is_likely_card_line(line) {
        Some(format_result(line))
    } else {
        None
    }
}

} // verus!
