//! The issuer-brand classifier: first-match evaluation of an ordered set
//! of numeric prefix rules.

use vstd::prelude::*;

use crate::digits::all_digits;
use crate::digits::digit_val;
use crate::digits::digits_of;
use crate::digits::extract_digits;

verus! {

/// The issuer brand of a card number, one value from a fixed closed set.
#[derive(Clone, Copy, Debug, PartialEq, Eq, Structural)]
pub enum Brand {
    Visa,
    AmericanExpress,
    Mastercard,
    Jcb,
    DinersClub,
    Discover,
    Voyager,
    Hipercard,
    Aura,
    Elo,
    Unknown,
}

/// The sequence `p` is a prefix of the sequence `s`.
pub open spec fn has_prefix(s: Seq<char>, p: Seq<char>) -> bool {
    p.len() <= s.len() && forall|i: int| 0 <= i < p.len() ==> s[i] == p[i]
}

/// The decimal value of a digit sequence, most significant digit first.
pub open spec fn seq_num(s: Seq<char>) -> int
    decreases s.len(),
{
    if s.len() == 0 {
        0
    } else {
        10 * seq_num(s.drop_last()) + digit_val(s.last())
    }
}

/// Ten to the given power.
pub open spec fn pow10(n: nat) -> int
    decreases n,
{
    if n == 0 {
        1
    } else {
        10 * pow10((n - 1) as nat)
    }
}

/// The value of an all-digit sequence is non-negative and below ten to
/// the power of its length.
pub proof fn lemma_seq_num_bounds(s: Seq<char>)
    requires
        all_digits(s),
    ensures
        0 <= seq_num(s) < pow10(s.len()),
    decreases s.len(),
{
    if s.len() > 0 {
        assert(all_digits(s.drop_last()));
        lemma_seq_num_bounds(s.drop_last());
    }
}

/// The sequence starts with one of "300" through "305", "36", "38" or
/// "39" (the Diners Club rule).
pub open spec fn diners_prefix(s: Seq<char>) -> bool {
    ||| has_prefix(s, "300"@)
    ||| has_prefix(s, "301"@)
    ||| has_prefix(s, "302"@)
    ||| has_prefix(s, "303"@)
    ||| has_prefix(s, "304"@)
    ||| has_prefix(s, "305"@)
    ||| has_prefix(s, "36"@)
    ||| has_prefix(s, "38"@)
    ||| has_prefix(s, "39"@)
}

/// The sequence starts with one of the ten fixed six-digit Elo prefixes.
pub open spec fn elo_prefix(s: Seq<char>) -> bool {
    ||| has_prefix(s, "401178"@)
    ||| has_prefix(s, "401179"@)
    ||| has_prefix(s, "431274"@)
    ||| has_prefix(s, "438935"@)
    ||| has_prefix(s, "457631"@)
    ||| has_prefix(s, "457632"@)
    ||| has_prefix(s, "504175"@)
    ||| has_prefix(s, "627780"@)
    ||| has_prefix(s, "636297"@)
    ||| has_prefix(s, "636368"@)
}

/// The brand of a digit sequence: the rules below are evaluated in order
/// and the first match wins. A numeric-range rule that needs more digits
/// than are present simply does not match.
pub open spec fn brand_of(s: Seq<char>) -> Brand {
    if s.len() == 0 {
        Brand::Unknown
    } else if has_prefix(s, "4"@) {
        Brand::Visa
    } else if has_prefix(s, "34"@) || has_prefix(s, "37"@) {
        Brand::AmericanExpress
    } else if s.len() >= 2 && 51 <= seq_num(s.subrange(0, 2)) <= 55 {
        Brand::Mastercard
    } else if s.len() >= 4 && 2221 <= seq_num(s.subrange(0, 4)) <= 2720 {
        Brand::Mastercard
    } else if s.len() >= 4 && 3528 <= seq_num(s.subrange(0, 4)) <= 3589 {
        Brand::Jcb
    } else if diners_prefix(s) {
        Brand::DinersClub
    } else if has_prefix(s, "6011"@) || has_prefix(s, "65"@) {
        Brand::Discover
    } else if s.len() >= 3 && 644 <= seq_num(s.subrange(0, 3)) <= 649 {
        Brand::Discover
    } else if s.len() >= 6 && 622126 <= seq_num(s.subrange(0, 6)) <= 622925 {
        Brand::Discover
    } else if has_prefix(s, "8699"@) {
        Brand::Voyager
    } else if has_prefix(s, "6062"@) {
        Brand::Hipercard
    } else if has_prefix(s, "50"@) {
        Brand::Aura
    } else if elo_prefix(s) {
        Brand::Elo
    } else {
        Brand::Unknown
    }
}

/// Every digit sequence, the empty one included, maps to one label from
/// the fixed closed set of brands: the classifier is a total function of
/// the digit sequence alone, defined without any requirement on its
/// input.
pub proof fn lemma_brand_total(s: Seq<char>)
    ensures
        brand_of(s) matches Brand::Visa || brand_of(s) matches Brand::AmericanExpress
            || brand_of(s) matches Brand::Mastercard || brand_of(s) matches Brand::Jcb
            || brand_of(s) matches Brand::DinersClub || brand_of(s) matches Brand::Discover
            || brand_of(s) matches Brand::Voyager || brand_of(s) matches Brand::Hipercard
            || brand_of(s) matches Brand::Aura || brand_of(s) matches Brand::Elo || brand_of(s)
            matches Brand::Unknown,
{
}

/// First-match priority: a digit sequence that starts with "4111" is
/// classified as Visa, even though rules listed later (such as the Elo
/// prefixes "401178" and "401179") share the leading digit.
pub proof fn lemma_visa_priority(s: Seq<char>)
    requires
        has_prefix(s, "4111"@),
    ensures
        brand_of(s) == Brand::Visa,
{
    reveal_strlit("4111");
    reveal_strlit("4");
    assert(s[0] == '4');
    assert(has_prefix(s, "4"@));
}

impl Brand {
    /// The display name of the brand.
    pub open spec fn label_spec(self) -> Seq<char> {
        match self {
            Brand::Visa => "Visa"@,
            Brand::AmericanExpress => "American Express"@,
            Brand::Mastercard => "Mastercard"@,
            Brand::Jcb => "JCB"@,
            Brand::DinersClub => "Diners Club"@,
            Brand::Discover => "Discover"@,
            Brand::Voyager => "Voyager"@,
            Brand::Hipercard => "Hipercard"@,
            Brand::Aura => "Aura"@,
            Brand::Elo => "Elo"@,
            Brand::Unknown => "Desconhecida"@,
        }
    }

    /// Returns the display name of the brand.
    pub fn label(self) -> (r: &'static str)
        ensures
            r@ == self.label_spec(),
    {
        match self {
            Brand::Visa => "Visa",
            Brand::AmericanExpress => "American Express",
            Brand::Mastercard => "Mastercard",
            Brand::Jcb => "JCB",
            Brand::DinersClub => "Diners Club",
            Brand::Discover => "Discover",
            Brand::Voyager => "Voyager",
            Brand::Hipercard => "Hipercard",
            Brand::Aura => "Aura",
            Brand::Elo => "Elo",
            Brand::Unknown => "Desconhecida",
        }
    }
}

/// Tests whether the string `p` is a character-for-character prefix of
/// the string `s`.
fn str_has_prefix(s: &str, p: &str) -> (r: bool)
    ensures
        r == has_prefix(s@, p@),
{
    let sn = s.unicode_len();
    let pn = p.unicode_len();
    if pn > sn {
        return false;
    }
    let mut i: usize = 0;
    while i < pn
        invariant
            0 <= i <= pn,
            pn == p@.len(),
            sn == s@.len(),
            pn <= sn,
            forall|j: int| 0 <= j < i ==> s@[j] == p@[j],
        decreases pn - i,
    {
        if s.get_char(i) != p.get_char(i) {
            return false;
        }
        i += 1;
    }
    true
}

/// Reads the decimal value of the first `k` digits of an all-digit
/// string.
fn prefix_value(s: &str, k: usize) -> (r: u32)
    requires
        all_digits(s@),
        k <= s@.len(),
        k <= 9,
    ensures
        r == seq_num(s@.subrange(0, k as int)),
{
    let mut i: usize = 0;
    let mut acc: u32 = 0;
    while i < k
        invariant
            0 <= i <= k,
            k <= s@.len(),
            k <= 9,
            all_digits(s@),
            acc == seq_num(s@.subrange(0, i as int)),
        decreases k - i,
    {
        let c = s.get_char(i);
        let d = (c as u32) - 48;
        proof {
            let ext = s@.subrange(0, i + 1);
            assert(ext.drop_last() =~= s@.subrange(0, i as int));
            assert(ext.last() == s@[i as int]);
            assert(all_digits(s@.subrange(0, i as int)));
            lemma_seq_num_bounds(s@.subrange(0, i as int));
            reveal_with_fuel(pow10, 10);
            assert(pow10(i as nat) <= pow10(8)) by {
                lemma_pow10_increases(i as nat, 8);
            }
        }
        acc = acc * 10 + d;
        i += 1;
    }
    acc
}

/// Ten to a smaller power is no larger than ten to a larger one.
proof fn lemma_pow10_increases(a: nat, b: nat)
    requires
        a <= b,
    ensures
        pow10(a) <= pow10(b),
    decreases b,
{
    if a < b {
        lemma_pow10_increases(a, (b - 1) as nat);
        lemma_pow10_pos((b - 1) as nat);
    }
}

/// Ten to any power is positive.
proof fn lemma_pow10_pos(n: nat)
    ensures
        pow10(n) >= 1,
    decreases n,
{
    if n > 0 {
        lemma_pow10_pos((n - 1) as nat);
    }
}

/// Classifies a string that is already all digits.
pub fn detect_brand_digits(s: &str) -> (r: Brand)
    requires
        all_digits(s@),
    ensures
        r == brand_of(s@),
{
    let n = s.unicode_len();
    if n == 0 {
        return Brand::Unknown;
    }
    if str_has_prefix(s, "4") {
        return Brand::Visa;
    }
    if str_has_prefix(s, "34") || str_has_prefix(s, "37") {
        return Brand::AmericanExpress;
    }
    if n >= 2 {
        let two = prefix_value(s, 2);
        if 51 <= two && two <= 55 {
            return Brand::Mastercard;
        }
    }
    if n >= 4 {
        let four = prefix_value(s, 4);
        if 2221 <= four && four <= 2720 {
            return Brand::Mastercard;
        }
        if 3528 <= four && four <= 3589 {
            return Brand::Jcb;
        }
    }
    if str_has_prefix(s, "300") || str_has_prefix(s, "301") || str_has_prefix(s, "302")
        || str_has_prefix(s, "303") || str_has_prefix(s, "304") || str_has_prefix(s, "305")
        || str_has_prefix(s, "36") || str_has_prefix(s, "38") || str_has_prefix(s, "39") {
        return Brand::DinersClub;
    }
    if str_has_prefix(s, "6011") || str_has_prefix(s, "65") {
        return Brand::Discover;
    }
    if n >= 3 {
        let three = prefix_value(s, 3);
        if 644 <= three && three <= 649 {
            return Brand::Discover;
        }
    }
    if n >= 6 {
        let six = prefix_value(s, 6);
        if 622126 <= six && six <= 622925 {
            return Brand::Discover;
        }
    }
    if str_has_prefix(s, "8699") {
        return Brand::Voyager;
    }
    if str_has_prefix(s, "6062") {
        return Brand::Hipercard;
    }
    if str_has_prefix(s, "50") {
        return Brand::Aura;
    }
    if str_has_prefix(s, "401178") || str_has_prefix(s, "401179") || str_has_prefix(s, "431274")
        || str_has_prefix(s, "438935") || str_has_prefix(s, "457631") || str_has_prefix(
        s,
        "457632",
    ) || str_has_prefix(s, "504175") || str_has_prefix(s, "627780") || str_has_prefix(s, "636297")
        || str_has_prefix(s, "636368") {
        return Brand::Elo;
    }
    Brand::Unknown
}

/// Classifies a payment-card number given as free-form text: the decimal
/// digits are extracted first and the prefix rules are evaluated on them
/// in their fixed priority order.
pub fn detect_brand(number: &str) -> (r: Brand)
    ensures
        r == brand_of(digits_of(number@)),
{
    let d = extract_digits(number);
    detect_brand_digits(d.as_str())
}

} // verus!
