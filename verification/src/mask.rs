//! The masker: a display form that reveals only the first and last four
//! digits of a number.

use vstd::prelude::*;

use crate::digits::all_digits;
use crate::digits::digits_of;
use crate::digits::extract_digits;
use crate::digits::push_char;

verus! {

/// The masking glyph drawn in place of each hidden digit.
pub open spec fn mask_glyph() -> char {
    '\u{2022}'
}

/// A run of masking glyphs, one per hidden digit.
pub open spec fn glyph_run(n: nat) -> Seq<char> {
    Seq::new(n, |i: int| mask_glyph())
}

/// The masked display form of a digit sequence: a sequence of eight or
/// fewer digits is shown unchanged; a longer one is shown as its first
/// four digits, one masking glyph per hidden interior digit, and its last
/// four digits, the three parts joined by single spaces.
pub open spec fn mask_spec(s: Seq<char>) -> Seq<char> {
    if s.len() <= 8 {
        s
    } else {
        s.subrange(0, 4) + " "@ + glyph_run((s.len() - 8) as nat) + " "@ + s.subrange(
            s.len() - 4,
            s.len() as int,
        )
    }
}

/// The masked form of a sequence longer than eight hides exactly the
/// interior digits: it keeps the first four and the last four, and puts
/// one masking glyph per hidden digit between them, so its length is the
/// original length plus the two joining spaces.
pub proof fn lemma_mask_structure(s: Seq<char>)
    requires
        s.len() > 8,
    ensures
        mask_spec(s).len() == s.len() + 2,
        mask_spec(s).subrange(0, 4) == s.subrange(0, 4),
        mask_spec(s).subrange(mask_spec(s).len() - 4, mask_spec(s).len() as int) == s.subrange(
            s.len() - 4,
            s.len() as int,
        ),
        mask_spec(s).subrange(5, s.len() - 3) == glyph_run((s.len() - 8) as nat),
        mask_spec(s)[4] == ' ',
        mask_spec(s)[s.len() - 3] == ' ',
{
    reveal_strlit(" ");
    assert(mask_spec(s).subrange(0, 4) =~= s.subrange(0, 4));
    assert(mask_spec(s).subrange(mask_spec(s).len() - 4, mask_spec(s).len() as int) =~= s.subrange(
        s.len() - 4,
        s.len() as int,
    ));
    assert(mask_spec(s).subrange(5, s.len() - 3) =~= glyph_run((s.len() - 8) as nat));
}

/// Masks a string that is already all digits.
pub fn mask_digits(s: &str) -> (r: String)
    requires
        all_digits(s@),
    ensures
        r@ == mask_spec(s@),
{
    let n = s.unicode_len();
    if n <= 8 {
        return s.to_owned();
    }
    proof {
        reveal_strlit(" ");
    }
    let mut out = String::new();
    let mut i: usize = 0;
    while i < 4
        invariant
            0 <= i <= 4,
            n == s@.len(),
            n > 8,
            out@ == s@.subrange(0, i as int),
        decreases 4 - i,
    {
        let c = s.get_char(i);
        proof {
            assert(s@.subrange(0, i as int).push(s@[i as int]) =~= s@.subrange(0, i + 1));
        }
        push_char(&mut out, c);
        i += 1;
    }
    push_char(&mut out, ' ');
    proof {
        assert(out@ =~= s@.subrange(0, 4) + " "@);
    }
    let mut j: usize = 0;
    while j < n - 8
        invariant
            0 <= j <= n - 8,
            n == s@.len(),
            n > 8,
            out@ == s@.subrange(0, 4) + " "@ + glyph_run(j as nat),
        decreases n - 8 - j,
    {
        push_char(&mut out, '\u{2022}');
        j += 1;
        proof {
            assert(out@ =~= s@.subrange(0, 4) + " "@ + glyph_run(j as nat));
        }
    }
    push_char(&mut out, ' ');
    proof {
        assert(out@ =~= s@.subrange(0, 4) + " "@ + glyph_run((n - 8) as nat) + " "@);
    }
    let mut k: usize = n - 4;
    while k < n
        invariant
            n - 4 <= k <= n,
            n == s@.len(),
            n > 8,
            out@ == s@.subrange(0, 4) + " "@ + glyph_run((n - 8) as nat) + " "@ + s@.subrange(
                n - 4,
                k as int,
            ),
        decreases n - k,
    {
        let c = s.get_char(k);
        push_char(&mut out, c);
        k += 1;
        proof {
            assert(out@ =~= s@.subrange(0, 4) + " "@ + glyph_run((n - 8) as nat) + " "@
                + s@.subrange(n - 4, k as int));
        }
    }
    proof {
        assert(out@ =~= mask_spec(s@));
    }
    out
}

/// Produces the masked display form of a payment-card number given as
/// free-form text: the decimal digits are extracted first, then a
/// sequence of eight or fewer digits is returned unchanged, and a longer
/// one keeps only its first and last four digits visible.
pub fn mask_number(number: &str) -> (r: String)
    ensures
        r@ == mask_spec(digits_of(number@)),
{
    let d = extract_digits(number);
    mask_digits(d.as_str())
}

} // verus!
