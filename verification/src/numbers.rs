use vstd::prelude::*;
use rustc_apfloat::Float;

verus! {

// Runtime numbers are IEEE-754 double-precision values carried as their
// 64-bit pattern.  Classification, negation, comparison and equality are
// bit-level and verified here; parsing, the four arithmetic operations and
// digit formatting go through rustc_apfloat, a software implementation of
// IEEE-754 that works on the bit pattern alone, behind the trusted items
// below.

/// The bit pattern with the sign bit cleared.
pub open spec fn spec_abs_bits(bits: u64) -> u64 {
    bits & 0x7fff_ffff_ffff_ffff
}

/// Whether the sign bit is set.
pub open spec fn spec_sign_bit(bits: u64) -> bool {
    bits & 0x8000_0000_0000_0000 != 0
}

/// Whether the pattern encodes a NaN.
pub open spec fn spec_is_nan(bits: u64) -> bool {
    spec_abs_bits(bits) > 0x7ff0_0000_0000_0000
}

/// Whether the pattern encodes one of the two infinities.
pub open spec fn spec_is_infinite(bits: u64) -> bool {
    spec_abs_bits(bits) == 0x7ff0_0000_0000_0000
}

/// Whether the pattern encodes one of the two zeros.
pub open spec fn spec_is_zero(bits: u64) -> bool {
    spec_abs_bits(bits) == 0
}

/// For values that are not NaN, IEEE-754 ordering is the order of the
/// magnitude negated when the sign bit is set; the two zeros share the key 0.
pub open spec fn spec_order_key(bits: u64) -> int {
    if spec_sign_bit(bits) {
        -(spec_abs_bits(bits) as int)
    } else {
        spec_abs_bits(bits) as int
    }
}

/// IEEE-754 `<` on bit patterns: false whenever either side is NaN.
pub open spec fn spec_double_lt(a: u64, b: u64) -> bool {
    !spec_is_nan(a) && !spec_is_nan(b) && spec_order_key(a) < spec_order_key(b)
}

/// IEEE-754 `<=` on bit patterns: false whenever either side is NaN.
pub open spec fn spec_double_le(a: u64, b: u64) -> bool {
    !spec_is_nan(a) && !spec_is_nan(b) && spec_order_key(a) <= spec_order_key(b)
}

/// IEEE-754 `==` on bit patterns: the two zeros are equal, NaN equals
/// nothing, and every other value only equals its own pattern.
pub open spec fn spec_double_eq(a: u64, b: u64) -> bool {
    !spec_is_nan(a) && !spec_is_nan(b) && spec_order_key(a) == spec_order_key(b)
}

/// IEEE-754 negation flips the sign bit, NaN included.
pub open spec fn spec_double_neg(bits: u64) -> u64 {
    bits ^ 0x8000_0000_0000_0000
}

pub fn abs_bits(bits: u64) -> (r: u64)
    ensures
        r == spec_abs_bits(bits),
{
    bits & 0x7fff_ffff_ffff_ffff
}

pub fn is_nan(bits: u64) -> (r: bool)
    ensures
        r == spec_is_nan(bits),
{
    abs_bits(bits) > 0x7ff0_0000_0000_0000
}

pub fn is_infinite(bits: u64) -> (r: bool)
    ensures
        r == spec_is_infinite(bits),
{
    abs_bits(bits) == 0x7ff0_0000_0000_0000
}

pub fn is_zero(bits: u64) -> (r: bool)
    ensures
        r == spec_is_zero(bits),
{
    abs_bits(bits) == 0
}

pub fn sign_bit(bits: u64) -> (r: bool)
    ensures
        r == spec_sign_bit(bits),
{
    bits & 0x8000_0000_0000_0000 != 0
}

pub fn double_neg(bits: u64) -> (r: u64)
    ensures
        r == spec_double_neg(bits),
{
    bits ^ 0x8000_0000_0000_0000
}

pub fn double_lt(a: u64, b: u64) -> (r: bool)
    ensures
        r == spec_double_lt(a, b),
{
    if is_nan(a) || is_nan(b) {
        false
    } else {
        let sa = sign_bit(a);
        let sb = sign_bit(b);
        if sa != sb {
            sa && (abs_bits(a) != 0 || abs_bits(b) != 0)
        } else if sa {
            abs_bits(b) < abs_bits(a)
        } else {
            abs_bits(a) < abs_bits(b)
        }
    }
}

pub fn double_le(a: u64, b: u64) -> (r: bool)
    ensures
        r == spec_double_le(a, b),
{
    if is_nan(a) || is_nan(b) {
        false
    } else {
        !double_lt(b, a)
    }
}

pub fn double_eq(a: u64, b: u64) -> (r: bool)
    ensures
        r == spec_double_eq(a, b),
{
    if is_nan(a) || is_nan(b) {
        false
    } else {
        proof {
            assert((a & 0x7fff_ffff_ffff_ffff == b & 0x7fff_ffff_ffff_ffff && (a
                & 0x8000_0000_0000_0000 != 0) == (b & 0x8000_0000_0000_0000 != 0)) ==> a == b)
                by (bit_vector);
        }
        a == b || (is_zero(a) && is_zero(b))
    }
}

/// What rustc_apfloat's double parser returns for a text: the bit pattern of
/// the nearest double under round-to-nearest-even, or nothing where the text
/// is not a valid numeric form.
pub uninterp spec fn spec_parse_double(s: Seq<char>) -> Option<u64>;

/// What rustc_apfloat's digit formatter shows for a bit pattern at a given
/// number of significant digits.
pub uninterp spec fn spec_fmt_double(bits: u64, digits: u64) -> Seq<char>;

/// IEEE-754 addition (round to nearest even) on bit patterns.
pub uninterp spec fn spec_add_double(a: u64, b: u64) -> u64;

/// IEEE-754 subtraction (round to nearest even) on bit patterns.
pub uninterp spec fn spec_sub_double(a: u64, b: u64) -> u64;

/// IEEE-754 multiplication (round to nearest even) on bit patterns.
pub uninterp spec fn spec_mul_double(a: u64, b: u64) -> u64;

/// IEEE-754 division (round to nearest even) on bit patterns.
pub uninterp spec fn spec_div_double(a: u64, b: u64) -> u64;

/// A number lexeme: one or more digits, optionally followed by a point and
/// one or more digits.
pub open spec fn spec_is_digit(c: char) -> bool {
    '0' <= c && c <= '9'
}

pub open spec fn spec_all_digits(s: Seq<char>) -> bool {
    forall|i: int| 0 <= i < s.len() ==> spec_is_digit(#[trigger] s[i])
}

pub open spec fn spec_is_number_lexeme(s: Seq<char>) -> bool {
    ||| (s.len() > 0 && spec_all_digits(s))
    ||| (exists|k: int|
        0 < k < s.len() - 1 && s[k] == '.' && spec_all_digits(#[trigger] s.subrange(0, k))
            && spec_all_digits(s.subrange(k + 1, s.len() as int)))
}

/// Relies on rustc_apfloat::ieee::Double::from_str: it parses a decimal
/// text to the nearest double, deterministically, and accepts every text
/// made of digits with at most one interior point.
#[verifier::external_body]
pub(crate) fn parse_double(s: &str) -> (r: Option<u64>)
    ensures
        r == spec_parse_double(s@),
        spec_is_number_lexeme(s@) ==> r is Some,
{
    match s.parse::<rustc_apfloat::ieee::Double>() {
        Ok(d) => Some(d.to_bits() as u64),
        Err(_) => None,
    }
}

/// Relies on rustc_apfloat's Display for ieee::Double: deterministic digit
/// formatting of the value encoded by the bit pattern, where the format
/// precision bounds the significant digits shown and a large width keeps
/// ordinary values out of scientific notation.  The formatter's internal
/// buffer arithmetic overflows for astronomically large precisions, so the
/// digit count is kept within the canonical-text search bound.
#[verifier::external_body]
pub(crate) fn fmt_double(bits: u64, digits: u64) -> (r: String)
    requires
        digits <= 340,
    ensures
        r@ == spec_fmt_double(bits, digits),
{
    let d = rustc_apfloat::ieee::Double::from_bits(bits as u128);
    format!("{:340.1$}", d, digits as usize)
}

/// Relies on rustc_apfloat::ieee::Double's addition: IEEE-754, rounding to
/// nearest even, a deterministic function of the two bit patterns.
#[verifier::external_body]
pub(crate) fn add_double(a: u64, b: u64) -> (r: u64)
    ensures
        r == spec_add_double(a, b),
{
    let x = rustc_apfloat::ieee::Double::from_bits(a as u128);
    let y = rustc_apfloat::ieee::Double::from_bits(b as u128);
    (x + y).value.to_bits() as u64
}

/// Relies on rustc_apfloat::ieee::Double's subtraction: IEEE-754, rounding
/// to nearest even, a deterministic function of the two bit patterns.
#[verifier::external_body]
pub(crate) fn sub_double(a: u64, b: u64) -> (r: u64)
    ensures
        r == spec_sub_double(a, b),
{
    let x = rustc_apfloat::ieee::Double::from_bits(a as u128);
    let y = rustc_apfloat::ieee::Double::from_bits(b as u128);
    (x - y).value.to_bits() as u64
}

/// Relies on rustc_apfloat::ieee::Double's multiplication: IEEE-754,
/// rounding to nearest even, a deterministic function of the two bit
/// patterns.
#[verifier::external_body]
pub(crate) fn mul_double(a: u64, b: u64) -> (r: u64)
    ensures
        r == spec_mul_double(a, b),
{
    let x = rustc_apfloat::ieee::Double::from_bits(a as u128);
    let y = rustc_apfloat::ieee::Double::from_bits(b as u128);
    (x * y).value.to_bits() as u64
}

/// Relies on rustc_apfloat::ieee::Double's division: IEEE-754, rounding to
/// nearest even, a deterministic function of the two bit patterns; division
/// by zero gives an infinity or NaN, never a failure.
#[verifier::external_body]
pub(crate) fn div_double(a: u64, b: u64) -> (r: u64)
    ensures
        r == spec_div_double(a, b),
{
    let x = rustc_apfloat::ieee::Double::from_bits(a as u128);
    let y = rustc_apfloat::ieee::Double::from_bits(b as u128);
    (x / y).value.to_bits() as u64
}

/// Whether a formatted candidate avoids scientific notation.
pub open spec fn spec_plain_text(s: Seq<char>) -> bool {
    forall|i: int| 0 <= i < s.len() ==> #[trigger] s[i] != 'E'
}

/// Whether showing `bits` at `digits` significant digits is faithful: plain
/// notation that parses back to the very same pattern.
pub open spec fn spec_faithful_at(bits: u64, digits: u64) -> bool {
    &&& spec_plain_text(spec_fmt_double(bits, digits))
    &&& spec_parse_double(spec_fmt_double(bits, digits)) == Some(bits)
}

/// The canonical digits of a finite nonzero double: the fewest significant
/// digits whose plain positional rendering parses back to the same pattern.
/// Seventeen digits always read back; the search runs on past that bound
/// only until the rendering leaves scientific notation, which the widest
/// finite double does within 340 digit positions.
pub open spec fn spec_shortest_text(bits: u64, digits: u64) -> Seq<char>
    decreases 340 - digits,
{
    if digits >= 340 {
        spec_fmt_double(bits, 340)
    } else if spec_faithful_at(bits, digits) {
        spec_fmt_double(bits, digits)
    } else {
        spec_shortest_text(bits, (digits + 1) as u64)
    }
}

/// The canonical decimal text of a double bit pattern.
pub open spec fn spec_double_text(bits: u64) -> Seq<char> {
    if spec_is_nan(bits) {
        "NaN"@
    } else if spec_is_infinite(bits) {
        if spec_sign_bit(bits) {
            "-inf"@
        } else {
            "inf"@
        }
    } else if spec_is_zero(bits) {
        if spec_sign_bit(bits) {
            "-0"@
        } else {
            "0"@
        }
    } else {
        spec_shortest_text(bits, 1)
    }
}

fn plain_text(s: &String) -> (r: bool)
    ensures
        r == spec_plain_text(s@),
{
    let text = s.as_str();
    let len = text.unicode_len();
    let mut i: usize = 0;
    while i < len
        invariant
            0 <= i <= len,
            len == text@.len(),
            text@ == s@,
            forall|j: int| 0 <= j < i ==> #[trigger] text@[j] != 'E',
        decreases len - i,
    {
        if text.get_char(i) == 'E' {
            proof {
                assert(s@[i as int] == 'E');
            }
            return false;
        }
        i = i + 1;
    }
    true
}

/// The canonical decimal text of the double encoded by `bits`: `NaN`,
/// `inf`/`-inf`, `0`/`-0`, or the fewest significant digits whose plain
/// positional rendering reads back as the very same value.
pub fn double_text(bits: u64) -> (s: String)
    ensures
        s@ == spec_double_text(bits),
{
    if is_nan(bits) {
        let mut s = String::new();
        s.append("NaN");
        proof {
            assert(s@ =~= spec_double_text(bits));
        }
        return s;
    }
    if is_infinite(bits) {
        let mut s = String::new();
        if sign_bit(bits) {
            s.append("-inf");
        } else {
            s.append("inf");
        }
        proof {
            assert(s@ =~= spec_double_text(bits));
        }
        return s;
    }
    if is_zero(bits) {
        let mut s = String::new();
        if sign_bit(bits) {
            s.append("-0");
        } else {
            s.append("0");
        }
        proof {
            assert(s@ =~= spec_double_text(bits));
        }
        return s;
    }
    let mut digits: u64 = 1;
    while digits < 340
        invariant
            1 <= digits <= 340,
            !spec_is_nan(bits),
            !spec_is_infinite(bits),
            !spec_is_zero(bits),
            spec_shortest_text(bits, 1) == spec_shortest_text(bits, digits),
        decreases 340 - digits,
    {
        let candidate = fmt_double(bits, digits);
        if plain_text(&candidate) {
            let text = candidate.as_str();
            match parse_double(text) {
                Some(back) => {
                    if back == bits {
                        proof {
                            assert(spec_faithful_at(bits, digits));
                            assert(spec_shortest_text(bits, digits) == spec_fmt_double(
                                bits,
                                digits,
                            ));
                        }
                        return candidate;
                    }
                },
                None => {},
            }
        }
        proof {
            assert(!spec_faithful_at(bits, digits));
            assert(spec_shortest_text(bits, digits) == spec_shortest_text(
                bits,
                (digits + 1) as u64,
            ));
        }
        digits = digits + 1;
    }
    fmt_double(bits, 340)
}

/// Where some number of significant digits within the search bound reads
/// back as the same pattern, the canonical text of a finite nonzero double
/// does so too.
pub proof fn lemma_double_text_reads_back(bits: u64)
    ensures
        (!spec_is_nan(bits) && !spec_is_infinite(bits) && !spec_is_zero(bits) && exists|d: u64|
            1 <= d < 340 && spec_faithful_at(bits, d)) ==> spec_parse_double(
            spec_double_text(bits),
        ) == Some(bits),
{
    if !spec_is_nan(bits) && !spec_is_infinite(bits) && !spec_is_zero(bits) && exists|d: u64|
        1 <= d < 340 && spec_faithful_at(bits, d) {
        let d0 = choose|d: u64| 1 <= d < 340 && spec_faithful_at(bits, d);
        lemma_shortest_reads_back(bits, 1, d0);
    }
}

proof fn lemma_shortest_reads_back(bits: u64, digits: u64, witness: u64)
    requires
        1 <= digits <= witness < 340,
        spec_faithful_at(bits, witness),
    ensures
        spec_parse_double(spec_shortest_text(bits, digits)) == Some(bits),
    decreases 340 - digits,
{
    if spec_faithful_at(bits, digits) {
    } else {
        lemma_shortest_reads_back(bits, (digits + 1) as u64, witness);
    }
}

} // verus!
