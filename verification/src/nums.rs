//! Runtime numbers are IEEE-754 double-precision values, carried as their
//! 64-bit encodings. Everything the language computes with them goes through
//! the wrappers below, which delegate to rustc_apfloat's software
//! implementation of the same format; the contracts name the results, since
//! binary floating-point arithmetic is a function of the operand bits alone.
use rustc_apfloat::Float;
use vstd::prelude::*;

verus! {

/// The encoding of the IEEE-754 double sum of the doubles encoded by `a` and `b`.
pub uninterp spec fn add_bits(a: u64, b: u64) -> u64;

/// The encoding of the IEEE-754 double difference of the doubles encoded by `a` and `b`.
pub uninterp spec fn sub_bits(a: u64, b: u64) -> u64;

/// The encoding of the IEEE-754 double product of the doubles encoded by `a` and `b`.
pub uninterp spec fn mul_bits(a: u64, b: u64) -> u64;

/// The encoding of the IEEE-754 double quotient of the doubles encoded by `a` and `b`.
pub uninterp spec fn div_bits(a: u64, b: u64) -> u64;

/// The encoding of the IEEE-754 double negation of the double encoded by `a`.
pub uninterp spec fn neg_bits(a: u64) -> u64;

/// Whether the double encoded by `a` is strictly below the one encoded by `b`
/// in the IEEE-754 partial order (false whenever either is a NaN).
pub uninterp spec fn lt_bits(a: u64, b: u64) -> bool;

/// Whether the doubles encoded by `a` and `b` compare equal in IEEE-754
/// (false whenever either is a NaN; the two zeroes compare equal).
pub uninterp spec fn eq_bits(a: u64, b: u64) -> bool;

/// The encoding of the double that a decimal numeral denotes, rounded to
/// nearest (ties to even), or the encoding of zero if the text is no numeral.
pub uninterp spec fn num_of_chars(s: Seq<char>) -> u64;

/// The decimal rendering of the double encoded by `a` to `precision`
/// significant digits (positional notation).
pub uninterp spec fn render_of(a: u64, precision: int) -> Seq<char>;

/// The shortest of the renderings of `a` at `k` to 17 significant digits
/// that reads back as the same double (17 always does).
pub open spec fn display_bits_from(a: u64, k: int) -> Seq<char>
    decreases 17 - k,
    when 1 <= k <= 17
{
    if k >= 17 {
        render_of(a, 17)
    } else if num_of_chars(render_of(a, k)) == a {
        render_of(a, k)
    } else {
        display_bits_from(a, k + 1)
    }
}

/// The decimal rendering of the double encoded by `a`: the two infinities by
/// name, otherwise the shortest rendering that reads back as the same
/// double.
pub open spec fn display_bits(a: u64) -> Seq<char> {
    if a == 0x7FF0000000000000u64 {
        "inf"@
    } else if a == 0xFFF0000000000000u64 {
        "-inf"@
    } else {
        display_bits_from(a, 1)
    }
}

/// Relies on rustc_apfloat::ieee::Double: `+` (add_r, nearest-even) on doubles.
#[verifier::external_body]
pub(crate) fn num_add(a: u64, b: u64) -> (r: u64)
    ensures
        r == add_bits(a, b),
{
    let x = rustc_apfloat::ieee::Double::from_bits(a as u128);
    let y = rustc_apfloat::ieee::Double::from_bits(b as u128);
    (x + y).value.to_bits() as u64
}

/// Relies on rustc_apfloat::ieee::Double: `-` (sub_r, nearest-even) on doubles.
#[verifier::external_body]
pub(crate) fn num_sub(a: u64, b: u64) -> (r: u64)
    ensures
        r == sub_bits(a, b),
{
    let x = rustc_apfloat::ieee::Double::from_bits(a as u128);
    let y = rustc_apfloat::ieee::Double::from_bits(b as u128);
    (x - y).value.to_bits() as u64
}

/// Relies on rustc_apfloat::ieee::Double: `*` (mul_r, nearest-even) on doubles.
#[verifier::external_body]
pub(crate) fn num_mul(a: u64, b: u64) -> (r: u64)
    ensures
        r == mul_bits(a, b),
{
    let x = rustc_apfloat::ieee::Double::from_bits(a as u128);
    let y = rustc_apfloat::ieee::Double::from_bits(b as u128);
    (x * y).value.to_bits() as u64
}

/// Relies on rustc_apfloat::ieee::Double: `/` (div_r, nearest-even) on doubles.
#[verifier::external_body]
pub(crate) fn num_div(a: u64, b: u64) -> (r: u64)
    ensures
        r == div_bits(a, b),
{
    let x = rustc_apfloat::ieee::Double::from_bits(a as u128);
    let y = rustc_apfloat::ieee::Double::from_bits(b as u128);
    (x / y).value.to_bits() as u64
}

/// Relies on rustc_apfloat::ieee::Double: unary `-`, which flips the sign.
#[verifier::external_body]
pub(crate) fn num_neg(a: u64) -> (r: u64)
    ensures
        r == neg_bits(a),
{
    (-rustc_apfloat::ieee::Double::from_bits(a as u128)).to_bits() as u64
}

/// Relies on rustc_apfloat::ieee::Double: `<` through the IEEE-754 partial order.
#[verifier::external_body]
pub(crate) fn num_lt(a: u64, b: u64) -> (r: bool)
    ensures
        r == lt_bits(a, b),
{
    let x = rustc_apfloat::ieee::Double::from_bits(a as u128);
    let y = rustc_apfloat::ieee::Double::from_bits(b as u128);
    x < y
}

/// Relies on rustc_apfloat::ieee::Double: `==` through the IEEE-754 partial order.
#[verifier::external_body]
pub(crate) fn num_eq(a: u64, b: u64) -> (r: bool)
    ensures
        r == eq_bits(a, b),
{
    let x = rustc_apfloat::ieee::Double::from_bits(a as u128);
    let y = rustc_apfloat::ieee::Double::from_bits(b as u128);
    x == y
}

/// Relies on rustc_apfloat::ieee::Double: FromStr, correctly rounded to
/// nearest (ties to even), exactly as the runtime's own decimal conversion.
#[verifier::external_body]
pub(crate) fn num_parse(s: &str) -> (r: u64)
    ensures
        r == num_of_chars(s@),
{
    match s.parse::<rustc_apfloat::ieee::Double>() {
        Ok(d) => d.to_bits() as u64,
        Err(_) => 0,
    }
}

/// Relies on rustc_apfloat::ieee::Double: Display, a positional decimal
/// rendering to the given number of significant digits (the width argument
/// only sets the threshold for scientific notation, which a width beyond
/// every double's decimal length never reaches).
#[verifier::external_body]
fn num_render_prec(a: u64, precision: usize) -> (r: String)
    ensures
        r@ == render_of(a, precision as int),
{
    format!("{:1$.2$}", rustc_apfloat::ieee::Double::from_bits(a as u128), 400, precision)
}

/// The decimal rendering of the double encoded by `a`, with the fewest
/// significant digits that read back as the same double: what the runtime
/// writes for a number.
#[verifier::loop_isolation(false)]
pub(crate) fn num_render(a: u64) -> (r: String)
    ensures
        r@ == display_bits(a),
{
    if a == 0x7FF0000000000000u64 {
        "inf".to_owned()
    } else if a == 0xFFF0000000000000u64 {
        "-inf".to_owned()
    } else {
        let mut k: usize = 1;
        while k < 17
            invariant
                1 <= k <= 17,
                display_bits_from(a, 1) == display_bits_from(a, k as int),
            decreases 17 - k,
        {
            let s = num_render_prec(a, k);
            if num_parse(s.as_str()) == a {
                return s;
            }
            k = k + 1;
        }
        num_render_prec(a, 17)
    }
}

} // verus!
