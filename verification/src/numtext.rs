//! Decimal text for integers: the specification of the numeral-formatting
//! contract (minimal decimal digits, a leading `-` for negatives), and
//! formatting routines that meet it.
use vstd::prelude::*;

verus! {

/// The decimal digit character for `d`, which must lie in `0 ..= 9`.
pub open spec fn digit_char(d: int) -> char {
    if d == 0 {
        '0'
    } else if d == 1 {
        '1'
    } else if d == 2 {
        '2'
    } else if d == 3 {
        '3'
    } else if d == 4 {
        '4'
    } else if d == 5 {
        '5'
    } else if d == 6 {
        '6'
    } else if d == 7 {
        '7'
    } else if d == 8 {
        '8'
    } else {
        '9'
    }
}

/// The decimal digits of `n`, most significant first, with no leading zeros
/// (except for `n == 0`, which is a single `0`).
pub open spec fn dec_nat(n: nat) -> Seq<char>
    decreases n,
{
    if n < 10 {
        seq![digit_char(n as int)]
    } else {
        dec_nat(n / 10).push(digit_char((n % 10) as int))
    }
}

/// The decimal text of `i`: its digits, with a leading `-` when negative.
pub open spec fn dec_int(i: int) -> Seq<char> {
    if i < 0 {
        seq!['-'] + dec_nat((-i) as nat)
    } else {
        dec_nat(i as nat)
    }
}

/// Relies on itoa::Buffer::format for i128: it writes the integer as
/// minimal decimal digits with a leading `-` for negatives.
#[verifier::external_body]
pub(crate) fn format_i128(v: i128) -> (r: String)
    ensures
        r@ == dec_int(v as int),
{
    let mut buffer = itoa::Buffer::new();
    buffer.format(v).to_owned()
}

/// Relies on itoa::Buffer::format for u128: it writes the integer as
/// minimal decimal digits.
#[verifier::external_body]
pub(crate) fn format_u128(v: u128) -> (r: String)
    ensures
        r@ == dec_nat(v as nat),
{
    let mut buffer = itoa::Buffer::new();
    buffer.format(v).to_owned()
}

} // verus!
