//! Celsius and Fahrenheit in whole degrees. Both directions divide with the
//! quotient cut toward zero, so neither undoes the other exactly.

use vstd::prelude::*;

verus! {

/// The quotient of `a` by a positive `b`, with the fraction dropped: toward
/// zero, also for a negative `a`.
pub open spec fn div_toward_zero(a: int, b: int) -> int
    recommends
        b > 0,
{
    if a >= 0 {
        a / b
    } else {
        -((-a) / b)
    }
}

/// `c * 9 / 5 + 32`, in whole degrees.
pub open spec fn fahrenheit_of(c: int) -> int {
    div_toward_zero(c * 9, 5) + 32
}

/// `(f - 32) * 5 / 9`, in whole degrees.
pub open spec fn celsius_of(f: int) -> int {
    div_toward_zero((f - 32) * 5, 9)
}

/// Converts whole degrees Celsius to Fahrenheit. The result is wider than the
/// argument, so no input overflows.
pub fn celsius_to_fahrenheit(c: i32) -> (f: i64)
    ensures
        f == fahrenheit_of(c as int),
{
    let c: i64 = c as i64;
    c * 9 / 5 + 32
}

/// Converts whole degrees Fahrenheit to Celsius.
pub fn fahrenheit_to_celsius(f: i32) -> (c: i64)
    ensures
        c == celsius_of(f as int),
{
    let f: i64 = f as i64;
    (f - 32) * 5 / 9
}

/// Celsius to Fahrenheit and back gives the same temperature only for
/// multiples of five degrees. Every other temperature comes back one degree
/// nearer to zero.
pub proof fn lemma_celsius_round_trip(c: int)
    ensures
        c % 5 == 0 ==> celsius_of(fahrenheit_of(c)) == c,
        c % 5 != 0 && c > 0 ==> celsius_of(fahrenheit_of(c)) == c - 1,
        c % 5 != 0 && c < 0 ==> celsius_of(fahrenheit_of(c)) == c + 1,
{
}

/// The round trip is lossy: some temperature does not come back as itself.
pub proof fn lemma_round_trip_is_lossy()
    ensures
        exists|c: int| celsius_of(fahrenheit_of(c)) != c,
{
    assert(celsius_of(fahrenheit_of(1)) != 1);
}

} // verus!
