//! Integers as decimal text: the grammar, the value of a text, and the text of
//! a value.

use vstd::prelude::*;
use vstd::std_specs::iter::IteratorSpec;

verus! {

/// Why a text is not an integer that fits in 32 bits.
#[derive(Clone, Copy, Debug, PartialEq, Eq, Structural)]
pub enum ParseError {
    /// The text has no characters at all.
    Empty,
    /// A character that is not a decimal digit stands where a digit is needed,
    /// or a sign stands alone.
    InvalidDigit,
    /// The digits read so far already exceed `i32::MAX`.
    PosOverflow,
    /// The digits read so far, negated, already fall below `i32::MIN`.
    NegOverflow,
}

impl ParseError {
    /// One sentence for each error, in the words that the standard library
    /// has for the same failures of `str::parse`.
    pub open spec fn description(self) -> Seq<char> {
        match self {
            ParseError::Empty => "cannot parse integer from empty string"@,
            ParseError::InvalidDigit => "invalid digit found in string"@,
            ParseError::PosOverflow => "number too large to fit in target type"@,
            ParseError::NegOverflow => "number too small to fit in target type"@,
        }
    }

    /// The sentence for this error, for a diagnostic line.
    pub fn describe(&self) -> (text: &'static str)
        ensures
            text@ == self.description(),
    {
        match self {
            ParseError::Empty => "cannot parse integer from empty string",
            ParseError::InvalidDigit => "invalid digit found in string",
            ParseError::PosOverflow => "number too large to fit in target type",
            ParseError::NegOverflow => "number too small to fit in target type",
        }
    }
}

/// `c` is one of the ten ASCII digits.
pub open spec fn is_digit(c: char) -> bool {
    '0' <= c && c <= '9'
}

/// The number a digit stands for; zero for any other character.
pub open spec fn digit_value(c: char) -> nat {
    if is_digit(c) {
        (c as int - '0' as int) as nat
    } else {
        0
    }
}

/// The digit that stands for `d`, for `d` below ten.
pub open spec fn digit_char(d: nat) -> char {
    (d + '0' as int) as char
}

/// Every character of `s` is a digit.
pub open spec fn all_digits(s: Seq<char>) -> bool {
    forall|i: int| 0 <= i < s.len() ==> is_digit(#[trigger] s[i])
}

/// The number that a run of digits denotes in base ten, most significant
/// digit first. The empty run denotes zero.
pub open spec fn decimal_value(digits: Seq<char>) -> nat
    decreases digits.len(),
{
    if digits.len() == 0 {
        0
    } else {
        10 * decimal_value(digits.drop_last()) + digit_value(digits.last())
    }
}

/// How many digits stand at the front of `s` before the first character that
/// is not a digit.
pub open spec fn digit_run(s: Seq<char>) -> nat
    decreases s.len(),
{
    if s.len() == 0 || !is_digit(s[0]) {
        0
    } else {
        1 + digit_run(s.drop_first())
    }
}

/// A leading `+` or `-` takes one character; anything else takes none.
pub open spec fn sign_len(s: Seq<char>) -> nat {
    if s.len() > 0 && (s[0] == '+' || s[0] == '-') {
        1
    } else {
        0
    }
}

/// The text starts with `-`.
pub open spec fn is_negative(s: Seq<char>) -> bool {
    s.len() > 0 && s[0] == '-'
}

/// What follows the optional sign.
pub open spec fn unsigned_part(s: Seq<char>) -> Seq<char> {
    s.subrange(sign_len(s) as int, s.len() as int)
}

/// The grammar of an integer: an optional sign, then one or more digits, and
/// nothing else.
pub open spec fn is_integer_text(s: Seq<char>) -> bool {
    unsigned_part(s).len() > 0 && all_digits(unsigned_part(s))
}

/// The integer that the leading digits of the unsigned part denote, negated
/// under a `-` sign.
pub open spec fn text_value(s: Seq<char>) -> int {
    let body = unsigned_part(s);
    let magnitude = decimal_value(body.take(digit_run(body) as int));
    if is_negative(s) {
        -magnitude
    } else {
        magnitude as int
    }
}

/// The outcome of reading `s` as a 32-bit signed integer in base ten.
///
/// The text is read from left to right and the first obstacle decides the
/// error: digits that already leave the range are reported as an overflow
/// even if a stray character follows them.
pub open spec fn parsed(s: Seq<char>) -> Result<int, ParseError> {
    let body = unsigned_part(s);
    if s.len() == 0 {
        Err(ParseError::Empty)
    } else if body.len() == 0 {
        Err(ParseError::InvalidDigit)
    } else if text_value(s) > i32::MAX {
        Err(ParseError::PosOverflow)
    } else if text_value(s) < i32::MIN {
        Err(ParseError::NegOverflow)
    } else if digit_run(body) < body.len() {
        Err(ParseError::InvalidDigit)
    } else {
        Ok(text_value(s))
    }
}

/// The shortest decimal text of `n`: no sign, and no leading zero unless `n`
/// is zero itself.
pub open spec fn nat_text(n: nat) -> Seq<char>
    decreases n,
{
    if n < 10 {
        seq![digit_char(n)]
    } else {
        nat_text(n / 10).push(digit_char(n % 10))
    }
}

/// The shortest decimal text of `n`, with a leading `-` where `n` is
/// negative.
pub open spec fn int_text(n: int) -> Seq<char> {
    if n < 0 {
        seq!['-'] + nat_text((-n) as nat)
    } else {
        nat_text(n as nat)
    }
}

/// Reads `text` as a 32-bit signed integer in base ten: an optional `+` or
/// `-`, then digits only. No blanks, no separators, no fraction.
pub fn parse_i32(text: &str) -> (r: Result<i32, ParseError>)
    ensures
        match r {
            Ok(v) => parsed(text@) == Ok::<int, ParseError>(v as int),
            Err(e) => parsed(text@) == Err::<int, ParseError>(e),
        },
{
    let ghost s = text@;
    let ghost body = unsigned_part(s);
    let mut at_start = true;
    let mut negative = false;
    let mut any_digit = false;
    let mut magnitude: i64 = 0;
    let chars = text.chars();
    for c in it: chars
        invariant
            it.seq() == s,
            s == text@,
            body == unsigned_part(s),
            at_start <==> it.index() == 0,
            !at_start ==> sign_len(s) <= it.index(),
            !at_start ==> negative == is_negative(s),
            at_start ==> !negative && !any_digit && magnitude == 0,
            any_digit <==> it.index() > sign_len(s),
            !at_start ==> all_digits(body.take(it.index() - sign_len(s))),
            !at_start ==> magnitude == decimal_value(body.take(it.index() - sign_len(s))),
            0 <= magnitude <= 0x8000_0000,
            !negative ==> magnitude <= i32::MAX,
    {
        let ghost k = it.index() - sign_len(s);
        if at_start && (c == '+' || c == '-') {
            negative = c == '-';
            assert(body.take(0) =~= Seq::<char>::empty());
        } else if c >= '0' && c <= '9' {
            let digit: i64 = (c as u32 - '0' as u32) as i64;
            magnitude = magnitude * 10 + digit;
            any_digit = true;
            proof {
                assert(body[k] == c);
                assert(body.take(k + 1).drop_last() =~= body.take(k));
                if magnitude > i32::MAX + (if negative { 1int } else { 0int }) {
                    lemma_digit_run_bounds(body);
                    let run = digit_run(body) as int;
                    if run < k + 1 {
                        assert(body.take(k + 1)[run] == body[run]);
                    }
                    assert(body.take(run).take(k + 1) =~= body.take(k + 1));
                    lemma_decimal_value_grows(body.take(run), k + 1);
                }
            }
            if negative {
                if magnitude > 0x8000_0000 {
                    return Err(ParseError::NegOverflow);
                }
            } else if magnitude > 0x7fff_ffff {
                return Err(ParseError::PosOverflow);
            }
        } else {
            proof {
                lemma_digit_run_is(body, k);
            }
            return Err(ParseError::InvalidDigit);
        }
        at_start = false;
    }
    if at_start {
        return Err(ParseError::Empty);
    }
    if !any_digit {
        return Err(ParseError::InvalidDigit);
    }
    proof {
        lemma_digit_run_is(body, body.len() as int);
    }
    if negative {
        Ok((-magnitude) as i32)
    } else {
        Ok(magnitude as i32)
    }
}

/// The one-character text of a digit.
fn digit_text(d: u64) -> (r: &'static str)
    requires
        d < 10,
    ensures
        r@ == seq![digit_char(d as nat)],
{
    proof {
        reveal_strlit("0");
        reveal_strlit("1");
        reveal_strlit("2");
        reveal_strlit("3");
        reveal_strlit("4");
        reveal_strlit("5");
        reveal_strlit("6");
        reveal_strlit("7");
        reveal_strlit("8");
        reveal_strlit("9");
    }
    match d {
        0 => "0",
        1 => "1",
        2 => "2",
        3 => "3",
        4 => "4",
        5 => "5",
        6 => "6",
        7 => "7",
        8 => "8",
        _ => "9",
    }
}

/// Appends the decimal text of `n` to `out`.
fn push_nat(out: &mut String, n: u64)
    ensures
        final(out)@ == old(out)@ + nat_text(n as nat),
    decreases n,
{
    if n >= 10 {
        push_nat(out, n / 10);
    }
    out.append(digit_text(n % 10));
}

/// Writes `n` in base ten.
pub fn format_nat(n: u64) -> (text: String)
    ensures
        text@ == nat_text(n as nat),
{
    let mut text = String::new();
    push_nat(&mut text, n);
    text
}

/// Writes `n` in base ten, with a leading `-` where it is negative.
pub fn format_int(n: i64) -> (text: String)
    ensures
        text@ == int_text(n as int),
{
    if n < 0 {
        proof {
            reveal_strlit("-");
        }
        let mut text = String::from_str("-");
        let magnitude: u64 = (-(n + 1)) as u64 + 1;
        push_nat(&mut text, magnitude);
        text
    } else {
        format_nat(n as u64)
    }
}

/// A text is read as an integer exactly when it follows the grammar and its
/// value fits in 32 bits; the integer read is then that value.
pub proof fn lemma_parsed_ok_iff(s: Seq<char>)
    ensures
        parsed(s) is Ok <==> is_integer_text(s) && i32::MIN <= text_value(s) <= i32::MAX,
        parsed(s) is Ok ==> parsed(s) == Ok::<int, ParseError>(text_value(s)),
{
    let body = unsigned_part(s);
    lemma_digit_run_bounds(body);
    if is_integer_text(s) {
        lemma_digit_run_is(body, body.len() as int);
    }
    if digit_run(body) == body.len() {
        assert(body.take(body.len() as int) =~= body);
    }
}

/// Reading back what was written gives the number that was written, for
/// every number that fits in 32 bits.
pub proof fn lemma_parsed_int_text(n: int)
    requires
        i32::MIN <= n <= i32::MAX,
    ensures
        parsed(int_text(n)) == Ok::<int, ParseError>(n),
{
    let s = int_text(n);
    let digits = nat_text((if n < 0 { -n } else { n }) as nat);
    lemma_nat_text_value((if n < 0 { -n } else { n }) as nat);
    assert(unsigned_part(s) =~= digits);
    assert(digits.take(digits.len() as int) =~= digits);
    lemma_digit_run_is(digits, digits.len() as int);
}

/// `digit_run` is the one index that has only digits before it and no digit
/// at it.
pub proof fn lemma_digit_run_is(s: Seq<char>, k: int)
    requires
        0 <= k <= s.len(),
        all_digits(s.take(k)),
        k < s.len() ==> !is_digit(s[k]),
    ensures
        digit_run(s) == k,
    decreases s.len(),
{
    if k == 0 {
    } else {
        assert(s[0] == s.take(k)[0]);
        let rest = s.drop_first();
        assert forall|i: int| 0 <= i < rest.take(k - 1).len() implies is_digit(
            #[trigger] rest.take(k - 1)[i],
        ) by {
            assert(rest.take(k - 1)[i] == s.take(k)[i + 1]);
        }
        lemma_digit_run_is(rest, k - 1);
    }
}

/// The leading digits are digits, and what follows them is not one.
pub proof fn lemma_digit_run_bounds(s: Seq<char>)
    ensures
        digit_run(s) <= s.len(),
        all_digits(s.take(digit_run(s) as int)),
        digit_run(s) < s.len() ==> !is_digit(s[digit_run(s) as int]),
    decreases s.len(),
{
    if s.len() == 0 || !is_digit(s[0]) {
    } else {
        let rest = s.drop_first();
        lemma_digit_run_bounds(rest);
        let k = digit_run(s) as int;
        assert forall|i: int| 0 <= i < s.take(k).len() implies is_digit(#[trigger] s.take(k)[i]) by {
            if i > 0 {
                assert(s.take(k)[i] == rest.take(k - 1)[i - 1]);
            }
        }
    }
}

/// Reading more digits never lowers the value.
pub proof fn lemma_decimal_value_grows(s: Seq<char>, k: int)
    requires
        0 <= k <= s.len(),
    ensures
        decimal_value(s.take(k)) <= decimal_value(s),
    decreases s.len(),
{
    if k == s.len() {
        assert(s.take(k) =~= s);
    } else {
        assert(s.drop_last().take(k) =~= s.take(k));
        lemma_decimal_value_grows(s.drop_last(), k);
    }
}

/// The text of a number is made of digits, at least one, and denotes that
/// number.
pub proof fn lemma_nat_text_value(n: nat)
    ensures
        nat_text(n).len() > 0,
        all_digits(nat_text(n)),
        decimal_value(nat_text(n)) == n,
    decreases n,
{
    let text = nat_text(n);
    if n < 10 {
        assert(decimal_value(text.drop_last()) == 0);
    } else {
        lemma_nat_text_value(n / 10);
        assert(text.drop_last() =~= nat_text(n / 10));
    }
}

} // verus!
