//! Parsing submitted prompt text into the caller's result type.
//!
//! This is the library's own parsing trait — like `FromStr`, but with an
//! exact contract: each implementation says which texts it accepts and which
//! value they denote, and a failed parse reports the rejected text.

use vstd::prelude::*;

use crate::cursor::{chars_vec, push_char};
use crate::error::CliError;
use crate::filter::{digit_val, is_digit};

verus! {

/// Every character is a decimal digit, and there is at least one.
pub open spec fn all_digits(s: Seq<char>) -> bool {
    s.len() > 0 && forall|k: int| 0 <= k < s.len() ==> is_digit(#[trigger] s[k])
}

/// The value of a digit string read in base ten.
pub open spec fn digits_val(s: Seq<char>) -> int
    decreases s.len(),
{
    if s.len() == 0 {
        0
    } else {
        digits_val(s.drop_last()) * 10 + digit_val(s.last())
    }
}

/// A digit string's value never shrinks as digits are appended, and is never
/// negative.
pub proof fn lemma_digits_val_grows(s: Seq<char>, k: int)
    requires
        0 <= k <= s.len(),
        forall|q: int| 0 <= q < s.len() ==> is_digit(#[trigger] s[q]),
    ensures
        0 <= digits_val(s.subrange(0, k)) <= digits_val(s),
    decreases s.len() - k,
{
    if k == s.len() {
        assert(s.subrange(0, k) =~= s);
        lemma_digits_val_nonneg(s);
    } else {
        lemma_digits_val_grows(s, k + 1);
        let a = s.subrange(0, k);
        let b = s.subrange(0, k + 1);
        assert(b.drop_last() =~= a);
        assert(b.last() == s[k]);
        lemma_digits_val_nonneg(a);
    }
}

/// A digit string's value is never negative.
pub proof fn lemma_digits_val_nonneg(s: Seq<char>)
    requires
        forall|q: int| 0 <= q < s.len() ==> is_digit(#[trigger] s[q]),
    ensures
        digits_val(s) >= 0,
    decreases s.len(),
{
    if s.len() > 0 {
        assert(forall|q: int|
            0 <= q < s.drop_last().len() ==> is_digit(#[trigger] s.drop_last()[q]));
        lemma_digits_val_nonneg(s.drop_last());
    }
}

/// The digit part of an unsigned numeral: everything after an optional
/// leading plus sign.
pub open spec fn unsigned_digits(s: Seq<char>) -> Seq<char> {
    if s.len() > 0 && s[0] == '+' {
        s.drop_first()
    } else {
        s
    }
}

/// The text is an unsigned decimal numeral whose value fits below `max`.
pub open spec fn unsigned_parses(s: Seq<char>, max: int) -> bool {
    all_digits(unsigned_digits(s)) && digits_val(unsigned_digits(s)) <= max
}

/// The value of an unsigned decimal numeral.
pub open spec fn unsigned_val(s: Seq<char>) -> int {
    digits_val(unsigned_digits(s))
}

/// Whether a signed numeral is negative, and its digit part: everything
/// after an optional sign.
pub open spec fn signed_negative(s: Seq<char>) -> bool {
    s.len() > 0 && s[0] == '-'
}

/// The digit part of a signed numeral.
pub open spec fn signed_digits(s: Seq<char>) -> Seq<char> {
    if s.len() > 0 && (s[0] == '-' || s[0] == '+') {
        s.drop_first()
    } else {
        s
    }
}

/// The text is a signed decimal numeral whose value lies in `[min, max]`.
pub open spec fn signed_parses(s: Seq<char>, min: int, max: int) -> bool {
    all_digits(signed_digits(s)) && min <= signed_val(s) <= max
}

/// The value of a signed decimal numeral.
pub open spec fn signed_val(s: Seq<char>) -> int {
    if signed_negative(s) {
        -digits_val(signed_digits(s))
    } else {
        digits_val(signed_digits(s))
    }
}

/// Reads the digits `v[start..]` as an unsigned value, refusing texts that
/// are not all digits or whose value exceeds `max`.
fn parse_digits(v: &Vec<char>, start: usize, max: u64) -> (r: Option<u64>)
    requires
        start <= v@.len(),
    ensures
        ({
            let d = v@.subrange(start as int, v@.len() as int);
            match r {
                Some(x) => all_digits(d) && x as int == digits_val(d) && x <= max,
                None => !(all_digits(d) && digits_val(d) <= max),
            }
        }),
{
    let ghost d = v@.subrange(start as int, v@.len() as int);
    let n = v.len();
    if start == n {
        return None;
    }
    let mut acc: u128 = 0;
    let mut i: usize = start;
    while i < n
        invariant
            start <= i <= n == v@.len(),
            d == v@.subrange(start as int, n as int),
            forall|q: int| 0 <= q < i - start ==> is_digit(#[trigger] d[q]),
            acc as int == digits_val(d.subrange(0, i - start)),
            acc <= max as u128,
        decreases n - i,
    {
        let c = v[i];
        let u = c as u32;
        if u < 48 || u > 57 {
            proof {
                assert(d[i - start] == v@[i as int]);
                assert(!is_digit(d[i - start]));
            }
            return None;
        }
        let dv = (u - 48) as u128;
        let new_acc = acc * 10 + dv;
        proof {
            let pre = d.subrange(0, i - start);
            let cur = d.subrange(0, i + 1 - start);
            assert(cur.drop_last() =~= pre);
            assert(cur.last() == d[i - start]);
            assert(d[i - start] == v@[i as int]);
        }
        if new_acc > max as u128 {
            proof {
                // the value only grows with more digits, so the whole text
                // is out of range whenever a prefix already is
                if all_digits(d) && digits_val(d) <= max as int {
                    lemma_digits_val_grows(d, i + 1 - start);
                }
            }
            return None;
        }
        acc = new_acc;
        i = i + 1;
    }
    proof {
        assert(d.subrange(0, n - start) =~= d);
        assert(d.len() > 0);
    }
    Some(acc as u64)
}

/// Reads an unsigned decimal numeral (with an optional leading plus sign)
/// bounded by `max`.
pub(crate) fn parse_unsigned(s: &str, max: u64) -> (r: Option<u64>)
    ensures
        match r {
            Some(x) => unsigned_parses(s@, max as int) && x as int == unsigned_val(s@),
            None => !unsigned_parses(s@, max as int),
        },
{
    let v = chars_vec(s);
    let start: usize = if v.len() > 0 && v[0] == '+' {
        1
    } else {
        0
    };
    proof {
        if v@.len() > 0 && v@[0] == '+' {
            assert(unsigned_digits(s@) =~= v@.subrange(1, v@.len() as int));
        } else {
            assert(unsigned_digits(s@) =~= v@.subrange(0, v@.len() as int));
        }
    }
    parse_digits(&v, start, max)
}

/// Reads a signed decimal numeral (with an optional sign) whose value lies
/// in `[-(mag_min), mag_max]`, handed back as a negative flag and magnitude.
pub(crate) fn parse_signed(s: &str, mag_min: u64, mag_max: u64) -> (r: Option<(bool, u64)>)
    ensures
        match r {
            Some(p) => signed_parses(s@, -(mag_min as int), mag_max as int) && p.0
                == signed_negative(s@) && (if p.0 {
                signed_val(s@) == -(p.1 as int)
            } else {
                signed_val(s@) == p.1 as int
            }),
            None => !signed_parses(s@, -(mag_min as int), mag_max as int),
        },
{
    let v = chars_vec(s);
    let neg = v.len() > 0 && v[0] == '-';
    let start: usize = if v.len() > 0 && (v[0] == '-' || v[0] == '+') {
        1
    } else {
        0
    };
    proof {
        if v@.len() > 0 && (v@[0] == '-' || v@[0] == '+') {
            assert(signed_digits(s@) =~= v@.subrange(1, v@.len() as int));
        } else {
            assert(signed_digits(s@) =~= v@.subrange(0, v@.len() as int));
        }
    }
    let bound = if neg {
        mag_min
    } else {
        mag_max
    };
    match parse_digits(&v, start, bound) {
        Some(x) => Some((neg, x)),
        None => {
            proof {
                if all_digits(signed_digits(s@)) {
                    lemma_digits_val_nonneg(signed_digits(s@));
                }
            }
            None
        },
    }
}


/// The character of one decimal digit.
pub open spec fn digit_char(d: int) -> char {
    if d == 0 {
        '0'
    } else if d == 1 {
        '1'
    } else if d == 2 {
        '2'
    } else if d == 3 {
        '3'
    } else if d == 4 {
        '4'
    } else if d == 5 {
        '5'
    } else if d == 6 {
        '6'
    } else if d == 7 {
        '7'
    } else if d == 8 {
        '8'
    } else {
        '9'
    }
}

/// The decimal rendering of a count: most significant digit first, no sign,
/// no leading zero (except for the count zero itself).
pub open spec fn spec_decimal(n: nat) -> Seq<char>
    decreases n,
{
    if n < 10 {
        seq![digit_char(n as int)]
    } else {
        spec_decimal(n / 10).push(digit_char((n % 10) as int))
    }
}

/// Law: the decimal rendering of a count holds digits alone and reads back
/// as the count — rendering and parsing are inverses.
pub proof fn lemma_spec_decimal_val(n: nat)
    ensures
        all_digits(spec_decimal(n)),
        digits_val(spec_decimal(n)) == n,
    decreases n,
{
    if n < 10 {
        let s = spec_decimal(n);
        assert(s.drop_last() =~= Seq::<char>::empty());
        assert(digits_val(Seq::<char>::empty()) == 0);
        assert(digit_val(s.last()) == n);
        assert(digits_val(s) == digits_val(s.drop_last()) * 10 + digit_val(s.last()));
    } else {
        lemma_spec_decimal_val(n / 10);
        let s = spec_decimal(n);
        assert(s.drop_last() =~= spec_decimal(n / 10));
        assert(digit_val(s.last()) == n % 10);
        assert(digits_val(s) == digits_val(spec_decimal(n / 10)) * 10 + n % 10);
        assert(n / 10 * 10 + n % 10 == n) by {
            vstd::arithmetic::div_mod::lemma_fundamental_div_mod(n as int, 10);
        }
    }
}

/// The character of one decimal digit.
fn digit_char_of(d: usize) -> (r: char)
    requires
        d < 10,
    ensures
        r == digit_char(d as int),
{
    if d == 0 {
        '0'
    } else if d == 1 {
        '1'
    } else if d == 2 {
        '2'
    } else if d == 3 {
        '3'
    } else if d == 4 {
        '4'
    } else if d == 5 {
        '5'
    } else if d == 6 {
        '6'
    } else if d == 7 {
        '7'
    } else if d == 8 {
        '8'
    } else {
        '9'
    }
}

/// Renders a count in decimal.
pub(crate) fn decimal_string(n: usize) -> (r: String)
    ensures
        r@ == spec_decimal(n as nat),
    decreases n,
{
    if n < 10 {
        let mut s = String::new();
        push_char(&mut s, digit_char_of(n));
        proof {
            assert(s@ =~= spec_decimal(n as nat));
        }
        s
    } else {
        let mut s = decimal_string(n / 10);
        push_char(&mut s, digit_char_of(n % 10));
        s
    }
}

/// A type the prompts can parse submitted text into. Like `FromStr`, but a
/// trait of this library, with an exact contract; a failed parse reports the
/// rejected text.
pub trait CliFromStr: Sized {
    /// Whether this type accepts the text.
    spec fn spec_parses(s: Seq<char>) -> bool;

    /// The accepted text denotes this value.
    spec fn spec_parse_ok(s: Seq<char>, v: Self) -> bool;

    /// Whether the type wraps an optional value, turning empty text into
    /// "nothing".
    spec fn spec_is_option() -> bool;

    /// Whether the type wraps an optional value.
    fn is_option_type() -> (r: bool)
        ensures
            r == Self::spec_is_option(),
    ;

    /// Parses the text, or reports it as rejected.
    fn try_parse(s: &str) -> (r: Result<Self, CliError>)
        ensures
            Self::spec_parses(s@) ==> (r matches Ok(v) && Self::spec_parse_ok(s@, v)),
            !Self::spec_parses(s@) ==> (r matches Err(e) && (e matches CliError::Parse(m) && m@
                == s@)),
    ;
}

impl CliFromStr for String {
    /// Every text is itself a string.
    open spec fn spec_parses(s: Seq<char>) -> bool {
        true
    }

    open spec fn spec_parse_ok(s: Seq<char>, v: Self) -> bool {
        v@ == s
    }

    open spec fn spec_is_option() -> bool {
        false
    }

    fn is_option_type() -> (r: bool) {
        false
    }

    fn try_parse(s: &str) -> (r: Result<Self, CliError>) {
        Ok(s.to_owned())
    }
}

impl CliFromStr for char {
    /// Exactly one character.
    open spec fn spec_parses(s: Seq<char>) -> bool {
        s.len() == 1
    }

    open spec fn spec_parse_ok(s: Seq<char>, v: Self) -> bool {
        s.len() == 1 && v == s[0]
    }

    open spec fn spec_is_option() -> bool {
        false
    }

    fn is_option_type() -> (r: bool) {
        false
    }

    fn try_parse(s: &str) -> (r: Result<Self, CliError>) {
        let v = chars_vec(s);
        if v.len() == 1 {
            Ok(v[0])
        } else {
            Err(CliError::Parse(s.to_owned()))
        }
    }
}

impl CliFromStr for bool {
    /// Exactly the words `true` and `false`.
    open spec fn spec_parses(s: Seq<char>) -> bool {
        s == "true"@ || s == "false"@
    }

    open spec fn spec_parse_ok(s: Seq<char>, v: Self) -> bool {
        if v {
            s == "true"@
        } else {
            s == "false"@
        }
    }

    open spec fn spec_is_option() -> bool {
        false
    }

    fn is_option_type() -> (r: bool) {
        false
    }

    fn try_parse(s: &str) -> (r: Result<Self, CliError>) {
        proof {
            reveal_strlit("true");
            reveal_strlit("false");
        }
        let v = chars_vec(s);
        if v.len() == 4 && v[0] == 't' && v[1] == 'r' && v[2] == 'u' && v[3] == 'e' {
            proof {
                assert(s@ =~= "true"@);
            }
            Ok(true)
        } else if v.len() == 5 && v[0] == 'f' && v[1] == 'a' && v[2] == 'l' && v[3] == 's' && v[4]
            == 'e' {
            proof {
                assert(s@ =~= "false"@);
            }
            Ok(false)
        } else {
            proof {
                assert(s@ != "true"@ && s@ != "false"@);
            }
            Err(CliError::Parse(s.to_owned()))
        }
    }
}


impl CliFromStr for u8 {
    /// An unsigned decimal numeral in range.
    open spec fn spec_parses(s: Seq<char>) -> bool {
        unsigned_parses(s, u8::MAX as int)
    }

    open spec fn spec_parse_ok(s: Seq<char>, v: Self) -> bool {
        v as int == unsigned_val(s)
    }

    open spec fn spec_is_option() -> bool {
        false
    }

    fn is_option_type() -> (r: bool) {
        false
    }

    fn try_parse(s: &str) -> (r: Result<Self, CliError>) {
        match parse_unsigned(s, u8::MAX as u64) {
            Some(x) => Ok(x as u8),
            None => Err(CliError::Parse(s.to_owned())),
        }
    }
}

impl CliFromStr for u16 {
    /// An unsigned decimal numeral in range.
    open spec fn spec_parses(s: Seq<char>) -> bool {
        unsigned_parses(s, u16::MAX as int)
    }

    open spec fn spec_parse_ok(s: Seq<char>, v: Self) -> bool {
        v as int == unsigned_val(s)
    }

    open spec fn spec_is_option() -> bool {
        false
    }

    fn is_option_type() -> (r: bool) {
        false
    }

    fn try_parse(s: &str) -> (r: Result<Self, CliError>) {
        match parse_unsigned(s, u16::MAX as u64) {
            Some(x) => Ok(x as u16),
            None => Err(CliError::Parse(s.to_owned())),
        }
    }
}

impl CliFromStr for u32 {
    /// An unsigned decimal numeral in range.
    open spec fn spec_parses(s: Seq<char>) -> bool {
        unsigned_parses(s, u32::MAX as int)
    }

    open spec fn spec_parse_ok(s: Seq<char>, v: Self) -> bool {
        v as int == unsigned_val(s)
    }

    open spec fn spec_is_option() -> bool {
        false
    }

    fn is_option_type() -> (r: bool) {
        false
    }

    fn try_parse(s: &str) -> (r: Result<Self, CliError>) {
        match parse_unsigned(s, u32::MAX as u64) {
            Some(x) => Ok(x as u32),
            None => Err(CliError::Parse(s.to_owned())),
        }
    }
}

impl CliFromStr for u64 {
    /// An unsigned decimal numeral in range.
    open spec fn spec_parses(s: Seq<char>) -> bool {
        unsigned_parses(s, u64::MAX as int)
    }

    open spec fn spec_parse_ok(s: Seq<char>, v: Self) -> bool {
        v as int == unsigned_val(s)
    }

    open spec fn spec_is_option() -> bool {
        false
    }

    fn is_option_type() -> (r: bool) {
        false
    }

    fn try_parse(s: &str) -> (r: Result<Self, CliError>) {
        match parse_unsigned(s, u64::MAX as u64) {
            Some(x) => Ok(x as u64),
            None => Err(CliError::Parse(s.to_owned())),
        }
    }
}

impl CliFromStr for usize {
    /// An unsigned decimal numeral in range.
    open spec fn spec_parses(s: Seq<char>) -> bool {
        unsigned_parses(s, usize::MAX as int)
    }

    open spec fn spec_parse_ok(s: Seq<char>, v: Self) -> bool {
        v as int == unsigned_val(s)
    }

    open spec fn spec_is_option() -> bool {
        false
    }

    fn is_option_type() -> (r: bool) {
        false
    }

    fn try_parse(s: &str) -> (r: Result<Self, CliError>) {
        match parse_unsigned(s, usize::MAX as u64) {
            Some(x) => Ok(x as usize),
            None => Err(CliError::Parse(s.to_owned())),
        }
    }
}

impl CliFromStr for i8 {
    /// A signed decimal numeral in range.
    open spec fn spec_parses(s: Seq<char>) -> bool {
        signed_parses(s, i8::MIN as int, i8::MAX as int)
    }

    open spec fn spec_parse_ok(s: Seq<char>, v: Self) -> bool {
        v as int == signed_val(s)
    }

    open spec fn spec_is_option() -> bool {
        false
    }

    fn is_option_type() -> (r: bool) {
        false
    }

    fn try_parse(s: &str) -> (r: Result<Self, CliError>) {
        match parse_signed(s, (i8::MAX as u64) + 1, i8::MAX as u64) {
            Some((neg, mag)) => {
                if neg {
                    if mag == (i8::MAX as u64) + 1 {
                        Ok(i8::MIN)
                    } else {
                        Ok(-(mag as i8))
                    }
                } else {
                    Ok(mag as i8)
                }
            },
            None => Err(CliError::Parse(s.to_owned())),
        }
    }
}

impl CliFromStr for i16 {
    /// A signed decimal numeral in range.
    open spec fn spec_parses(s: Seq<char>) -> bool {
        signed_parses(s, i16::MIN as int, i16::MAX as int)
    }

    open spec fn spec_parse_ok(s: Seq<char>, v: Self) -> bool {
        v as int == signed_val(s)
    }

    open spec fn spec_is_option() -> bool {
        false
    }

    fn is_option_type() -> (r: bool) {
        false
    }

    fn try_parse(s: &str) -> (r: Result<Self, CliError>) {
        match parse_signed(s, (i16::MAX as u64) + 1, i16::MAX as u64) {
            Some((neg, mag)) => {
                if neg {
                    if mag == (i16::MAX as u64) + 1 {
                        Ok(i16::MIN)
                    } else {
                        Ok(-(mag as i16))
                    }
                } else {
                    Ok(mag as i16)
                }
            },
            None => Err(CliError::Parse(s.to_owned())),
        }
    }
}

impl CliFromStr for i32 {
    /// A signed decimal numeral in range.
    open spec fn spec_parses(s: Seq<char>) -> bool {
        signed_parses(s, i32::MIN as int, i32::MAX as int)
    }

    open spec fn spec_parse_ok(s: Seq<char>, v: Self) -> bool {
        v as int == signed_val(s)
    }

    open spec fn spec_is_option() -> bool {
        false
    }

    fn is_option_type() -> (r: bool) {
        false
    }

    fn try_parse(s: &str) -> (r: Result<Self, CliError>) {
        match parse_signed(s, (i32::MAX as u64) + 1, i32::MAX as u64) {
            Some((neg, mag)) => {
                if neg {
                    if mag == (i32::MAX as u64) + 1 {
                        Ok(i32::MIN)
                    } else {
                        Ok(-(mag as i32))
                    }
                } else {
                    Ok(mag as i32)
                }
            },
            None => Err(CliError::Parse(s.to_owned())),
        }
    }
}

impl CliFromStr for i64 {
    /// A signed decimal numeral in range.
    open spec fn spec_parses(s: Seq<char>) -> bool {
        signed_parses(s, i64::MIN as int, i64::MAX as int)
    }

    open spec fn spec_parse_ok(s: Seq<char>, v: Self) -> bool {
        v as int == signed_val(s)
    }

    open spec fn spec_is_option() -> bool {
        false
    }

    fn is_option_type() -> (r: bool) {
        false
    }

    fn try_parse(s: &str) -> (r: Result<Self, CliError>) {
        match parse_signed(s, (i64::MAX as u64) + 1, i64::MAX as u64) {
            Some((neg, mag)) => {
                if neg {
                    if mag == (i64::MAX as u64) + 1 {
                        Ok(i64::MIN)
                    } else {
                        Ok(-(mag as i64))
                    }
                } else {
                    Ok(mag as i64)
                }
            },
            None => Err(CliError::Parse(s.to_owned())),
        }
    }
}

impl CliFromStr for isize {
    /// A signed decimal numeral in range.
    open spec fn spec_parses(s: Seq<char>) -> bool {
        signed_parses(s, isize::MIN as int, isize::MAX as int)
    }

    open spec fn spec_parse_ok(s: Seq<char>, v: Self) -> bool {
        v as int == signed_val(s)
    }

    open spec fn spec_is_option() -> bool {
        false
    }

    fn is_option_type() -> (r: bool) {
        false
    }

    fn try_parse(s: &str) -> (r: Result<Self, CliError>) {
        match parse_signed(s, (isize::MAX as u64) + 1, isize::MAX as u64) {
            Some((neg, mag)) => {
                if neg {
                    if mag == (isize::MAX as u64) + 1 {
                        Ok(isize::MIN)
                    } else {
                        Ok(-(mag as isize))
                    }
                } else {
                    Ok(mag as isize)
                }
            },
            None => Err(CliError::Parse(s.to_owned())),
        }
    }
}

impl<T: CliFromStr> CliFromStr for Option<T> {
    /// Empty text is "nothing"; anything else must parse as the inner type.
    open spec fn spec_parses(s: Seq<char>) -> bool {
        s.len() == 0 || T::spec_parses(s)
    }

    open spec fn spec_parse_ok(s: Seq<char>, v: Self) -> bool {
        if s.len() == 0 {
            v is None
        } else {
            v matches Some(x) && T::spec_parse_ok(s, x)
        }
    }

    open spec fn spec_is_option() -> bool {
        true
    }

    fn is_option_type() -> (r: bool) {
        true
    }

    fn try_parse(s: &str) -> (r: Result<Self, CliError>) {
        if s.is_empty() {
            Ok(None)
        } else {
            match T::try_parse(s) {
                Ok(x) => Ok(Some(x)),
                Err(_) => Err(CliError::Parse(s.to_owned())),
            }
        }
    }
}

} // verus!
