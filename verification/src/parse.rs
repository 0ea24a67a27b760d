//! Parsers for the resolved configuration values: durations, sizes, and log
//! levels, all from plain command-line strings.
//!
//! Each parser is total: it never panics, and its contract says exactly
//! which strings parse to what and which error every other string earns.

use vstd::arithmetic::mul::lemma_mul_upper_bound;
use vstd::prelude::*;

verus! {

/// Why a configuration string was rejected. Any of these is fatal at
/// startup: the shell reports it and exits nonzero.
#[derive(Clone, Copy, Debug, PartialEq, Eq, Structural)]
pub enum ParseError {
    /// A number is missing where one is required, or has too many digits
    /// to fit a 64-bit value.
    BadNumber,
    /// A unit is not one the grammar knows.
    BadUnit,
    /// The summed value does not fit a 64-bit count.
    Overflow,
}

/// A log severity filter, from most quiet to most verbose.
#[derive(Clone, Copy, Debug, PartialEq, Eq, Structural)]
pub enum LogLevel {
    Off,
    Error,
    Warn,
    Info,
    Debug,
    Trace,
}

/// Compare two string slices by their characters.
fn str_eq_str(a: &str, b: &str) -> (r: bool)
    ensures
        r == (a@ == b@),
{
    let la = a.unicode_len();
    let lb = b.unicode_len();
    if la != lb {
        return false;
    }
    let mut i: usize = 0;
    while i < la
        invariant
            i <= la,
            la == a@.len(),
            la == b@.len(),
            forall|j: int| 0 <= j < i ==> a@[j] == b@[j],
        decreases la - i,
    {
        if a.get_char(i) != b.get_char(i) {
            return false;
        }
        i = i + 1;
    }
    proof {
        assert(a@ =~= b@);
    }
    true
}

/// Which log level a string names: each level by its full name or its first
/// letter; anything else is rejected.
pub open spec fn spec_to_log_level(s: Seq<char>) -> Result<LogLevel, ParseError> {
    if s == "off"@ || s == "o"@ {
        Result::Ok(LogLevel::Off)
    } else if s == "error"@ || s == "e"@ {
        Result::Ok(LogLevel::Error)
    } else if s == "warn"@ || s == "w"@ {
        Result::Ok(LogLevel::Warn)
    } else if s == "info"@ || s == "i"@ {
        Result::Ok(LogLevel::Info)
    } else if s == "debug"@ || s == "d"@ {
        Result::Ok(LogLevel::Debug)
    } else if s == "trace"@ || s == "t"@ {
        Result::Ok(LogLevel::Trace)
    } else {
        Result::Err(ParseError::BadUnit)
    }
}

/// Parse a log level name, full or abbreviated to its first letter.
pub fn to_log_level(s: &str) -> (r: Result<LogLevel, ParseError>)
    ensures
        r == spec_to_log_level(s@),
{
    if str_eq_str(s, "off") || str_eq_str(s, "o") {
        Ok(LogLevel::Off)
    } else if str_eq_str(s, "error") || str_eq_str(s, "e") {
        Ok(LogLevel::Error)
    } else if str_eq_str(s, "warn") || str_eq_str(s, "w") {
        Ok(LogLevel::Warn)
    } else if str_eq_str(s, "info") || str_eq_str(s, "i") {
        Ok(LogLevel::Info)
    } else if str_eq_str(s, "debug") || str_eq_str(s, "d") {
        Ok(LogLevel::Debug)
    } else if str_eq_str(s, "trace") || str_eq_str(s, "t") {
        Ok(LogLevel::Trace)
    } else {
        Err(ParseError::BadUnit)
    }
}

/// Whether a character is a decimal digit.
pub open spec fn is_digit(c: char) -> bool {
    48 <= c as u32 && c as u32 <= 57
}

/// The value of one decimal digit character.
pub open spec fn digit_val(c: char) -> nat
    recommends
        is_digit(c),
{
    (c as u32 - 48) as nat
}

/// The value of a string of decimal digits, most significant first.
pub open spec fn digits_val(ds: Seq<char>) -> nat
    decreases ds.len(),
{
    if ds.len() == 0 {
        0
    } else {
        digits_val(ds.drop_last()) * 10 + digit_val(ds.last())
    }
}

/// Seconds per time-unit letter: seconds, minutes, hours, days, weeks.
pub open spec fn spec_secs_unit(c: char) -> Option<nat> {
    if c == 's' {
        Option::Some(1 as nat)
    } else if c == 'm' {
        Option::Some(60 as nat)
    } else if c == 'h' {
        Option::Some(3600 as nat)
    } else if c == 'd' {
        Option::Some(86400 as nat)
    } else if c == 'w' {
        Option::Some(604800 as nat)
    } else {
        Option::None
    }
}

/// The scan of the seconds grammar: digits accumulate a number; a unit
/// letter closes the number and adds `number * unit` seconds to the sum; a
/// trailing number without a unit adds raw seconds. A missing or oversized
/// number, an unknown unit, and a sum beyond 64 bits are the errors.
pub open spec fn spec_secs_loop(s: Seq<char>, num: Seq<char>, sum: nat) -> Result<u64, ParseError>
    recommends
        sum <= u64::MAX,
    decreases s.len(),
{
    if s.len() == 0 {
        if num.len() == 0 {
            Result::Ok(sum as u64)
        } else if digits_val(num) > u64::MAX {
            Result::Err(ParseError::BadNumber)
        } else if sum + digits_val(num) > u64::MAX {
            Result::Err(ParseError::Overflow)
        } else {
            Result::Ok((sum + digits_val(num)) as u64)
        }
    } else {
        let c = s.first();
        if is_digit(c) {
            spec_secs_loop(s.drop_first(), num.push(c), sum)
        } else if num.len() == 0 || digits_val(num) > u64::MAX {
            Result::Err(ParseError::BadNumber)
        } else {
            match spec_secs_unit(c) {
                Option::None => Result::Err(ParseError::BadUnit),
                Option::Some(mult) => if sum + digits_val(num) * mult > u64::MAX {
                    Result::Err(ParseError::Overflow)
                } else {
                    spec_secs_loop(
                        s.drop_first(),
                        Seq::empty(),
                        (sum + digits_val(num) * mult) as nat,
                    )
                },
            }
        }
    }
}

/// What parsing a duration-in-seconds string returns.
pub open spec fn spec_to_duration(s: Seq<char>) -> Result<u64, ParseError> {
    spec_secs_loop(s, Seq::empty(), 0)
}

/// Parse a duration as whole seconds: a sum of `<number><unit>` tokens with
/// units s, m, h, d, w, and an optional trailing bare number of seconds.
/// For example, "1h30m" is 5400 and "90" is 90. Never panics: a missing or
/// oversized number, an unknown unit, or a sum beyond 64 bits is an error.
pub fn to_duration(s: &str) -> (r: Result<u64, ParseError>)
    ensures
        r == spec_to_duration(s@),
{
    let len = s.unicode_len();
    let mut i: usize = 0;
    let mut sum: u64 = 0;
    let mut num_val: u64 = 0;
    let mut has_num: bool = false;
    let mut too_big: bool = false;
    let ghost mut num_seq: Seq<char> = Seq::empty();
    proof {
        assert(s@.skip(0) =~= s@);
    }
    while i < len
        invariant
            i <= len,
            len == s@.len(),
            too_big == (digits_val(num_seq) > u64::MAX),
            !too_big ==> num_val == digits_val(num_seq),
            has_num == (num_seq.len() > 0),
            spec_to_duration(s@) == spec_secs_loop(s@.skip(i as int), num_seq, sum as nat),
        decreases len - i,
    {
        let c = s.get_char(i);
        proof {
            assert(s@.skip(i as int).first() == s@[i as int]);
            assert(s@.skip(i as int).drop_first() =~= s@.skip(i as int + 1));
        }
        if (c as u32) >= 48 && (c as u32) <= 57 {
            let d: u64 = ((c as u32) - 48) as u64;
            let wide: u128 = (num_val as u128) * 10 + (d as u128);
            proof {
                assert(num_seq.push(c).drop_last() =~= num_seq);
                assert(digits_val(num_seq.push(c)) == digits_val(num_seq) * 10 + d);
            }
            if too_big || wide > (u64::MAX as u128) {
                too_big = true;
            } else {
                num_val = wide as u64;
            }
            has_num = true;
            proof {
                num_seq = num_seq.push(c);
            }
        } else {
            if !has_num || too_big {
                return Err(ParseError::BadNumber);
            }
            let mult: u64 = if c == 's' {
                1
            } else if c == 'm' {
                60
            } else if c == 'h' {
                3600
            } else if c == 'd' {
                86400
            } else if c == 'w' {
                604800
            } else {
                return Err(ParseError::BadUnit);
            };
            proof {
                lemma_mul_upper_bound(num_val as int, u64::MAX as int, mult as int, 604800);
            }
            let wide: u128 = (sum as u128) + (num_val as u128) * (mult as u128);
            if wide > (u64::MAX as u128) {
                return Err(ParseError::Overflow);
            }
            sum = wide as u64;
            num_val = 0;
            has_num = false;
            proof {
                num_seq = Seq::empty();
            }
        }
        i = i + 1;
    }
    proof {
        assert(s@.skip(len as int) =~= Seq::<char>::empty());
    }
    if !has_num {
        return Ok(sum);
    }
    if too_big {
        return Err(ParseError::BadNumber);
    }
    let wide: u128 = (sum as u128) + (num_val as u128);
    if wide > (u64::MAX as u128) {
        return Err(ParseError::Overflow);
    }
    Ok(wide as u64)
}

/// Bytes per size-unit letter, in either case: binary kilo, mega, giga,
/// tera, peta.
pub open spec fn spec_size_unit(c: char) -> Option<nat> {
    if c == 'k' || c == 'K' {
        Option::Some(1024 as nat)
    } else if c == 'm' || c == 'M' {
        Option::Some(1048576 as nat)
    } else if c == 'g' || c == 'G' {
        Option::Some(1073741824 as nat)
    } else if c == 't' || c == 'T' {
        Option::Some(1099511627776 as nat)
    } else if c == 'p' || c == 'P' {
        Option::Some(1125899906842624 as nat)
    } else {
        Option::None
    }
}

/// The scan of the size grammar, shaped as the seconds one: digits
/// accumulate a number, a unit letter adds `number * unit` bytes, and a
/// trailing bare number adds raw bytes.
pub open spec fn spec_size_loop(s: Seq<char>, num: Seq<char>, sum: nat) -> Result<u64, ParseError>
    recommends
        sum <= u64::MAX,
    decreases s.len(),
{
    if s.len() == 0 {
        if num.len() == 0 {
            Result::Ok(sum as u64)
        } else if digits_val(num) > u64::MAX {
            Result::Err(ParseError::BadNumber)
        } else if sum + digits_val(num) > u64::MAX {
            Result::Err(ParseError::Overflow)
        } else {
            Result::Ok((sum + digits_val(num)) as u64)
        }
    } else {
        let c = s.first();
        if is_digit(c) {
            spec_size_loop(s.drop_first(), num.push(c), sum)
        } else if num.len() == 0 || digits_val(num) > u64::MAX {
            Result::Err(ParseError::BadNumber)
        } else {
            match spec_size_unit(c) {
                Option::None => Result::Err(ParseError::BadUnit),
                Option::Some(mult) => if sum + digits_val(num) * mult > u64::MAX {
                    Result::Err(ParseError::Overflow)
                } else {
                    spec_size_loop(
                        s.drop_first(),
                        Seq::empty(),
                        (sum + digits_val(num) * mult) as nat,
                    )
                },
            }
        }
    }
}

/// What parsing a size string returns.
pub open spec fn spec_to_size(s: Seq<char>) -> Result<u64, ParseError> {
    spec_size_loop(s, Seq::empty(), 0)
}

/// Parse a byte count: a sum of `<number><unit>` tokens with binary units
/// k, m, g, t, p in either case, and an optional trailing bare byte count.
/// For example, "1k512" is 1536. Never panics: a missing or oversized
/// number, an unknown unit, or a sum beyond 64 bits is an error.
pub fn to_size_u64(s: &str) -> (r: Result<u64, ParseError>)
    ensures
        r == spec_to_size(s@),
{
    let len = s.unicode_len();
    let mut i: usize = 0;
    let mut sum: u64 = 0;
    let mut num_val: u64 = 0;
    let mut has_num: bool = false;
    let mut too_big: bool = false;
    let ghost mut num_seq: Seq<char> = Seq::empty();
    proof {
        assert(s@.skip(0) =~= s@);
    }
    while i < len
        invariant
            i <= len,
            len == s@.len(),
            too_big == (digits_val(num_seq) > u64::MAX),
            !too_big ==> num_val == digits_val(num_seq),
            has_num == (num_seq.len() > 0),
            spec_to_size(s@) == spec_size_loop(s@.skip(i as int), num_seq, sum as nat),
        decreases len - i,
    {
        let c = s.get_char(i);
        proof {
            assert(s@.skip(i as int).first() == s@[i as int]);
            assert(s@.skip(i as int).drop_first() =~= s@.skip(i as int + 1));
        }
        if (c as u32) >= 48 && (c as u32) <= 57 {
            let d: u64 = ((c as u32) - 48) as u64;
            let wide: u128 = (num_val as u128) * 10 + (d as u128);
            proof {
                assert(num_seq.push(c).drop_last() =~= num_seq);
                assert(digits_val(num_seq.push(c)) == digits_val(num_seq) * 10 + d);
            }
            if too_big || wide > (u64::MAX as u128) {
                too_big = true;
            } else {
                num_val = wide as u64;
            }
            has_num = true;
            proof {
                num_seq = num_seq.push(c);
            }
        } else {
            if !has_num || too_big {
                return Err(ParseError::BadNumber);
            }
            let mult: u64 = if c == 'k' || c == 'K' {
                1024
            } else if c == 'm' || c == 'M' {
                1048576
            } else if c == 'g' || c == 'G' {
                1073741824
            } else if c == 't' || c == 'T' {
                1099511627776
            } else if c == 'p' || c == 'P' {
                1125899906842624
            } else {
                return Err(ParseError::BadUnit);
            };
            proof {
                lemma_mul_upper_bound(
                    num_val as int,
                    u64::MAX as int,
                    mult as int,
                    1125899906842624,
                );
            }
            let wide: u128 = (sum as u128) + (num_val as u128) * (mult as u128);
            if wide > (u64::MAX as u128) {
                return Err(ParseError::Overflow);
            }
            sum = wide as u64;
            num_val = 0;
            has_num = false;
            proof {
                num_seq = Seq::empty();
            }
        }
        i = i + 1;
    }
    proof {
        assert(s@.skip(len as int) =~= Seq::<char>::empty());
    }
    if !has_num {
        return Ok(sum);
    }
    if too_big {
        return Err(ParseError::BadNumber);
    }
    let wide: u128 = (sum as u128) + (num_val as u128);
    if wide > (u64::MAX as u128) {
        return Err(ParseError::Overflow);
    }
    Ok(wide as u64)
}

/// Nanoseconds per time-unit name of the fine-grained duration grammar:
/// nanoseconds, microseconds, milliseconds, seconds, minutes. A number
/// without a unit counts as whole seconds, so the empty name means seconds
/// too.
pub open spec fn spec_nanos_unit(u: Seq<char>) -> Option<nat> {
    if u.len() == 0 {
        Option::Some(1000000000 as nat)
    } else if u == seq!['n', 's'] {
        Option::Some(1 as nat)
    } else if u == seq!['u', 's'] {
        Option::Some(1000 as nat)
    } else if u == seq!['m', 's'] {
        Option::Some(1000000 as nat)
    } else if u == seq!['s'] {
        Option::Some(1000000000 as nat)
    } else if u == seq!['m'] {
        Option::Some(60000000000 as nat)
    } else {
        Option::None
    }
}

/// The tokens of a fine-grained duration string: maximal digit runs paired
/// with the unit letters that follow them, a new token opening at the first
/// digit after a unit. The trailing pair is always a token, so a string
/// without a trailing unit ends in a token whose unit is empty, and an
/// empty string yields one empty token.
pub open spec fn spec_dur_tokens(
    s: Seq<char>,
    num: Seq<char>,
    unit: Seq<char>,
    have_unit: bool,
) -> Seq<(Seq<char>, Seq<char>)>
    decreases s.len(),
{
    if s.len() == 0 {
        seq![(num, unit)]
    } else {
        let c = s.first();
        if is_digit(c) {
            if have_unit {
                seq![(num, unit)] + spec_dur_tokens(s.drop_first(), seq![c], Seq::empty(), false)
            } else {
                spec_dur_tokens(s.drop_first(), num.push(c), unit, false)
            }
        } else {
            spec_dur_tokens(s.drop_first(), num, unit.push(c), true)
        }
    }
}

/// What one token adds to the running total: its number times its unit, or
/// the error it earns. The number is checked before the unit, so a token
/// with a bad number and a bad unit reports the number.
pub open spec fn spec_dur_token_value(num: Seq<char>, unit: Seq<char>, acc: nat) -> Result<
    u64,
    ParseError,
>
    recommends
        acc <= u64::MAX,
{
    if num.len() == 0 || digits_val(num) > u64::MAX {
        Result::Err(ParseError::BadNumber)
    } else {
        match spec_nanos_unit(unit) {
            Option::None => Result::Err(ParseError::BadUnit),
            Option::Some(mult) => if acc + digits_val(num) * mult > u64::MAX {
                Result::Err(ParseError::Overflow)
            } else {
                Result::Ok((acc + digits_val(num) * mult) as u64)
            },
        }
    }
}

/// The tokens folded onto the accumulator, left to right, stopping at the
/// first error.
pub open spec fn spec_dur_eval(toks: Seq<(Seq<char>, Seq<char>)>, acc: nat) -> Result<
    u64,
    ParseError,
>
    recommends
        acc <= u64::MAX,
    decreases toks.len(),
{
    if toks.len() == 0 {
        Result::Ok(acc as u64)
    } else {
        match spec_dur_token_value(toks.first().0, toks.first().1, acc) {
            Result::Err(e) => Result::Err(e),
            Result::Ok(a) => spec_dur_eval(toks.drop_first(), a as nat),
        }
    }
}

/// What parsing a fine-grained duration string returns, in nanoseconds.
pub open spec fn spec_dur_from_str(s: Seq<char>) -> Result<u64, ParseError> {
    spec_dur_eval(spec_dur_tokens(s, Seq::empty(), Seq::empty(), false), 0)
}

/// One token's value, from the scanner's state: the number and unit it
/// gathered and the total so far.
fn dur_token_value(
    num_val: u64,
    has_num: bool,
    too_big: bool,
    ulen: usize,
    u1: char,
    u2: char,
    tot: u64,
    Ghost(num_seq): Ghost<Seq<char>>,
    Ghost(unit_seq): Ghost<Seq<char>>,
) -> (r: Result<u64, ParseError>)
    requires
        too_big == (digits_val(num_seq) > u64::MAX),
        !too_big ==> num_val == digits_val(num_seq),
        has_num == (num_seq.len() > 0),
        ulen == unit_seq.len(),
        ulen >= 1 ==> u1 == unit_seq[0],
        ulen >= 2 ==> u2 == unit_seq[1],
    ensures
        r == spec_dur_token_value(num_seq, unit_seq, tot as nat),
{
    if !has_num || too_big {
        return Err(ParseError::BadNumber);
    }
    let mult: u64 = if ulen == 0 {
        1000000000
    } else if ulen == 2 && u1 == 'n' && u2 == 's' {
        proof {
            assert(unit_seq =~= seq!['n', 's']);
        }
        1
    } else if ulen == 2 && u1 == 'u' && u2 == 's' {
        proof {
            assert(unit_seq =~= seq!['u', 's']);
        }
        1000
    } else if ulen == 2 && u1 == 'm' && u2 == 's' {
        proof {
            assert(unit_seq =~= seq!['m', 's']);
        }
        1000000
    } else if ulen == 1 && u1 == 's' {
        proof {
            assert(unit_seq =~= seq!['s']);
        }
        1000000000
    } else if ulen == 1 && u1 == 'm' {
        proof {
            assert(unit_seq =~= seq!['m']);
        }
        60000000000
    } else {
        proof {
            assert(spec_nanos_unit(unit_seq) is None);
        }
        return Err(ParseError::BadUnit);
    };
    proof {
        lemma_mul_upper_bound(num_val as int, u64::MAX as int, mult as int, 60000000000);
    }
    let wide: u128 = (tot as u128) + (num_val as u128) * (mult as u128);
    if wide > (u64::MAX as u128) {
        return Err(ParseError::Overflow);
    }
    Ok(wide as u64)
}

/// Parse a fine-grained duration into nanoseconds: a run of
/// `<number><unit>` tokens with units ns, us, ms, s, m, as in "100ms500us".
/// A trailing bare number counts as whole seconds, so "5" is five seconds.
/// Never panics: a missing or oversized number, an unknown unit, or a sum
/// beyond 64 bits is an error.
pub fn dur_from_str(s: &str) -> (r: Result<u64, ParseError>)
    ensures
        r == spec_dur_from_str(s@),
{
    let len = s.unicode_len();
    let mut i: usize = 0;
    let mut tot: u64 = 0;
    let mut num_val: u64 = 0;
    let mut has_num: bool = false;
    let mut too_big: bool = false;
    let mut ulen: usize = 0;
    let mut u1: char = ' ';
    let mut u2: char = ' ';
    let mut have_unit: bool = false;
    let ghost mut num_seq: Seq<char> = Seq::empty();
    let ghost mut unit_seq: Seq<char> = Seq::empty();
    proof {
        assert(s@.skip(0) =~= s@);
    }
    while i < len
        invariant
            i <= len,
            len == s@.len(),
            too_big == (digits_val(num_seq) > u64::MAX),
            !too_big ==> num_val == digits_val(num_seq),
            has_num == (num_seq.len() > 0),
            ulen == unit_seq.len(),
            ulen <= i,
            ulen >= 1 ==> u1 == unit_seq[0],
            ulen >= 2 ==> u2 == unit_seq[1],
            spec_dur_from_str(s@) == spec_dur_eval(
                spec_dur_tokens(s@.skip(i as int), num_seq, unit_seq, have_unit),
                tot as nat,
            ),
        decreases len - i,
    {
        let c = s.get_char(i);
        proof {
            assert(s@.skip(i as int).first() == s@[i as int]);
            assert(s@.skip(i as int).drop_first() =~= s@.skip(i as int + 1));
        }
        if (c as u32) >= 48 && (c as u32) <= 57 {
            let d: u64 = ((c as u32) - 48) as u64;
            if have_unit {
                let ghost toks = spec_dur_tokens(
                    s@.skip(i as int + 1),
                    seq![c],
                    Seq::empty(),
                    false,
                );
                proof {
                    assert((seq![(num_seq, unit_seq)] + toks).first() == (num_seq, unit_seq));
                    assert((seq![(num_seq, unit_seq)] + toks).drop_first() =~= toks);
                }
                let v = dur_token_value(
                    num_val,
                    has_num,
                    too_big,
                    ulen,
                    u1,
                    u2,
                    tot,
                    Ghost(num_seq),
                    Ghost(unit_seq),
                );
                match v {
                    Err(e) => {
                        return Err(e);
                    },
                    Ok(t2) => {
                        tot = t2;
                    },
                }
                proof {
                    assert(seq![c].drop_last() =~= Seq::<char>::empty());
                    assert(digits_val(seq![c]) == digits_val(Seq::<char>::empty()) * 10
                        + digit_val(c));
                    assert(digits_val(seq![c]) == d);
                    num_seq = seq![c];
                    unit_seq = Seq::empty();
                }
                num_val = d;
                has_num = true;
                too_big = false;
                ulen = 0;
                have_unit = false;
            } else {
                let wide: u128 = (num_val as u128) * 10 + (d as u128);
                proof {
                    assert(num_seq.push(c).drop_last() =~= num_seq);
                    assert(digits_val(num_seq.push(c)) == digits_val(num_seq) * 10 + d);
                }
                if too_big || wide > (u64::MAX as u128) {
                    too_big = true;
                } else {
                    num_val = wide as u64;
                }
                has_num = true;
                proof {
                    num_seq = num_seq.push(c);
                }
            }
        } else {
            proof {
                assert(unit_seq.push(c).len() == unit_seq.len() + 1);
            }
            if ulen == 0 {
                u1 = c;
            } else if ulen == 1 {
                u2 = c;
            }
            ulen = ulen + 1;
            have_unit = true;
            proof {
                unit_seq = unit_seq.push(c);
            }
        }
        i = i + 1;
    }
    proof {
        assert(s@.skip(len as int) =~= Seq::<char>::empty());
        assert(spec_dur_tokens(s@.skip(len as int), num_seq, unit_seq, have_unit) == seq![
            (num_seq, unit_seq),
        ]);
        assert(seq![(num_seq, unit_seq)].first() == (num_seq, unit_seq));
        assert(seq![(num_seq, unit_seq)].drop_first() =~= Seq::<(Seq<char>, Seq<char>)>::empty());
    }
    let v = dur_token_value(
        num_val,
        has_num,
        too_big,
        ulen,
        u1,
        u2,
        tot,
        Ghost(num_seq),
        Ghost(unit_seq),
    );
    match v {
        Err(e) => Err(e),
        Ok(t2) => {
            proof {
                assert(spec_dur_eval(Seq::<(Seq<char>, Seq<char>)>::empty(), t2 as nat)
                    == Result::<u64, ParseError>::Ok(t2));
            }
            Ok(t2)
        },
    }
}

/// Parse a byte count into a `usize`, truncating on a platform whose
/// `usize` is narrower than 64 bits, as a plain cast does.
pub fn to_size_usize(s: &str) -> (r: Result<usize, ParseError>)
    ensures
        (match spec_to_size(s@) {
            Result::Ok(v) => r == Result::<usize, ParseError>::Ok(v as usize),
            Result::Err(e) => r == Result::<usize, ParseError>::Err(e),
        }),
{
    match to_size_u64(s) {
        Ok(v) => Ok(#[verifier::truncate] (v as usize)),
        Err(e) => Err(e),
    }
}

} // verus!
