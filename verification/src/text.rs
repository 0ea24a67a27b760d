//! Rendering for the reporter's log lines: durations in a magnitude-suffixed
//! human form, and error text collapsed to one line.

use vstd::arithmetic::div_mod::lemma_fundamental_div_mod;
use vstd::prelude::*;
use vstd::string::StringExecFns;
use vstd::string::StrSliceExecFns;

verus! {

/// Relies on `String::push`: appends exactly the one character at the end.
#[verifier::external_body]
fn push_char(s: &mut String, c: char)
    ensures
        final(s)@ == old(s)@.push(c),
{
    s.push(c);
}

/// The character of one decimal digit value.
pub open spec fn digit_char(d: nat) -> char
    recommends
        d < 10,
{
    if d == 0 {
        '0'
    } else if d == 1 {
        '1'
    } else if d == 2 {
        '2'
    } else if d == 3 {
        '3'
    } else if d == 4 {
        '4'
    } else if d == 5 {
        '5'
    } else if d == 6 {
        '6'
    } else if d == 7 {
        '7'
    } else if d == 8 {
        '8'
    } else {
        '9'
    }
}

/// The decimal digits of a number, most significant first, without a sign
/// and without leading zeroes (a lone zero for zero).
pub open spec fn dec_digits(n: nat) -> Seq<char>
    decreases n,
{
    if n < 10 {
        seq![digit_char(n)]
    } else {
        dec_digits(n / 10) + seq![digit_char(n % 10)]
    }
}

/// Append one decimal digit.
fn push_digit(s: &mut String, d: u64)
    requires
        d < 10,
    ensures
        final(s)@ == old(s)@.push(digit_char(d as nat)),
{
    let c: char = if d == 0 {
        '0'
    } else if d == 1 {
        '1'
    } else if d == 2 {
        '2'
    } else if d == 3 {
        '3'
    } else if d == 4 {
        '4'
    } else if d == 5 {
        '5'
    } else if d == 6 {
        '6'
    } else if d == 7 {
        '7'
    } else if d == 8 {
        '8'
    } else {
        '9'
    };
    push_char(s, c);
}

/// Append the decimal digits of a number.
fn push_u64_decimal(s: &mut String, n: u64)
    ensures
        final(s)@ == old(s)@ + dec_digits(n as nat),
    decreases n,
{
    if n >= 10 {
        push_u64_decimal(s, n / 10);
        push_digit(s, n % 10);
        proof {
            assert(final(s)@ =~= old(s)@ + dec_digits(n as nat));
        }
    } else {
        push_digit(s, n);
        proof {
            assert(final(s)@ =~= old(s)@ + dec_digits(n as nat));
        }
    }
}

/// The report's units, largest first: seconds, milliseconds, microseconds,
/// nanoseconds, each with its suffix.
pub open spec fn time_units() -> Seq<(nat, Seq<char>)> {
    seq![
        (1000000000 as nat, "s"@),
        (1000000 as nat, "ms"@),
        (1000 as nat, "u"@),
        (1 as nat, "ns"@),
    ]
}

/// The base of one unit.
fn unit_base(i: usize) -> (r: u64)
    requires
        i < 4,
    ensures
        r as nat == time_units()[i as int].0,
        r >= 1,
{
    if i == 0 {
        1000000000
    } else if i == 1 {
        1000000
    } else if i == 2 {
        1000
    } else {
        1
    }
}

/// The suffix of one unit.
fn unit_suffix(i: usize) -> (r: &'static str)
    requires
        i < 4,
    ensures
        r@ == time_units()[i as int].1,
{
    if i == 0 {
        "s"
    } else if i == 1 {
        "ms"
    } else if i == 2 {
        "u"
    } else {
        "ns"
    }
}

/// The greedy unit decomposition of a nanosecond count with a precision
/// budget: each unit whose base the remaining count strictly exceeds
/// contributes `<multiple><suffix>` and leaves the remainder to the smaller
/// units; the budget only shrinks when the contributed value is below 11,
/// and an exhausted budget stops the scan.
pub open spec fn spec_human(num: nat, prec: int, units: Seq<(nat, Seq<char>)>) -> Seq<char>
    decreases units.len(),
{
    if units.len() == 0 {
        Seq::empty()
    } else {
        let base = units.first().0;
        let suffix = units.first().1;
        if base > 0 && num > base {
            let m = num / base;
            let rest = (num - m * base) as nat;
            let p2 = if m * base < 11 {
                prec - 1
            } else {
                prec
            };
            let piece = dec_digits(m) + suffix;
            if p2 <= 0 {
                piece
            } else {
                piece + spec_human(rest, p2, units.drop_first())
            }
        } else {
            spec_human(num, prec, units.drop_first())
        }
    }
}

/// Append the human form of the units from index `i` on.
fn human_rec(out: &mut String, num: u64, prec: u32, i: usize)
    requires
        i <= 4,
        prec >= 1,
    ensures
        final(out)@ == old(out)@ + spec_human(
            num as nat,
            prec as int,
            time_units().skip(i as int),
        ),
    decreases 4 - i,
{
    let ghost us = time_units().skip(i as int);
    if i == 4 {
        proof {
            assert(us =~= Seq::<(nat, Seq<char>)>::empty());
            assert(old(out)@ + spec_human(num as nat, prec as int, us) =~= old(out)@);
        }
        return ;
    }
    proof {
        assert(us.first() == time_units()[i as int]);
        assert(us.drop_first() =~= time_units().skip(i as int + 1));
    }
    let base = unit_base(i);
    let sfx = unit_suffix(i);
    if num > base {
        let m = num / base;
        proof {
            lemma_fundamental_div_mod(num as int, base as int);
        }
        let this_num = m * base;
        let rest = num - this_num;
        let mut p2 = prec;
        if this_num < 11 {
            p2 = p2 - 1;
        }
        push_u64_decimal(out, m);
        out.append(sfx);
        if p2 == 0 {
            proof {
                assert(final(out)@ =~= old(out)@ + spec_human(num as nat, prec as int, us));
            }
            return ;
        }
        human_rec(out, rest, p2, i + 1);
        proof {
            assert(final(out)@ =~= old(out)@ + spec_human(num as nat, prec as int, us));
        }
    } else {
        human_rec(out, num, prec, i + 1);
    }
}

/// Render a nanosecond count in the reporter's human form, for example
/// "1s234ms" for 1234000000 with the precision the scan's budget allows.
/// A zero budget is excluded: the scan would treat it as exhausted before
/// it starts.
pub fn duration_to_human(nanos: u64, prec: u32) -> (r: String)
    requires
        prec >= 1,
    ensures
        r@ == spec_human(nanos as nat, prec as int, time_units()),
{
    let mut out = String::new();
    proof {
        assert(time_units().skip(0) =~= time_units());
    }
    human_rec(&mut out, nanos, prec, 0);
    proof {
        assert(out@ =~= spec_human(nanos as nat, prec as int, time_units()));
    }
    out
}

/// The greedy unit decomposition whose budget shrinks with every
/// contributed piece: at most `prec` pieces are rendered.
pub open spec fn spec_display(num: nat, prec: int, units: Seq<(nat, Seq<char>)>) -> Seq<char>
    decreases units.len(),
{
    if units.len() == 0 {
        Seq::empty()
    } else {
        let base = units.first().0;
        let suffix = units.first().1;
        if base > 0 && num > base {
            let m = num / base;
            let rest = (num - m * base) as nat;
            let piece = dec_digits(m) + suffix;
            if prec - 1 <= 0 {
                piece
            } else {
                piece + spec_display(rest, prec - 1, units.drop_first())
            }
        } else {
            spec_display(num, prec, units.drop_first())
        }
    }
}

/// Append the piece-counted form of the units from index `i` on.
fn display_rec(out: &mut String, num: u64, prec: u32, i: usize)
    requires
        i <= 4,
        prec >= 1,
    ensures
        final(out)@ == old(out)@ + spec_display(
            num as nat,
            prec as int,
            time_units().skip(i as int),
        ),
    decreases 4 - i,
{
    let ghost us = time_units().skip(i as int);
    if i == 4 {
        proof {
            assert(us =~= Seq::<(nat, Seq<char>)>::empty());
            assert(old(out)@ + spec_display(num as nat, prec as int, us) =~= old(out)@);
        }
        return ;
    }
    proof {
        assert(us.first() == time_units()[i as int]);
        assert(us.drop_first() =~= time_units().skip(i as int + 1));
    }
    let base = unit_base(i);
    let sfx = unit_suffix(i);
    if num > base {
        let m = num / base;
        proof {
            lemma_fundamental_div_mod(num as int, base as int);
        }
        let rest = num - m * base;
        let p2 = prec - 1;
        push_u64_decimal(out, m);
        out.append(sfx);
        if p2 == 0 {
            proof {
                assert(final(out)@ =~= old(out)@ + spec_display(num as nat, prec as int, us));
            }
            return ;
        }
        display_rec(out, rest, p2, i + 1);
        proof {
            assert(final(out)@ =~= old(out)@ + spec_display(num as nat, prec as int, us));
        }
    } else {
        display_rec(out, num, prec, i + 1);
    }
}

/// Render a nanosecond count with at most `prec` unit pieces, the form the
/// shell's display wrapper prints, for example "1s234ms" for 1234567890
/// with two pieces.
pub fn duration_display(nanos: u64, prec: u32) -> (r: String)
    requires
        prec >= 1,
    ensures
        r@ == spec_display(nanos as nat, prec as int, time_units()),
{
    let mut out = String::new();
    proof {
        assert(time_units().skip(0) =~= time_units());
    }
    display_rec(&mut out, nanos, prec, 0);
    proof {
        assert(out@ =~= spec_display(nanos as nat, prec as int, time_units()));
    }
    out
}

/// Newlines replaced by spaces, position by position.
pub open spec fn spec_replace_nl(s: Seq<char>) -> Seq<char> {
    s.map(
        |i: int, c: char|
            if c == '\n' {
                ' '
            } else {
                c
            },
    )
}

/// Runs of four spaces collapsed to one, scanning left to right without
/// overlap.
pub open spec fn spec_collapse_spaces(s: Seq<char>) -> Seq<char>
    decreases s.len(),
{
    if s.len() == 0 {
        Seq::empty()
    } else if s.len() >= 4 && s[0] == ' ' && s[1] == ' ' && s[2] == ' ' && s[3] == ' ' {
        seq![' '] + spec_collapse_spaces(s.skip(4))
    } else {
        seq![s.first()] + spec_collapse_spaces(s.drop_first())
    }
}

/// Error text flattened to one log line: every newline becomes a space, and
/// every run of four spaces collapses to one.
pub open spec fn spec_single_line(s: Seq<char>) -> Seq<char> {
    spec_collapse_spaces(spec_replace_nl(s))
}

/// Flatten error text to one line for the log stream: newlines become
/// spaces, then runs of four spaces (the indentation of multi-line error
/// detail) collapse to single spaces.
pub fn single_line_error(s: &str) -> (r: String)
    ensures
        r@ == spec_single_line(s@),
{
    let len = s.unicode_len();
    let mut t = String::new();
    let mut i: usize = 0;
    while i < len
        invariant
            i <= len,
            len == s@.len(),
            t@ == spec_replace_nl(s@).take(i as int),
        decreases len - i,
    {
        let c = s.get_char(i);
        if c == '\n' {
            push_char(&mut t, ' ');
        } else {
            push_char(&mut t, c);
        }
        proof {
            assert(t@ =~= spec_replace_nl(s@).take(i as int + 1));
        }
        i = i + 1;
    }
    proof {
        assert(spec_replace_nl(s@).take(len as int) =~= spec_replace_nl(s@));
    }
    let ghost u = spec_replace_nl(s@);
    let tlen = t.unicode_len();
    let mut out = String::new();
    let mut j: usize = 0;
    proof {
        assert(u.skip(0) =~= u);
    }
    while j < tlen
        invariant
            j <= tlen,
            tlen == t@.len(),
            t@ == u,
            spec_single_line(s@) == out@ + spec_collapse_spaces(u.skip(j as int)),
        decreases tlen - j,
    {
        let ghost w = u.skip(j as int);
        proof {
            assert(w.len() == tlen - j);
        }
        if tlen - j >= 4 {
            let c0 = t.as_str().get_char(j);
            let c1 = t.as_str().get_char(j + 1);
            let c2 = t.as_str().get_char(j + 2);
            let c3 = t.as_str().get_char(j + 3);
            if c0 == ' ' && c1 == ' ' && c2 == ' ' && c3 == ' ' {
                push_char(&mut out, ' ');
                proof {
                    assert(w.skip(4) =~= u.skip(j as int + 4));
                    assert(spec_single_line(s@) =~= out@ + spec_collapse_spaces(
                        u.skip(j as int + 4),
                    ));
                }
                j = j + 4;
            } else {
                push_char(&mut out, c0);
                proof {
                    assert(w.drop_first() =~= u.skip(j as int + 1));
                    assert(spec_single_line(s@) =~= out@ + spec_collapse_spaces(
                        u.skip(j as int + 1),
                    ));
                }
                j = j + 1;
            }
        } else {
            let c = t.as_str().get_char(j);
            push_char(&mut out, c);
            proof {
                assert(w.drop_first() =~= u.skip(j as int + 1));
                assert(spec_single_line(s@) =~= out@ + spec_collapse_spaces(u.skip(j as int + 1)));
            }
            j = j + 1;
        }
    }
    proof {
        assert(u.skip(tlen as int) =~= Seq::<char>::empty());
    }
    out
}

} // verus!
