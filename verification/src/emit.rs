//! Escape-sequence emission into a caller-supplied output buffer: cursor
//! positioning, full-screen clear, and attribute reset.

use vstd::prelude::*;
use vstd::string::StringExecFns;

verus! {

/// The decimal digit character for `d`.
pub open spec fn digit_char(d: int) -> char {
    if d == 0 {
        '0'
    } else if d == 1 {
        '1'
    } else if d == 2 {
        '2'
    } else if d == 3 {
        '3'
    } else if d == 4 {
        '4'
    } else if d == 5 {
        '5'
    } else if d == 6 {
        '6'
    } else if d == 7 {
        '7'
    } else if d == 8 {
        '8'
    } else {
        '9'
    }
}

/// The decimal digits of a non-negative integer, most significant first,
/// without a sign and without leading zeros (`0` itself is one digit).
pub open spec fn dec_digits(n: int) -> Seq<char>
    recommends
        n >= 0,
    decreases n,
{
    if n < 10 {
        seq![digit_char(n)]
    } else {
        dec_digits(n / 10).push(digit_char(n % 10))
    }
}

/// The decimal rendering of an integer: a leading `'-'` for a negative
/// value, then its digits.
pub open spec fn dec_int(v: int) -> Seq<char> {
    if v < 0 {
        seq!['-'] + dec_digits(-v)
    } else {
        dec_digits(v)
    }
}

/// The cursor-position sequence for a (1-based) column and row.
pub open spec fn spec_move_to(col: int, row: int) -> Seq<char> {
    seq!['\u{1b}', '['] + dec_int(row) + seq![';'] + dec_int(col) + seq!['H']
}

/// The full-screen clear sequence.
pub open spec fn spec_clear_console() -> Seq<char> {
    seq!['\u{1b}', 'c']
}

/// The attribute-reset sequence.
pub open spec fn spec_clear_attr() -> Seq<char> {
    seq!['\u{1b}', '[', '0', 'm']
}

/// Relies on `String::push`: appends the given character to the end of the
/// string.
#[verifier::external_body]
pub fn push_char(out: &mut String, c: char)
    ensures
        final(out)@ == old(out)@.push(c),
{
    out.push(c)
}

fn digit_to_char(d: u64) -> (c: char)
    requires
        d < 10,
    ensures
        c == digit_char(d as int),
{
    match d {
        0 => '0',
        1 => '1',
        2 => '2',
        3 => '3',
        4 => '4',
        5 => '5',
        6 => '6',
        7 => '7',
        8 => '8',
        _ => '9',
    }
}

fn append_dec_u64(out: &mut String, v: u64)
    ensures
        final(out)@ == old(out)@ + dec_digits(v as int),
{
    let mut digits: Vec<char> = Vec::new();
    digits.push(digit_to_char(v % 10));
    let mut n: u64 = v / 10;
    proof {
        assert(digits@.reverse() =~= seq![digit_char(v as int % 10)]);
        if v < 10 {
            assert(v as int % 10 == v as int);
        }
    }
    while n > 0
        invariant
            n > 0 ==> dec_digits(v as int) == dec_digits(n as int) + digits@.reverse(),
            n == 0 ==> dec_digits(v as int) == digits@.reverse(),
        decreases n,
    {
        let ghost pre = digits@;
        let ghost m = n as int;
        digits.push(digit_to_char(n % 10));
        n = n / 10;
        proof {
            assert(digits@.reverse() =~= seq![digit_char(m % 10)] + pre.reverse());
            if m >= 10 {
                assert(dec_digits(m) + pre.reverse() =~= dec_digits(m / 10) + digits@.reverse());
            } else {
                assert(m % 10 == m && m / 10 == 0);
                assert(dec_digits(m) + pre.reverse() =~= digits@.reverse());
            }
        }
    }
    let mut j: usize = digits.len();
    while j > 0
        invariant
            j <= digits@.len(),
            out@ == old(out)@ + digits@.reverse().take(digits@.len() - j),
        decreases j,
    {
        j = j - 1;
        push_char(out, digits[j]);
        proof {
            assert(digits@.reverse()[digits@.len() - j - 1] == digits@[j as int]);
            assert(out@ =~= old(out)@ + digits@.reverse().take(digits@.len() - j));
        }
    }
    proof {
        assert(digits@.reverse().take(digits@.len() as int) =~= digits@.reverse());
    }
}

fn append_dec_i64(out: &mut String, v: i64)
    requires
        v > i64::MIN,
    ensures
        final(out)@ == old(out)@ + dec_int(v as int),
{
    if v < 0 {
        push_char(out, '-');
        append_dec_u64(out, (-v) as u64);
        proof {
            assert(out@ =~= old(out)@ + dec_int(v as int));
        }
    } else {
        append_dec_u64(out, v as u64);
    }
}

/// Appends the cursor-position sequence for the given (1-based) column and
/// row to the output buffer.
pub fn move_to(out: &mut String, col: i64, row: i64)
    requires
        col > i64::MIN,
        row > i64::MIN,
    ensures
        final(out)@ == old(out)@ + spec_move_to(col as int, row as int),
{
    proof {
        reveal_strlit("\u{1b}[");
        reveal_strlit(";");
        reveal_strlit("H");
    }
    out.append("\u{1b}[");
    append_dec_i64(out, row);
    out.append(";");
    append_dec_i64(out, col);
    out.append("H");
    proof {
        assert(out@ =~= old(out)@ + spec_move_to(col as int, row as int));
    }
}

/// Appends the full-screen clear sequence to the output buffer.
pub fn clear_console(out: &mut String)
    ensures
        final(out)@ == old(out)@ + spec_clear_console(),
{
    proof {
        reveal_strlit("\u{1b}c");
    }
    out.append("\u{1b}c");
    proof {
        assert(out@ =~= old(out)@ + spec_clear_console());
    }
}

/// Appends the attribute-reset sequence to the output buffer.
pub fn clear_attr(out: &mut String)
    ensures
        final(out)@ == old(out)@ + spec_clear_attr(),
{
    proof {
        reveal_strlit("\u{1b}[0m");
    }
    out.append("\u{1b}[0m");
    proof {
        assert(out@ =~= old(out)@ + spec_clear_attr());
    }
}

} // verus!
