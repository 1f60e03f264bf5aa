//! The coordinate read-out of the status overlay: a position is shown as
//! `(xE, yN)`, each axis as the rounded magnitude followed by the compass
//! direction its sign points to.

use vstd::prelude::*;
use vstd::string::StringExecFns;

verus! {

/// The decimal digit character for `d < 10`.
pub open spec fn digit_char(d: nat) -> char {
    if d == 0 {
        '0'
    } else if d == 1 {
        '1'
    } else if d == 2 {
        '2'
    } else if d == 3 {
        '3'
    } else if d == 4 {
        '4'
    } else if d == 5 {
        '5'
    } else if d == 6 {
        '6'
    } else if d == 7 {
        '7'
    } else if d == 8 {
        '8'
    } else {
        '9'
    }
}

/// The decimal digits of `n`, most significant first, with no leading
/// zeros (a single `0` for zero).
pub open spec fn decimal_digits(n: nat) -> Seq<char>
    decreases n,
{
    if n < 10 {
        seq![digit_char(n)]
    } else {
        decimal_digits(n / 10) + seq![digit_char(n % 10)]
    }
}

/// One digit as a string slice.
fn digit_str(d: u64) -> (s: &'static str)
    requires
        d < 10,
    ensures
        s@ == seq![digit_char(d as nat)],
{
    let s: &'static str = match d {
        0 => "0",
        1 => "1",
        2 => "2",
        3 => "3",
        4 => "4",
        5 => "5",
        6 => "6",
        7 => "7",
        8 => "8",
        _ => "9",
    };
    proof {
        reveal_strlit("0");
        reveal_strlit("1");
        reveal_strlit("2");
        reveal_strlit("3");
        reveal_strlit("4");
        reveal_strlit("5");
        reveal_strlit("6");
        reveal_strlit("7");
        reveal_strlit("8");
        reveal_strlit("9");
        assert(s@ =~= seq![digit_char(d as nat)]);
    }
    s
}

/// `n` in decimal.
pub fn format_u64(n: u64) -> (s: String)
    ensures
        s@ == decimal_digits(n as nat),
    decreases n,
{
    if n < 10 {
        let mut s = String::new();
        s.append(digit_str(n));
        proof {
            assert(s@ =~= decimal_digits(n as nat));
        }
        s
    } else {
        let mut s = format_u64(n / 10);
        s.append(digit_str(n % 10));
        proof {
            assert(s@ =~= decimal_digits(n as nat));
        }
        s
    }
}

/// The label of one axis: the rounded magnitude followed by the compass
/// direction of the sign.
pub open spec fn coordinate_label(mag: nat, non_negative: bool, pos: char, neg: char) -> Seq<
    char,
> {
    decimal_digits(mag) + seq![
        if non_negative {
            pos
        } else {
            neg
        },
    ]
}

/// The full position read-out `(xE, yN)`: east/west for the first axis,
/// north/south for the second, by the signs.
pub open spec fn position_label(
    x_mag: nat,
    x_non_negative: bool,
    y_mag: nat,
    y_non_negative: bool,
) -> Seq<char> {
    seq!['('] + coordinate_label(x_mag, x_non_negative, 'E', 'W') + seq![',', ' ']
        + coordinate_label(y_mag, y_non_negative, 'N', 'S') + seq![')']
}

/// The east/west label of the first axis, from the rounded magnitude and
/// the sign of the coordinate.
pub fn fmt_coordinate_east_west(mag: u64, non_negative: bool) -> (s: String)
    ensures
        s@ == coordinate_label(mag as nat, non_negative, 'E', 'W'),
{
    let mut s = format_u64(mag);
    if non_negative {
        s.append("E");
    } else {
        s.append("W");
    }
    proof {
        reveal_strlit("E");
        reveal_strlit("W");
        assert(s@ =~= coordinate_label(mag as nat, non_negative, 'E', 'W'));
    }
    s
}

/// The north/south label of the second axis, from the rounded magnitude
/// and the sign of the coordinate.
pub fn fmt_coordinate_north_south(mag: u64, non_negative: bool) -> (s: String)
    ensures
        s@ == coordinate_label(mag as nat, non_negative, 'N', 'S'),
{
    let mut s = format_u64(mag);
    if non_negative {
        s.append("N");
    } else {
        s.append("S");
    }
    proof {
        reveal_strlit("N");
        reveal_strlit("S");
        assert(s@ =~= coordinate_label(mag as nat, non_negative, 'N', 'S'));
    }
    s
}

/// The position read-out `(xE, yN)` from the rounded magnitudes and signs
/// of the two coordinates.
pub fn fmt_position(x_mag: u64, x_non_negative: bool, y_mag: u64, y_non_negative: bool) -> (s:
    String)
    ensures
        s@ == position_label(x_mag as nat, x_non_negative, y_mag as nat, y_non_negative),
{
    let mut s = String::new();
    s.append("(");
    let x = fmt_coordinate_east_west(x_mag, x_non_negative);
    s.append(x.as_str());
    s.append(", ");
    let y = fmt_coordinate_north_south(y_mag, y_non_negative);
    s.append(y.as_str());
    s.append(")");
    proof {
        reveal_strlit("(");
        reveal_strlit(", ");
        reveal_strlit(")");
        assert(s@ =~= position_label(x_mag as nat, x_non_negative, y_mag as nat, y_non_negative));
    }
    s
}

} // verus!
