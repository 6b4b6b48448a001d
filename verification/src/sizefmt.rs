use vstd::prelude::*;
use vstd::string::StringExecFns;
use vstd::arithmetic::div_mod::lemma_hoist_over_denominator;

verus! {

pub open spec fn dec_digit_char(d: int) -> char {
    if d == 0 {
        '0'
    } else if d == 1 {
        '1'
    } else if d == 2 {
        '2'
    } else if d == 3 {
        '3'
    } else if d == 4 {
        '4'
    } else if d == 5 {
        '5'
    } else if d == 6 {
        '6'
    } else if d == 7 {
        '7'
    } else if d == 8 {
        '8'
    } else {
        '9'
    }
}

/// The decimal digits of `n`, most significant first.
pub open spec fn dec_seq(n: nat) -> Seq<char>
    decreases n,
{
    if n < 10 {
        seq![dec_digit_char(n as int)]
    } else {
        dec_seq(n / 10) + seq![dec_digit_char((n % 10) as int)]
    }
}

/// A value in hundredths rendered with two decimals: whole part, a point,
/// then exactly two digits.
pub open spec fn two_decimals(h: nat) -> Seq<char> {
    dec_seq(h / 100) + seq!['.', dec_digit_char(((h / 10) % 10) as int), dec_digit_char(
        (h % 10) as int,
    )]
}

/// A byte count as a human-readable size: bytes below 1000, otherwise
/// kilo-, mega- or gigabytes with two decimals, rounded half up, under
/// decimal (powers of 1000) units.
pub open spec fn format_size_spec(n: nat) -> Seq<char> {
    if n < 1000 {
        dec_seq(n) + seq!['B']
    } else if n < 1000000 {
        two_decimals((n + 5) / 10) + seq!['K', 'B']
    } else if n < 1000000000 {
        two_decimals((n + 5000) / 10000) + seq!['M', 'B']
    } else {
        two_decimals((n + 5000000) / 10000000) + seq!['G', 'B']
    }
}

fn append_digit(s: &mut String, d: u8)
    requires
        d < 10,
    ensures
        final(s)@ == old(s)@ + seq![dec_digit_char(d as int)],
{
    match d {
        0 => {
            proof {
                reveal_strlit("0");
            }
            s.append("0");
        },
        1 => {
            proof {
                reveal_strlit("1");
            }
            s.append("1");
        },
        2 => {
            proof {
                reveal_strlit("2");
            }
            s.append("2");
        },
        3 => {
            proof {
                reveal_strlit("3");
            }
            s.append("3");
        },
        4 => {
            proof {
                reveal_strlit("4");
            }
            s.append("4");
        },
        5 => {
            proof {
                reveal_strlit("5");
            }
            s.append("5");
        },
        6 => {
            proof {
                reveal_strlit("6");
            }
            s.append("6");
        },
        7 => {
            proof {
                reveal_strlit("7");
            }
            s.append("7");
        },
        8 => {
            proof {
                reveal_strlit("8");
            }
            s.append("8");
        },
        _ => {
            proof {
                reveal_strlit("9");
            }
            s.append("9");
        },
    }
    proof {
        assert(s@ =~= old(s)@ + seq![dec_digit_char(d as int)]);
    }
}

fn push_decimal(s: &mut String, n: usize)
    ensures
        final(s)@ == old(s)@ + dec_seq(n as nat),
    decreases n,
{
    if n < 10 {
        append_digit(s, n as u8);
    } else {
        push_decimal(s, n / 10);
        append_digit(s, (n % 10) as u8);
        proof {
            assert(s@ =~= old(s)@ + dec_seq(n as nat));
        }
    }
}

fn push_two_decimals(s: &mut String, h: usize)
    ensures
        final(s)@ == old(s)@ + two_decimals(h as nat),
{
    push_decimal(s, h / 100);
    proof {
        reveal_strlit(".");
    }
    s.append(".");
    append_digit(s, ((h / 10) % 10) as u8);
    append_digit(s, (h % 10) as u8);
    proof {
        assert(s@ =~= old(s)@ + two_decimals(h as nat));
    }
}

/// Renders a byte count for display: plain bytes below 1000, otherwise two
/// decimals of the matching decimal unit.
pub fn format_size(size_in_bytes: usize) -> (r: String)
    ensures
        r@ == format_size_spec(size_in_bytes as nat),
{
    let n = size_in_bytes;
    let mut s = String::new();
    if n < 1000 {
        push_decimal(&mut s, n);
        proof {
            reveal_strlit("B");
        }
        s.append("B");
        assert(s@ =~= format_size_spec(n as nat));
    } else if n < 1000000 {
        push_two_decimals(&mut s, (n + 5) / 10);
        proof {
            reveal_strlit("KB");
        }
        s.append("KB");
        assert(s@ =~= format_size_spec(n as nat));
    } else if n < 1000000000 {
        push_two_decimals(&mut s, (n + 5000) / 10000);
        proof {
            reveal_strlit("MB");
        }
        s.append("MB");
        assert(s@ =~= format_size_spec(n as nat));
    } else {
        let q = n / 10000000;
        let rem = n % 10000000;
        let h = q + (rem + 5000000) / 10000000;
        proof {
            lemma_hoist_over_denominator(rem as int + 5000000, q as int, 10000000nat);
            assert(h as int == (n as int + 5000000) / 10000000);
        }
        push_two_decimals(&mut s, h);
        proof {
            reveal_strlit("GB");
        }
        s.append("GB");
        assert(s@ =~= format_size_spec(n as nat));
    }
    s
}

} // verus!
