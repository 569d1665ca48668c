//! Exact decimal rendering of integers and fixed-point quantities. A value
//! carried as `n` parts of `1/scale` is printed as its integer part and, when
//! the remainder is not zero, a point and the fraction digits with trailing
//! zeros trimmed — the shortest exact decimal form.
use vstd::prelude::*;
use vstd::string::StringExecFns;

verus! {

pub open spec fn digit_char(d: nat) -> char {
    if d == 0 {
        '0'
    } else if d == 1 {
        '1'
    } else if d == 2 {
        '2'
    } else if d == 3 {
        '3'
    } else if d == 4 {
        '4'
    } else if d == 5 {
        '5'
    } else if d == 6 {
        '6'
    } else if d == 7 {
        '7'
    } else if d == 8 {
        '8'
    } else {
        '9'
    }
}

/// The decimal digits of `n`, most significant first.
pub open spec fn dec_chars(n: nat) -> Seq<char>
    decreases n,
{
    if n < 10 {
        seq![digit_char(n)]
    } else {
        dec_chars(n / 10) + seq![digit_char(n % 10)]
    }
}

/// A power of ten.
pub open spec fn is_pow10(s: nat) -> bool
    decreases s,
{
    s == 1 || (s % 10 == 0 && s > 0 && is_pow10(s / 10))
}

/// The fraction digits of `f` parts of `1/scale`, trailing zeros trimmed.
pub open spec fn frac_digits(f: nat, scale: nat) -> Seq<char>
    decreases scale,
{
    if scale <= 1 || f == 0 {
        Seq::empty()
    } else {
        seq![digit_char(f / (scale / 10))] + frac_digits(f % (scale / 10), scale / 10)
    }
}

/// The shortest exact decimal form of `n / scale`.
pub open spec fn fixed_chars(n: nat, scale: nat) -> Seq<char> {
    if n % scale == 0 {
        dec_chars(n / scale)
    } else {
        dec_chars(n / scale) + seq!['.'] + frac_digits(n % scale, scale)
    }
}

/// The scales the library prints with are powers of ten.
pub proof fn lemma_pow10_scales()
    ensures
        is_pow10(10),
        is_pow10(100),
        is_pow10(1000),
        is_pow10(1000000000),
{
    assert(is_pow10(1));
    assert(is_pow10(10));
    assert(is_pow10(100));
    assert(is_pow10(1000));
    assert(is_pow10(10000));
    assert(is_pow10(100000));
    assert(is_pow10(1000000));
    assert(is_pow10(10000000));
    assert(is_pow10(100000000));
    assert(is_pow10(1000000000));
}

fn digit_str(d: u64) -> (s: &'static str)
    requires
        d < 10,
    ensures
        s@ == seq![digit_char(d as nat)],
{
    proof {
        reveal_strlit("0");
        reveal_strlit("1");
        reveal_strlit("2");
        reveal_strlit("3");
        reveal_strlit("4");
        reveal_strlit("5");
        reveal_strlit("6");
        reveal_strlit("7");
        reveal_strlit("8");
        reveal_strlit("9");
    }
    let s = if d == 0 {
        "0"
    } else if d == 1 {
        "1"
    } else if d == 2 {
        "2"
    } else if d == 3 {
        "3"
    } else if d == 4 {
        "4"
    } else if d == 5 {
        "5"
    } else if d == 6 {
        "6"
    } else if d == 7 {
        "7"
    } else {
        "9"
    };
    let s = if d == 8 {
        "8"
    } else {
        s
    };
    proof {
        assert(s@ =~= seq![digit_char(d as nat)]);
    }
    s
}

/// The decimal form of `n`.
pub fn dec_string(n: u64) -> (s: String)
    ensures
        s@ == dec_chars(n as nat),
    decreases n,
{
    if n < 10 {
        String::from_str(digit_str(n))
    } else {
        let mut s = dec_string(n / 10);
        s.append(digit_str(n % 10));
        proof {
            assert(s@ =~= dec_chars(n as nat));
        }
        s
    }
}

fn frac_string(f: u64, scale: u64) -> (s: String)
    requires
        is_pow10(scale as nat),
        f < scale,
    ensures
        s@ == frac_digits(f as nat, scale as nat),
    decreases scale,
{
    if scale <= 1 || f == 0 {
        String::new()
    } else {
        let sub = scale / 10;
        proof {
            assert(f / sub < 10) by (nonlinear_arith)
                requires
                    f < scale,
                    sub > 0,
                    scale == 10 * sub + scale % 10,
                    scale % 10 == 0,
            ;
            assert(f % sub < sub) by (nonlinear_arith)
                requires
                    sub > 0,
            ;
        }
        let mut s = String::from_str(digit_str(f / sub));
        let rest = frac_string(f % sub, sub);
        s.append(rest.as_str());
        proof {
            assert(s@ =~= frac_digits(f as nat, scale as nat));
        }
        s
    }
}

/// The shortest exact decimal form of `n / scale`.
pub fn fixed_string(n: u64, scale: u64) -> (s: String)
    requires
        is_pow10(scale as nat),
        scale > 1,
    ensures
        s@ == fixed_chars(n as nat, scale as nat),
{
    let ip = n / scale;
    let f = n % scale;
    proof {
        assert(n % scale < scale) by (nonlinear_arith)
            requires
                scale > 0,
        ;
    }
    let mut s = dec_string(ip);
    if f != 0 {
        proof {
            reveal_strlit(".");
        }
        s.append(".");
        let rest = frac_string(f, scale);
        s.append(rest.as_str());
        proof {
            assert("."@ =~= seq!['.']);
            assert(s@ =~= fixed_chars(n as nat, scale as nat));
        }
    }
    s
}

} // verus!
