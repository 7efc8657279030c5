use vstd::prelude::*;
use vstd::arithmetic::div_mod::{lemma_fundamental_div_mod, lemma_fundamental_div_mod_converse};
use vstd::string::StringExecFns;

verus! {

pub const KILOBYTE: u64 = 1024;

pub const MEGABYTE: u64 = 1_048_576;

pub const GIGABYTE: u64 = 1_073_741_824;

/// The character of a decimal digit.
pub open spec fn digit_char(d: nat) -> char {
    if d == 0 {
        '0'
    } else if d == 1 {
        '1'
    } else if d == 2 {
        '2'
    } else if d == 3 {
        '3'
    } else if d == 4 {
        '4'
    } else if d == 5 {
        '5'
    } else if d == 6 {
        '6'
    } else if d == 7 {
        '7'
    } else if d == 8 {
        '8'
    } else {
        '9'
    }
}

/// The decimal digits of `n`, without leading zeros.
pub open spec fn decimal(n: nat) -> Seq<char>
    decreases n,
{
    if n < 10 {
        seq![digit_char(n)]
    } else {
        decimal(n / 10).push(digit_char(n % 10))
    }
}

/// The unit a size of at least one kilobyte is shown in, as its number of bytes.
pub open spec fn unit_bytes(n: nat) -> nat {
    if n < MEGABYTE {
        KILOBYTE as nat
    } else if n < GIGABYTE {
        MEGABYTE as nat
    } else {
        GIGABYTE as nat
    }
}

/// The suffix of the unit a size of at least one kilobyte is shown in.
pub open spec fn unit_suffix(n: nat) -> Seq<char> {
    if n < MEGABYTE {
        seq!['K']
    } else if n < GIGABYTE {
        seq!['M', 'b']
    } else {
        seq!['G', 'b']
    }
}

/// `n / unit` in tenths, rounded to the nearest tenth, a tie to the even one.
pub open spec fn rounded_tenths(n: nat, unit: nat) -> nat {
    let q = (10 * n) / unit;
    let r = (10 * n) % unit;
    if 2 * r > unit || (2 * r == unit && q % 2 == 1) {
        q + 1
    } else {
        q
    }
}

/// How a size of `n` bytes is shown: the bare number below one kilobyte, else the
/// size in the largest unit it reaches (`K`, `Mb`, `Gb`) with one decimal.
pub open spec fn size_text(n: nat) -> Seq<char> {
    if n < KILOBYTE {
        decimal(n)
    } else {
        let t = rounded_tenths(n, unit_bytes(n));
        decimal(t / 10) + seq!['.', digit_char(t % 10)] + unit_suffix(n)
    }
}

/// The line printed for a path named on the command line.
pub open spec fn report_text(arg: Seq<char>, n: nat) -> Seq<char> {
    arg + seq![' ', 's', 'i', 'z', 'e', ':', ' '] + size_text(n)
}

fn digit_str(d: u64) -> (r: &'static str)
    requires
        d < 10,
    ensures
        r@ == seq![digit_char(d as nat)],
{
    proof {
        reveal_strlit("0");
        reveal_strlit("1");
        reveal_strlit("2");
        reveal_strlit("3");
        reveal_strlit("4");
        reveal_strlit("5");
        reveal_strlit("6");
        reveal_strlit("7");
        reveal_strlit("8");
        reveal_strlit("9");
    }
    if d == 0 {
        "0"
    } else if d == 1 {
        "1"
    } else if d == 2 {
        "2"
    } else if d == 3 {
        "3"
    } else if d == 4 {
        "4"
    } else if d == 5 {
        "5"
    } else if d == 6 {
        "6"
    } else if d == 7 {
        "7"
    } else if d == 8 {
        "8"
    } else {
        "9"
    }
}

fn push_decimal(s: &mut String, n: u64)
    ensures
        final(s)@ == old(s)@ + decimal(n as nat),
    decreases n,
{
    if n >= 10 {
        push_decimal(s, n / 10);
    }
    s.append(digit_str(n % 10));
    proof {
        if n >= 10 {
            assert(old(s)@ + decimal(n as nat) =~= old(s)@ + decimal((n / 10) as nat) + seq![
                digit_char((n % 10) as nat),
            ]);
        }
    }
}

/// `n / unit` in tenths, rounded as `rounded_tenths` says.
fn tenths(n: u64, unit: u64) -> (t: u64)
    requires
        KILOBYTE <= unit <= GIGABYTE,
    ensures
        t == rounded_tenths(n as nat, unit as nat),
{
    let whole = n / unit;
    let rem = n % unit;
    let scaled = rem * 10;
    let q = scaled / unit;
    let r = scaled % unit;
    proof {
        lemma_fundamental_div_mod(n as int, unit as int);
        lemma_fundamental_div_mod(scaled as int, unit as int);
        assert(10 * n == (whole * 10 + q) * unit + r) by (nonlinear_arith)
            requires
                n == unit * whole + rem,
                scaled == rem * 10,
                scaled == unit * q + r,
        ;
        lemma_fundamental_div_mod_converse(10 * n, unit as int, whole * 10 + q, r as int);
        assert(whole * 1024 <= n) by (nonlinear_arith)
            requires
                n == unit * whole + rem,
                unit >= 1024,
                rem >= 0,
                whole >= 0,
        ;
        assert(q < 10) by (nonlinear_arith)
            requires
                scaled == unit * q + r,
                scaled == rem * 10,
                rem < unit,
                r >= 0,
        ;
    }
    let base = whole * 10 + q;
    if 2 * r > unit || (2 * r == unit && base % 2 == 1) {
        base + 1
    } else {
        base
    }
}

/// Appends the shown form of a size of `n` bytes to `s`.
fn push_size(s: &mut String, n: u64)
    ensures
        final(s)@ == old(s)@ + size_text(n as nat),
{
    if n < KILOBYTE {
        push_decimal(s, n);
    } else {
        let unit = if n < MEGABYTE {
            KILOBYTE
        } else if n < GIGABYTE {
            MEGABYTE
        } else {
            GIGABYTE
        };
        let t = tenths(n, unit);
        push_decimal(s, t / 10);
        proof {
            reveal_strlit(".");
            reveal_strlit("K");
            reveal_strlit("Mb");
            reveal_strlit("Gb");
        }
        s.append(".");
        s.append(digit_str(t % 10));
        if n < MEGABYTE {
            s.append("K");
        } else if n < GIGABYTE {
            s.append("Mb");
        } else {
            s.append("Gb");
        }
        proof {
            let t = rounded_tenths(n as nat, unit_bytes(n as nat));
            assert(s@ =~= old(s)@ + (decimal(t / 10) + seq!['.', digit_char(t % 10)]
                + unit_suffix(n as nat)));
        }
    }
}

/// The shown form of a size of `n` bytes: `1023`, `1.0K`, `1024.0K`, `1.0Mb`, `1.5Gb`.
pub fn format_size(n: u64) -> (r: String)
    ensures
        r@ == size_text(n as nat),
{
    let mut s = String::new();
    push_size(&mut s, n);
    proof {
        assert(s@ =~= size_text(n as nat));
    }
    s
}

/// The line reported for the command-line argument `arg` whose size is `n` bytes:
/// `<arg> size: <shown size>`.
pub fn report_line(arg: &str, n: u64) -> (r: String)
    ensures
        r@ == report_text(arg@, n as nat),
{
    let mut s = String::from_str(arg);
    proof {
        reveal_strlit(" size: ");
    }
    s.append(" size: ");
    push_size(&mut s, n);
    proof {
        assert(s@ =~= report_text(arg@, n as nat));
    }
    s
}

} // verus!
