//! Decimal text of integers.
use vstd::prelude::*;

verus! {

/// The character of decimal digit `d` (`d < 10`).
pub open spec fn digit_char(d: nat) -> char {
    if d == 0 {
        '0'
    } else if d == 1 {
        '1'
    } else if d == 2 {
        '2'
    } else if d == 3 {
        '3'
    } else if d == 4 {
        '4'
    } else if d == 5 {
        '5'
    } else if d == 6 {
        '6'
    } else if d == 7 {
        '7'
    } else if d == 8 {
        '8'
    } else {
        '9'
    }
}

/// The decimal digits of `n`, most significant first, without leading zeros.
pub open spec fn decimal_nat(n: nat) -> Seq<char>
    decreases n,
{
    if n < 10 {
        seq![digit_char(n)]
    } else {
        decimal_nat(n / 10).push(digit_char(n % 10))
    }
}

/// The decimal text of `n`: a minus sign before the digits of a negative number.
pub open spec fn decimal_int(n: int) -> Seq<char> {
    if n < 0 {
        seq!['-'] + decimal_nat((-n) as nat)
    } else {
        decimal_nat(n as nat)
    }
}

/// The value of a decimal digit character, or -1 for any other character.
pub open spec fn digit_value(c: char) -> int {
    if c == '0' {
        0
    } else if c == '1' {
        1
    } else if c == '2' {
        2
    } else if c == '3' {
        3
    } else if c == '4' {
        4
    } else if c == '5' {
        5
    } else if c == '6' {
        6
    } else if c == '7' {
        7
    } else if c == '8' {
        8
    } else if c == '9' {
        9
    } else {
        -1
    }
}

/// The number that a string of decimal digits denotes, read most significant
/// digit first.
pub open spec fn digits_value(t: Seq<char>) -> int
    decreases t.len(),
{
    if t.len() == 0 {
        0
    } else {
        digits_value(t.drop_last()) * 10 + digit_value(t.last())
    }
}

/// `t` is a non-empty string of decimal digits without a leading zero
/// (the single digit `0` aside).
pub open spec fn is_canonical_digits(t: Seq<char>) -> bool {
    &&& t.len() >= 1
    &&& forall|i: int| 0 <= i < t.len() ==> 0 <= #[trigger] digit_value(t[i])
    &&& t.len() > 1 ==> t[0] != '0'
}

/// `t` is the usual decimal text of the integer `n`: its digits, read in
/// base 10, give `n` (after a minus sign for a negative `n`), with no leading
/// zero and no `-0`.
pub open spec fn reads_as(t: Seq<char>, n: int) -> bool {
    if n < 0 {
        &&& t.len() >= 1
        &&& t[0] == '-'
        &&& is_canonical_digits(t.skip(1))
        &&& digits_value(t.skip(1)) == -n
    } else {
        &&& is_canonical_digits(t)
        &&& digits_value(t) == n
    }
}

/// The digits of `n` read back as `n`, without a leading zero.
pub proof fn law_decimal_nat_reads_back(n: nat)
    ensures
        is_canonical_digits(decimal_nat(n)),
        digits_value(decimal_nat(n)) == n,
        n > 0 ==> decimal_nat(n)[0] != '0',
    decreases n,
{
    let t = decimal_nat(n);
    if n < 10 {
        assert(t.drop_last() =~= Seq::<char>::empty());
        assert(digits_value(Seq::<char>::empty()) == 0);
        assert(digit_value(digit_char(n)) == n);
        assert(digits_value(t) == digits_value(t.drop_last()) * 10 + digit_value(t.last()));
    } else {
        let q = n / 10;
        let r = n % 10;
        law_decimal_nat_reads_back(q);
        let p = decimal_nat(q);
        assert(t == p.push(digit_char(r)));
        assert(t.drop_last() =~= p);
        assert(digit_value(digit_char(r)) == r);
        assert(n == q * 10 + r);
        assert(digits_value(t) == digits_value(p) * 10 + digit_value(digit_char(r)));
        assert forall|i: int| 0 <= i < t.len() implies 0 <= #[trigger] digit_value(t[i]) by {
            if i < p.len() {
                assert(t[i] == p[i]);
                assert(0 <= digit_value(p[i]));
            }
        }
        assert(t[0] == p[0]);
    }
}

/// The decimal text of `n` reads back as `n`.
pub proof fn law_decimal_reads_back(n: int)
    ensures
        reads_as(decimal_int(n), n),
{
    if n < 0 {
        let m = (-n) as nat;
        law_decimal_nat_reads_back(m);
        assert(decimal_int(n).skip(1) =~= decimal_nat(m));
    } else {
        law_decimal_nat_reads_back(n as nat);
    }
}

/// The one-character text of digit `d`.
fn digit_str(d: u64) -> (s: &'static str)
    requires
        d < 10,
    ensures
        s@ == seq![digit_char(d as nat)],
{
    if d == 0 {
        proof {
            reveal_strlit("0");
        }
        "0"
    } else if d == 1 {
        proof {
            reveal_strlit("1");
        }
        "1"
    } else if d == 2 {
        proof {
            reveal_strlit("2");
        }
        "2"
    } else if d == 3 {
        proof {
            reveal_strlit("3");
        }
        "3"
    } else if d == 4 {
        proof {
            reveal_strlit("4");
        }
        "4"
    } else if d == 5 {
        proof {
            reveal_strlit("5");
        }
        "5"
    } else if d == 6 {
        proof {
            reveal_strlit("6");
        }
        "6"
    } else if d == 7 {
        proof {
            reveal_strlit("7");
        }
        "7"
    } else if d == 8 {
        proof {
            reveal_strlit("8");
        }
        "8"
    } else {
        proof {
            reveal_strlit("9");
        }
        "9"
    }
}

/// Appends the decimal digits of `n` to `out`.
pub fn push_decimal_u64(out: &mut String, n: u64)
    ensures
        final(out)@ == old(out)@ + decimal_nat(n as nat),
        reads_as(final(out)@.subrange(old(out)@.len() as int, final(out)@.len() as int), n as int),
    decreases n,
{
    if n >= 10 {
        push_decimal_u64(out, n / 10);
    }
    let ghost before = out@;
    out.append(digit_str(n % 10));
    proof {
        law_decimal_nat_reads_back(n as nat);
        assert(out@.subrange(old(out)@.len() as int, out@.len() as int) =~= decimal_nat(n as nat)) by {
            if n >= 10 {
                assert(before + seq![digit_char((n % 10) as nat)] =~= old(out)@ + decimal_nat(n as nat));
            } else {
                assert(before =~= old(out)@);
            }
        }
        if n >= 10 {
            assert(before + seq![digit_char((n % 10) as nat)] =~= old(out)@ + decimal_nat(n as nat));
        } else {
            assert(before =~= old(out)@);
        }
    }
}

/// The decimal text of `n`, as `Display` writes an `i64`.
pub fn i64_to_decimal(n: i64) -> (s: String)
    ensures
        s@ == decimal_int(n as int),
        reads_as(s@, n as int),
{
    proof {
        law_decimal_reads_back(n as int);
    }
    let mut s = String::new();
    if n < 0 {
        proof {
            reveal_strlit("-");
        }
        s.append("-");
        let magnitude: u64 = if n == i64::MIN {
            9_223_372_036_854_775_808u64
        } else {
            (-n) as u64
        };
        push_decimal_u64(&mut s, magnitude);
    } else {
        push_decimal_u64(&mut s, n as u64);
        assert(s@ =~= decimal_nat(n as nat));
    }
    s
}

} // verus!
