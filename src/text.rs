use crate::interp::Value;
use vstd::arithmetic::div_mod::{
    lemma_div_multiples_vanish, lemma_fundamental_div_mod, lemma_mod_multiples_basic,
};
use vstd::prelude::*;
use vstd::string::*;

verus! {

/// `t` with each `%v`, read left to right, replaced by `v`.
pub open spec fn substituted(t: Seq<char>, v: Seq<char>) -> Seq<char>
    decreases t.len(),
{
    if t.len() == 0 {
        Seq::empty()
    } else if t.len() >= 2 && t[0] == '%' && t[1] == 'v' {
        v + substituted(t.subrange(2, t.len() as int), v)
    } else {
        seq![t[0]] + substituted(t.subrange(1, t.len() as int), v)
    }
}

/// The command `template` with each `%v` replaced by `value`.
pub fn substitute(template: &str, value: &str) -> (r: String)
    ensures
        r@ == substituted(template@, value@),
{
    let n = template.unicode_len();
    let mut out = String::new();
    let mut i: usize = 0;
    assert(template@.subrange(0, n as int) =~= template@);
    assert(out@ + substituted(template@, value@) =~= substituted(template@, value@));
    while i < n
        invariant
            n == template@.len(),
            i <= n,
            out@ + substituted(template@.subrange(i as int, n as int), value@) == substituted(
                template@,
                value@,
            ),
        decreases n - i,
    {
        let rest = Ghost(template@.subrange(i as int, n as int));
        if i + 1 < n && template.get_char(i) == '%' && template.get_char(i + 1) == 'v' {
            assert(rest@.subrange(2, rest@.len() as int) =~= template@.subrange(
                i + 2,
                n as int,
            ));
            out.append(value);
            i = i + 2;
        } else {
            assert(rest@.subrange(1, rest@.len() as int) =~= template@.subrange(
                i + 1,
                n as int,
            ));
            let c = template.substring_char(i, i + 1);
            assert(c@ =~= seq![rest@[0]]);
            out.append(c);
            i = i + 1;
        }
        assert(out@ + substituted(template@.subrange(i as int, n as int), value@) =~= substituted(
            template@,
            value@,
        ));
    }
    assert(template@.subrange(n as int, n as int) =~= Seq::<char>::empty());
    assert(out@ + Seq::<char>::empty() =~= out@);
    out
}

/// The window title that shows a value.
pub fn window_title(title: &str, value: &str) -> (r: String)
    ensures
        r@ == title@ + " - "@ + value@,
{
    let mut r = title.to_owned();
    r.append(" - ");
    r.append(value);
    r
}

/// The digit character of `d < 10`.
pub open spec fn digit_char(d: int) -> char {
    (('0' as int) + d) as char
}

/// The decimal digits of `n`, most significant first.
pub open spec fn digits(n: nat) -> Seq<char>
    decreases n,
{
    if n < 10 {
        seq![digit_char(n as int)]
    } else {
        digits(n / 10) + seq![digit_char((n % 10) as int)]
    }
}

/// `n` in decimal, with a leading `-` where it is negative.
pub open spec fn decimal(n: int) -> Seq<char> {
    if n < 0 {
        seq!['-'] + digits((-n) as nat)
    } else {
        digits(n as nat)
    }
}

/// The whole number a value equals, if it equals one.
pub open spec fn whole(v: Value) -> Option<int> {
    if v.den > 0 && (v.num as int) % (v.den as int) == 0 {
        Some((v.num as int) / (v.den as int))
    } else {
        None
    }
}

fn digit_text(d: u128) -> (r: &'static str)
    requires
        d < 10,
    ensures
        r@ == seq![digit_char(d as int)],
{
    proof {
        reveal_strlit("0");
        reveal_strlit("1");
        reveal_strlit("2");
        reveal_strlit("3");
        reveal_strlit("4");
        reveal_strlit("5");
        reveal_strlit("6");
        reveal_strlit("7");
        reveal_strlit("8");
        reveal_strlit("9");
    }
    let r = if d == 0 {
        "0"
    } else if d == 1 {
        "1"
    } else if d == 2 {
        "2"
    } else if d == 3 {
        "3"
    } else if d == 4 {
        "4"
    } else if d == 5 {
        "5"
    } else if d == 6 {
        "6"
    } else if d == 7 {
        "7"
    } else if d == 8 {
        "8"
    } else {
        "9"
    };
    assert(r@ =~= seq![digit_char(d as int)]);
    r
}

fn digits_text(n: u128) -> (r: String)
    ensures
        r@ == digits(n as nat),
    decreases n,
{
    if n < 10 {
        digit_text(n).to_owned()
    } else {
        let mut r = digits_text(n / 10);
        r.append(digit_text(n % 10));
        r
    }
}

/// `n` in decimal.
pub fn decimal_text(n: i128) -> (r: String)
    ensures
        r@ == decimal(n as int),
{
    if n < 0 {
        let magnitude: u128 = (-(n + 1)) as u128 + 1;
        let mut r = "-".to_owned();
        proof {
            reveal_strlit("-");
        }
        r.append(digits_text(magnitude).as_str());
        r
    } else {
        digits_text(n as u128)
    }
}

/// Negating a multiple of `d` keeps it a multiple, with the quotient negated.
proof fn lemma_negated_multiple(n: int, d: int)
    requires
        d > 0,
        n % d == 0,
    ensures
        (-n) % d == 0,
        (-n) / d == -(n / d),
{
    lemma_fundamental_div_mod(n, d);
    let q = n / d;
    assert(-n == (-q) * d && -n == d * (-q)) by (nonlinear_arith)
        requires
            n == d * q + 0,
    ;
    lemma_mod_multiples_basic(-q, d);
    lemma_div_multiples_vanish(-q, d);
}

/// The text of a value that equals a whole number: that number in decimal.
/// `None` for any other value.
pub fn whole_text(v: Value) -> (r: Option<String>)
    ensures
        r is Some <==> whole(v) is Some,
        r matches Some(s) ==> s@ == decimal(whole(v)->Some_0),
{
    if v.den <= 0 {
        return None;
    }
    let d = v.den as u128;
    if v.num >= 0 {
        let m = v.num as u128;
        if m % d != 0 {
            None
        } else {
            Some(decimal_text((m / d) as i128))
        }
    } else {
        let m: u128 = (-(v.num + 1)) as u128 + 1;
        proof {
            if (v.num as int) % (v.den as int) == 0 {
                lemma_negated_multiple(v.num as int, v.den as int);
            }
            if (m as int) % (d as int) == 0 {
                lemma_negated_multiple(m as int, d as int);
                assert(-(m as int) == v.num as int);
            }
        }
        if m % d != 0 {
            None
        } else {
            let q: u128 = m / d;
            proof {
                lemma_negated_multiple(m as int, d as int);
                lemma_fundamental_div_mod(m as int, d as int);
                assert(q > 0) by (nonlinear_arith)
                    requires
                        m == d * q + 0,
                        m > 0,
                ;
                reveal_strlit("-");
            }
            let mut r = "-".to_owned();
            r.append(digits_text(q).as_str());
            Some(r)
        }
    }
}

} // verus!
