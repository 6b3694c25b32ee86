//! Decimal text of counts, for summaries and messages.

use vstd::prelude::*;
use vstd::string::StringExecFns;

verus! {

/// The character of a decimal digit.
pub open spec fn digit_char(d: nat) -> char {
    if d == 0 {
        '0'
    } else if d == 1 {
        '1'
    } else if d == 2 {
        '2'
    } else if d == 3 {
        '3'
    } else if d == 4 {
        '4'
    } else if d == 5 {
        '5'
    } else if d == 6 {
        '6'
    } else if d == 7 {
        '7'
    } else if d == 8 {
        '8'
    } else {
        '9'
    }
}

/// The decimal text of a number: its digits, most significant first,
/// without leading zeros.
pub open spec fn decimal_text(n: nat) -> Seq<char>
    decreases n,
{
    if n < 10 {
        seq![digit_char(n)]
    } else {
        decimal_text(n / 10).push(digit_char(n % 10))
    }
}

spec fn tail_text(digits: Seq<u64>, k: int) -> Seq<char>
    decreases k,
{
    if k <= 0 {
        Seq::empty()
    } else {
        seq![digit_char(digits[k - 1] as nat)] + tail_text(digits, k - 1)
    }
}

proof fn lemma_tail_text_of_prefix(digits: Seq<u64>, more: u64, k: int)
    requires
        0 <= k <= digits.len(),
    ensures
        tail_text(digits.push(more), k) == tail_text(digits, k),
    decreases k,
{
    if k > 0 {
        lemma_tail_text_of_prefix(digits, more, k - 1);
    }
}

fn digit_text(d: u64) -> (r: &'static str)
    requires
        d < 10,
    ensures
        r@ == seq![digit_char(d as nat)],
{
    proof {
        reveal_strlit("0");
        reveal_strlit("1");
        reveal_strlit("2");
        reveal_strlit("3");
        reveal_strlit("4");
        reveal_strlit("5");
        reveal_strlit("6");
        reveal_strlit("7");
        reveal_strlit("8");
        reveal_strlit("9");
    }
    let r = if d == 0 {
        "0"
    } else if d == 1 {
        "1"
    } else if d == 2 {
        "2"
    } else if d == 3 {
        "3"
    } else if d == 4 {
        "4"
    } else if d == 5 {
        "5"
    } else if d == 6 {
        "6"
    } else if d == 7 {
        "7"
    } else if d == 8 {
        "8"
    } else {
        "9"
    };
    assert(r@ =~= seq![digit_char(d as nat)]);
    r
}

/// Appends the decimal text of `n` to `out`.
pub fn append_decimal(out: &mut String, n: u64)
    ensures
        final(out)@ == old(out)@ + decimal_text(n as nat),
{
    let ghost start = out@;
    let mut digits: Vec<u64> = Vec::new();
    let mut m = n;
    while m >= 10
        invariant
            decimal_text(n as nat) == decimal_text(m as nat) + tail_text(digits@, digits@.len() as int),
            forall|i: int| 0 <= i < digits@.len() ==> digits@[i] < 10,
        decreases m,
    {
        let d = m % 10;
        proof {
            lemma_tail_text_of_prefix(digits@, d, digits@.len() as int);
            let next = digits@.push(d);
            assert(tail_text(next, next.len() as int) == seq![digit_char(d as nat)] + tail_text(
                next,
                digits@.len() as int,
            ));
            assert(decimal_text(m as nat) == decimal_text((m / 10) as nat).push(
                digit_char((m % 10) as nat),
            ));
            assert(decimal_text((m / 10) as nat).push(digit_char(d as nat)) + tail_text(
                digits@,
                digits@.len() as int,
            ) =~= decimal_text((m / 10) as nat) + (seq![digit_char(d as nat)] + tail_text(
                digits@,
                digits@.len() as int,
            )));
        }
        digits.push(d);
        m = m / 10;
    }
    out.append(digit_text(m));
    let mut i = digits.len();
    while i > 0
        invariant
            i <= digits@.len(),
            forall|k: int| 0 <= k < digits@.len() ==> digits@[k] < 10,
            out@ + tail_text(digits@, i as int) == start + decimal_text(n as nat),
        decreases i,
    {
        proof {
            assert(tail_text(digits@, i as int) == seq![digit_char(digits@[i - 1] as nat)]
                + tail_text(digits@, i - 1));
            assert(out@ + (seq![digit_char(digits@[i - 1] as nat)] + tail_text(digits@, i - 1))
                =~= (out@ + seq![digit_char(digits@[i - 1] as nat)]) + tail_text(digits@, i - 1));
        }
        i -= 1;
        out.append(digit_text(digits[i]));
    }
    assert(out@ + tail_text(digits@, 0) =~= out@);
}

/// The decimal text of a number.
pub fn decimal(n: u64) -> (r: String)
    ensures
        r@ == decimal_text(n as nat),
{
    let mut out = String::new();
    append_decimal(&mut out, n);
    assert(Seq::<char>::empty() + decimal_text(n as nat) =~= decimal_text(n as nat));
    out
}

} // verus!
