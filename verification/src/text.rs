//! Decimal text of integers, as `Display` writes them.

use crate::syntax::push_char;
use vstd::prelude::*;

verus! {

/// The character of a decimal digit.
pub open spec fn digit_char(d: int) -> char {
    (48 + d) as char
}

/// The decimal digits of `n`, without leading zeros (`0` for zero).
pub open spec fn digits(n: nat) -> Seq<char>
    decreases n,
{
    if n < 10 {
        seq![digit_char(n as int)]
    } else {
        digits(n / 10).push(digit_char((n % 10) as int))
    }
}

/// The decimal text of `v`: a `-` before the digits of a negative number.
pub open spec fn decimal(v: int) -> Seq<char> {
    if v < 0 {
        seq!['-'] + digits((-v) as nat)
    } else {
        digits(v as nat)
    }
}

/// The character of the digit `d`.
fn digit_exec(d: u64) -> (c: char)
    requires
        d < 10,
    ensures
        c == digit_char(d as int),
{
    if d == 0 { '0' } else if d == 1 { '1' } else if d == 2 { '2' } else if d == 3 { '3' } else if d == 4 {
        '4'
    } else if d == 5 { '5' } else if d == 6 { '6' } else if d == 7 { '7' } else if d == 8 { '8' } else { '9' }
}

/// The decimal text of `v`, as `i32`'s `Display` writes it.
pub fn i32_text(v: i32) -> (r: String)
    ensures
        r@ == decimal(v as int),
{
    let neg = v < 0;
    let wide = v as i64;
    let m: u64 = if neg { (-wide) as u64 } else { wide as u64 };
    assert(m as int == if v < 0 { -(v as int) } else { v as int });
    // the digits, last one first
    let mut rev: Vec<char> = Vec::new();
    let mut rest: u64 = m;
    let ghost mut tail: Seq<char> = Seq::empty();
    while rest >= 10
        invariant
            digits(m as nat) == digits(rest as nat) + tail,
            rev@.len() == tail.len(),
            forall|i: int| 0 <= i < tail.len() ==> #[trigger] rev@[i] == tail[tail.len() - 1 - i],
        decreases rest,
    {
        let c = digit_exec(rest % 10);
        proof {
            assert(digits(rest as nat) == digits((rest / 10) as nat).push(digit_char((rest % 10) as int)));
            assert(digits((rest / 10) as nat).push(c) + tail =~= digits((rest / 10) as nat) + (seq![c] + tail));
            tail = seq![c] + tail;
        }
        rev.push(c);
        rest = rest / 10;
    }
    let c = digit_exec(rest);
    proof {
        assert(digits(rest as nat) == seq![digit_char(rest as int)]);
        tail = seq![c] + tail;
    }
    rev.push(c);
    assert(digits(m as nat) =~= tail);
    let mut r = String::new();
    if neg {
        push_char(&mut r, '-');
    }
    let ghost start = r@;
    let mut k: usize = rev.len();
    while k > 0
        invariant
            k <= rev.len(),
            rev@.len() == tail.len(),
            forall|i: int| 0 <= i < tail.len() ==> #[trigger] rev@[i] == tail[tail.len() - 1 - i],
            r@ == start + tail.subrange(0, tail.len() - k),
        decreases k,
    {
        k = k - 1;
        let ghost before = r@;
        push_char(&mut r, rev[k]);
        assert(rev@[k as int] == tail[tail.len() - 1 - k]);
        assert(tail.subrange(0, tail.len() - k) =~= tail.subrange(0, tail.len() - 1 - k).push(tail[tail.len() - 1 - k]));
    }
    assert(tail.subrange(0, tail.len() as int) =~= tail);
    if neg {
        assert(r@ =~= seq!['-'] + digits(m as nat));
    } else {
        assert(r@ =~= digits(m as nat));
    }
    r
}

} // verus!
