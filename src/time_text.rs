//! Decimal digits and the `M:SS` renderings of millisecond counts.
use vstd::prelude::*;

verus! {

/// The ASCII character of a decimal digit.
pub open spec fn digit_char(d: int) -> char {
    seq!['0', '1', '2', '3', '4', '5', '6', '7', '8', '9'][d]
}

/// The decimal digits of `n`, most significant first, without leading zeros.
pub open spec fn decimal(n: nat) -> Seq<char>
    decreases n,
{
    if n < 10 {
        seq![digit_char(n as int)]
    } else {
        decimal(n / 10).push(digit_char((n % 10) as int))
    }
}

/// `k` zeros (none when `k` is not positive).
pub open spec fn zeros(k: int) -> Seq<char> {
    Seq::new(if k > 0 { k as nat } else { 0 }, |_i: int| '0')
}

/// The decimal digits of `n`, padded on the left with zeros to at least `width` characters.
pub open spec fn zero_padded(n: nat, width: nat) -> Seq<char> {
    zeros(width - decimal(n).len()) + decimal(n)
}

/// `M:SS`: whole minutes, unpadded, then the seconds within the minute on two digits.
/// The part below one second is dropped.
pub open spec fn time_text(ms: nat) -> Seq<char> {
    decimal(ms / 60000) + seq![':'] + zero_padded((ms / 1000) % 60, 2)
}

/// The magnitude of a signed delta.
pub open spec fn magnitude(d: int) -> nat {
    if d < 0 { (-d) as nat } else { d as nat }
}

/// `(+M:SS)` for a delta that is zero or positive, `(-M:SS)` for a negative one,
/// the time being that of the delta's magnitude.
pub open spec fn delta_text(d: int) -> Seq<char> {
    seq!['('] + seq![if d < 0 { '-' } else { '+' }] + time_text(magnitude(d)) + seq![')']
}

pub proof fn lemma_decimal_len(n: nat)
    ensures
        decimal(n).len() >= 1,
        n < 10 ==> decimal(n).len() == 1,
        10 <= n < 100 ==> decimal(n).len() == 2,
        10 <= n ==> decimal(n).len() >= 2,
        100 <= n ==> decimal(n).len() >= 3,
        n < 100 ==> decimal(n).len() <= 2,
        n < 1000 ==> decimal(n).len() <= 3,
    decreases n,
{
    if n >= 10 {
        lemma_decimal_len(n / 10);
    }
}

fn push_digit(s: &mut String, d: u64)
    requires
        d < 10,
    ensures
        final(s)@ == old(s)@.push(digit_char(d as int)),
{
    proof {
        reveal_strlit("0");
        reveal_strlit("1");
        reveal_strlit("2");
        reveal_strlit("3");
        reveal_strlit("4");
        reveal_strlit("5");
        reveal_strlit("6");
        reveal_strlit("7");
        reveal_strlit("8");
        reveal_strlit("9");
    }
    let digit = match d {
        0 => "0",
        1 => "1",
        2 => "2",
        3 => "3",
        4 => "4",
        5 => "5",
        6 => "6",
        7 => "7",
        8 => "8",
        _ => "9",
    };
    s.append(digit);
    assert(final(s)@ =~= old(s)@.push(digit_char(d as int)));
}

/// Appends the decimal digits of `n`.
pub fn push_decimal(s: &mut String, n: u64)
    ensures
        final(s)@ == old(s)@ + decimal(n as nat),
    decreases n,
{
    let ghost start = s@;
    if n >= 10 {
        push_decimal(s, n / 10);
    }
    push_digit(s, n % 10);
    assert(s@ =~= start + decimal(n as nat));
}

fn push_zero(s: &mut String)
    ensures
        final(s)@ == old(s)@.push('0'),
{
    proof {
        reveal_strlit("0");
    }
    s.append("0");
    assert(final(s)@ =~= old(s)@.push('0'));
}

/// Appends the decimal digits of `n`, padded with zeros to `width` characters.
pub fn push_padded(s: &mut String, n: u64, width: usize)
    requires
        width <= 3,
    ensures
        final(s)@ == old(s)@ + zero_padded(n as nat, width as nat),
{
    let ghost start = s@;
    proof {
        lemma_decimal_len(n as nat);
    }
    let ghost k = width - decimal(n as nat).len();
    if width >= 3 && n < 100 {
        push_zero(s);
    }
    if width >= 2 && n < 10 {
        push_zero(s);
    }
    proof {
        if k <= 0 {
            assert(s@ =~= start + zeros(k));
        } else if k == 1 {
            assert(s@ =~= start + zeros(k));
        } else {
            assert(k == 2);
            assert(s@ =~= start + zeros(k));
        }
    }
    push_decimal(s, n);
    assert(s@ =~= start + zero_padded(n as nat, width as nat));
}

/// Appends `ms` rendered as `M:SS`.
pub fn push_time(s: &mut String, ms: u64)
    ensures
        final(s)@ == old(s)@ + time_text(ms as nat),
{
    let ghost start = s@;
    proof {
        reveal_strlit(":");
    }
    push_decimal(s, ms / 60000);
    s.append(":");
    push_padded(s, (ms / 1000) % 60, 2);
    assert(s@ =~= start + time_text(ms as nat));
}

/// Renders a time as `M:SS`.
pub fn format_time(ms: u64) -> (r: String)
    ensures
        r@ == time_text(ms as nat),
{
    let mut s = String::new();
    push_time(&mut s, ms);
    assert(s@ =~= time_text(ms as nat));
    s
}

/// Renders a signed delta as `(+M:SS)` or `(-M:SS)`.
pub fn format_delta(d: i64) -> (r: String)
    ensures
        r@ == delta_text(d as int),
{
    proof {
        reveal_strlit("(");
        reveal_strlit(")");
        reveal_strlit("-");
        reveal_strlit("+");
    }
    let mut s = String::new();
    s.append("(");
    let size: u64;
    if d < 0 {
        s.append("-");
        size = ((-(d + 1)) as u64) + 1;
    } else {
        s.append("+");
        size = d as u64;
    }
    push_time(&mut s, size);
    s.append(")");
    assert(s@ =~= delta_text(d as int));
    s
}

/// Converts minutes, seconds and milliseconds to milliseconds.
pub fn min_sec_mil_to_millis(min: u32, sec: u32, mil: u32) -> (r: u32)
    requires
        (min * 60 + sec) * 1000 + mil <= u32::MAX,
    ensures
        r == (min * 60 + sec) * 1000 + mil,
{
    (min * 60 + sec) * 1000 + mil
}

/// Splits milliseconds into whole minutes, the seconds within the minute and the
/// milliseconds within the second.
pub fn millis_to_min_sec_mil(millis: u32) -> (r: (u32, u32, u32))
    ensures
        r.0 == millis / 60000,
        r.1 == (millis / 1000) % 60,
        r.2 == millis % 1000,
        (r.0 * 60 + r.1) * 1000 + r.2 == millis,
{
    let min = millis / 60000;
    let sec = (millis / 1000) % 60;
    let mil = millis % 1000;
    assert((min * 60 + sec) * 1000 + mil == millis) by (nonlinear_arith)
        requires
            min == millis / 60000,
            sec == (millis / 1000) % 60,
            mil == millis % 1000,
    ;
    (min, sec, mil)
}

} // verus!
