//! The text form of a stored record: one line `name: <minutes>m<SS>.<mmm>s` for each
//! section, in order.
use vstd::prelude::*;
use crate::record::{RecordError, Section};
use crate::time_text::{
    decimal, digit_char, lemma_decimal_len, min_sec_mil_to_millis, push_decimal, push_padded, zero_padded, zeros,
};

verus! {

/// An ASCII decimal digit.
pub open spec fn is_digit(c: char) -> bool {
    48 <= (c as u32) <= 57
}

pub open spec fn digit_value(c: char) -> nat {
    ((c as u32) - 48) as nat
}

/// The number that a string of digits writes in decimal (zero for none).
pub open spec fn digits_value(s: Seq<char>) -> nat
    decreases s.len(),
{
    if s.len() == 0 {
        0
    } else {
        digits_value(s.drop_last()) * 10 + digit_value(s.last())
    }
}

/// The start of the run of digits that ends just before index `e`.
pub open spec fn digit_run_start(l: Seq<char>, e: int) -> int
    decreases e,
{
    if 0 < e <= l.len() && is_digit(l[e - 1]) {
        digit_run_start(l, e - 1)
    } else {
        e
    }
}

/// Where the minutes of a section line begin: the digits before its last eight characters.
pub open spec fn minutes_start(l: Seq<char>) -> int {
    digit_run_start(l, l.len() - 8)
}

/// `l` reads `name: <minutes>m<SS>.<mmm>s`, with at least one minute digit, exactly
/// two second digits and three millisecond digits, and no newline in the name. The
/// name is the longest one that leaves such a tail.
pub open spec fn line_shape(l: Seq<char>) -> bool {
    let n = l.len() as int;
    let p = minutes_start(l);
    &&& n >= 11
    &&& l[n - 8] == 'm'
    &&& is_digit(l[n - 7])
    &&& is_digit(l[n - 6])
    &&& l[n - 5] == '.'
    &&& is_digit(l[n - 4])
    &&& is_digit(l[n - 3])
    &&& is_digit(l[n - 2])
    &&& l[n - 1] == 's'
    &&& 2 <= p < n - 8
    &&& l[p - 2] == ':'
    &&& l[p - 1] == ' '
    &&& forall|j: int| 0 <= j < p - 2 ==> l[j] != '\n'
}

pub open spec fn line_name(l: Seq<char>) -> Seq<char> {
    l.subrange(0, minutes_start(l) - 2)
}

pub open spec fn line_minutes(l: Seq<char>) -> nat {
    digits_value(l.subrange(minutes_start(l), l.len() - 8))
}

pub open spec fn line_seconds(l: Seq<char>) -> nat {
    digits_value(l.subrange(l.len() - 7, l.len() - 5))
}

pub open spec fn line_millis_part(l: Seq<char>) -> nat {
    digits_value(l.subrange(l.len() - 4, l.len() - 1))
}

/// The time that a section line gives, in milliseconds.
pub open spec fn line_time(l: Seq<char>) -> nat {
    (line_minutes(l) * 60 + line_seconds(l)) * 1000 + line_millis_part(l)
}

/// `l` is a section line whose time fits in 32 bits.
pub open spec fn line_ok(l: Seq<char>) -> bool {
    line_shape(l) && line_time(l) <= u32::MAX
}

/// The line that stores a section (without its newline).
pub open spec fn line_text(name: Seq<char>, time: nat) -> Seq<char> {
    name + seq![':', ' '] + decimal(time / 60000) + seq!['m'] + zero_padded((time / 1000) % 60, 2)
        + seq!['.'] + zero_padded(time % 1000, 3) + seq!['s']
}

/// The text that stores a record: each section's line followed by a newline.
pub open spec fn record_text(rec: Seq<Section>) -> Seq<char>
    decreases rec.len(),
{
    if rec.len() == 0 {
        Seq::empty()
    } else {
        record_text(rec.drop_last()) + line_text(rec.last().name@, rec.last().time as nat) + seq!['\n']
    }
}

const DIGITS_CAP: u64 = 4294967296;

/// Reads the digits of `s` between `from` and `to`, with the value capped at 2^32.
fn read_digits(s: &str, from: usize, to: usize) -> (r: u64)
    requires
        from <= to <= s@.len(),
        forall|j: int| from <= j < to ==> is_digit(#[trigger] s@[j]),
    ensures
        r == if digits_value(s@.subrange(from as int, to as int)) < DIGITS_CAP {
            digits_value(s@.subrange(from as int, to as int))
        } else {
            DIGITS_CAP as nat
        },
{
    let mut acc: u64 = 0;
    let mut i: usize = from;
    while i < to
        invariant
            from <= i <= to <= s@.len(),
            forall|j: int| from <= j < to ==> is_digit(#[trigger] s@[j]),
            acc == if digits_value(s@.subrange(from as int, i as int)) < DIGITS_CAP {
                digits_value(s@.subrange(from as int, i as int))
            } else {
                DIGITS_CAP as nat
            },
        decreases to - i,
    {
        let c = s.get_char(i);
        let d = (c as u32 - 48) as u64;
        let ghost before = digits_value(s@.subrange(from as int, i as int));
        assert(s@.subrange(from as int, i + 1).drop_last() =~= s@.subrange(from as int, i as int));
        assert(digits_value(s@.subrange(from as int, i + 1)) == before * 10 + d);
        let next = acc * 10 + d;
        acc = if next < DIGITS_CAP { next } else { DIGITS_CAP };
        i = i + 1;
    }
    acc
}

fn is_digit_at(s: &str, i: usize) -> (r: bool)
    requires
        i < s@.len(),
    ensures
        r == is_digit(s@[i as int]),
{
    let c = s.get_char(i);
    48 <= (c as u32) && (c as u32) <= 57
}

/// The start of the run of digits that ends just before index `e`.
fn find_digit_run_start(s: &str, e: usize) -> (r: usize)
    requires
        e <= s@.len(),
    ensures
        r == digit_run_start(s@, e as int),
        r <= e,
        forall|j: int| r <= j < e ==> is_digit(#[trigger] s@[j]),
{
    let mut p: usize = e;
    while p > 0 && is_digit_at(s, p - 1)
        invariant
            p <= e <= s@.len(),
            digit_run_start(s@, p as int) == digit_run_start(s@, e as int),
            forall|j: int| p <= j < e ==> is_digit(#[trigger] s@[j]),
        decreases p,
    {
        p = p - 1;
    }
    p
}

fn char_at(s: &str, i: usize) -> (r: char)
    requires
        i < s@.len(),
    ensures
        r == s@[i as int],
{
    s.get_char(i)
}

fn name_has_newline(s: &str, end: usize) -> (r: bool)
    requires
        end <= s@.len(),
    ensures
        r == exists|j: int| 0 <= j < end && s@[j] == '\n',
{
    let mut j: usize = 0;
    while j < end
        invariant
            j <= end <= s@.len(),
            forall|k: int| 0 <= k < j ==> s@[k] != '\n',
        decreases end - j,
    {
        if char_at(s, j) == '\n' {
            return true;
        }
        j = j + 1;
    }
    false
}

/// Reads one section line.
pub fn parse_line(line: &str) -> (r: Option<Section>)
    ensures
        r is Some <==> line_ok(line@),
        r matches Some(s) ==> s.name@ == line_name(line@) && s.time == line_time(line@),
{
    let n = line.unicode_len();
    if n < 11 {
        return None;
    }
    if !(char_at(line, n - 8) == 'm' && is_digit_at(line, n - 7) && is_digit_at(line, n - 6)
        && char_at(line, n - 5) == '.' && is_digit_at(line, n - 4) && is_digit_at(line, n - 3)
        && is_digit_at(line, n - 2) && char_at(line, n - 1) == 's') {
        return None;
    }
    let p = find_digit_run_start(line, n - 8);
    if p < 2 || p >= n - 8 {
        return None;
    }
    if char_at(line, p - 2) != ':' || char_at(line, p - 1) != ' ' {
        return None;
    }
    if name_has_newline(line, p - 2) {
        return None;
    }
    let min = read_digits(line, p, n - 8);
    let sec = read_digits(line, n - 7, n - 5);
    let mil = read_digits(line, n - 4, n - 1);
    let total = (min * 60 + sec) * 1000 + mil;
    let ghost l = line@;
    let ghost vm = line_minutes(l);
    let ghost vs = line_seconds(l);
    let ghost vl = line_millis_part(l);
    assert(line_time(l) >= total) by (nonlinear_arith)
        requires
            min <= vm,
            sec <= vs,
            mil <= vl,
            total == (min * 60 + sec) * 1000 + mil,
            line_time(l) == (vm * 60 + vs) * 1000 + vl,
    ;
    if total > 4294967295 {
        return None;
    }
    assert(min == vm && sec == vs && mil == vl) by (nonlinear_arith)
        requires
            min == if vm < DIGITS_CAP { vm } else { DIGITS_CAP as nat },
            sec == if vs < DIGITS_CAP { vs } else { DIGITS_CAP as nat },
            mil == if vl < DIGITS_CAP { vl } else { DIGITS_CAP as nat },
            total == (min * 60 + sec) * 1000 + mil,
            total <= 4294967295,
    ;
    let name = String::from_str(line.substring_char(0, p - 2));
    let time = min_sec_mil_to_millis(min as u32, sec as u32, mil as u32);
    Some(Section { name, time })
}

/// Reads the lines of a stored record.
pub fn parse_record_lines(lines: &Vec<String>) -> (r: Result<Vec<Section>, RecordError>)
    ensures
        match r {
            Ok(v) => {
                &&& forall|j: int| 0 <= j < lines.len() ==> line_ok(#[trigger] lines@[j]@)
                &&& v.len() == lines.len()
                &&& forall|j: int| 0 <= j < lines.len() ==> (#[trigger] v@[j]).name@ == line_name(lines@[j]@)
                    && v@[j].time == line_time(lines@[j]@)
            },
            Err(e) => exists|i: int| {
                &&& 0 <= i < lines.len()
                &&& e == RecordError::InvalidLine(i as usize)
                &&& !line_ok(#[trigger] lines@[i]@)
                &&& forall|j: int| 0 <= j < i ==> line_ok(#[trigger] lines@[j]@)
            },
        },
{
    let mut v: Vec<Section> = Vec::new();
    let mut i: usize = 0;
    while i < lines.len()
        invariant
            i <= lines.len(),
            v.len() == i,
            forall|j: int| 0 <= j < i ==> line_ok(#[trigger] lines@[j]@),
            forall|j: int| 0 <= j < i ==> (#[trigger] v@[j]).name@ == line_name(lines@[j]@)
                && v@[j].time == line_time(lines@[j]@),
        decreases lines.len() - i,
    {
        match parse_line(lines[i].as_str()) {
            Some(s) => v.push(s),
            None => {
                assert(!line_ok(lines@[i as int]@));
                return Err(RecordError::InvalidLine(i));
            },
        }
        i = i + 1;
    }
    Ok(v)
}

fn push_line(s: &mut String, section: &Section)
    ensures
        final(s)@ == old(s)@ + line_text(section.name@, section.time as nat) + seq!['\n'],
{
    let ghost start = s@;
    proof {
        reveal_strlit(": ");
        reveal_strlit("m");
        reveal_strlit(".");
        reveal_strlit("s\n");
    }
    s.append(section.name.as_str());
    s.append(": ");
    push_decimal(s, section.time as u64 / 60000);
    s.append("m");
    push_padded(s, (section.time as u64 / 1000) % 60, 2);
    s.append(".");
    push_padded(s, section.time as u64 % 1000, 3);
    s.append("s\n");
    assert(s@ =~= start + line_text(section.name@, section.time as nat) + seq!['\n']);
}

/// The text that stores a record.
pub fn record_to_text(record: &Vec<Section>) -> (r: String)
    ensures
        r@ == record_text(record@),
{
    let mut s = String::new();
    let mut i: usize = 0;
    while i < record.len()
        invariant
            i <= record.len(),
            s@ == record_text(record@.subrange(0, i as int)),
        decreases record.len() - i,
    {
        push_line(&mut s, &record[i]);
        assert(record@.subrange(0, i + 1).drop_last() =~= record@.subrange(0, i as int));
        i = i + 1;
    }
    assert(record@.subrange(0, record.len() as int) =~= record@);
    s
}

proof fn lemma_decimal_digits(n: nat)
    ensures
        forall|i: int| 0 <= i < decimal(n).len() ==> is_digit(#[trigger] decimal(n)[i]),
        digits_value(decimal(n)) == n,
    decreases n,
{
    assert(is_digit(digit_char((n % 10) as int)) && digit_value(digit_char((n % 10) as int)) == n % 10);
    if n >= 10 {
        lemma_decimal_digits(n / 10);
        assert(decimal(n).drop_last() =~= decimal(n / 10));
    } else {
        assert(decimal(n).drop_last() =~= Seq::<char>::empty());
        assert(digits_value(Seq::<char>::empty()) == 0);
        assert(digits_value(decimal(n)) == digits_value(decimal(n).drop_last()) * 10 + digit_value(decimal(n).last()));
    }
}

proof fn lemma_leading_zeros(k: int, s: Seq<char>)
    ensures
        digits_value(zeros(k) + s) == digits_value(s),
    decreases s.len(),
{
    if s.len() == 0 {
        lemma_zeros_value(k);
        assert(zeros(k) + s =~= zeros(k));
    } else {
        lemma_leading_zeros(k, s.drop_last());
        assert((zeros(k) + s).drop_last() =~= zeros(k) + s.drop_last());
    }
}

proof fn lemma_zeros_value(k: int)
    ensures
        digits_value(zeros(k)) == 0,
    decreases k,
{
    if k > 0 {
        lemma_zeros_value(k - 1);
        assert(zeros(k).drop_last() =~= zeros(k - 1));
    }
}

proof fn lemma_padded(n: nat, width: nat)
    requires
        1 <= width <= 3,
        width == 2 ==> n < 100,
        width == 3 ==> n < 1000,
        width == 1 ==> n < 10,
    ensures
        zero_padded(n, width).len() == width,
        forall|i: int| 0 <= i < width ==> is_digit(#[trigger] zero_padded(n, width)[i]),
        digits_value(zero_padded(n, width)) == n,
{
    lemma_decimal_len(n);
    lemma_decimal_digits(n);
    let k = width - decimal(n).len();
    lemma_leading_zeros(k, decimal(n));
    assert forall|i: int| 0 <= i < width implies is_digit(#[trigger] zero_padded(n, width)[i]) by {
        if i >= zeros(k).len() {
            assert(zero_padded(n, width)[i] == decimal(n)[i - zeros(k).len()]);
        }
    }
}

proof fn lemma_run_start(l: Seq<char>, p: int, e: int)
    requires
        0 <= p <= e <= l.len(),
        forall|j: int| p <= j < e ==> is_digit(#[trigger] l[j]),
        p == 0 || !is_digit(l[p - 1]),
    ensures
        digit_run_start(l, e) == p,
    decreases e - p,
{
    if e > p {
        lemma_run_start(l, p, e - 1);
    }
}

/// Reading back the line stored for a section gives the section again: its name,
/// which must hold no newline, and its time.
pub proof fn lemma_line_round_trip(name: Seq<char>, time: u32)
    requires
        forall|j: int| 0 <= j < name.len() ==> name[j] != '\n',
    ensures
        line_ok(line_text(name, time as nat)),
        line_name(line_text(name, time as nat)) == name,
        line_time(line_text(name, time as nat)) == time,
{
    let t = time as nat;
    let min = t / 60000;
    let sec = (t / 1000) % 60;
    let mil = t % 1000;
    let m = decimal(min);
    let s = zero_padded(sec, 2);
    let ms = zero_padded(mil, 3);
    let l = line_text(name, t);
    lemma_decimal_len(min);
    lemma_decimal_digits(min);
    lemma_padded(sec, 2);
    lemma_padded(mil, 3);
    let p = name.len() + 2int;
    let n = l.len() as int;
    assert(l =~= name + seq![':', ' '] + m + seq!['m'] + s + seq!['.'] + ms + seq!['s']);
    assert(n == p + m.len() + 8);
    assert(l.subrange(p, n - 8) =~= m);
    assert(l.subrange(n - 7, n - 5) =~= s);
    assert(l.subrange(n - 4, n - 1) =~= ms);
    assert(l.subrange(0, p - 2) =~= name);
    assert forall|j: int| p <= j < n - 8 implies is_digit(#[trigger] l[j]) by {
        assert(l[j] == m[j - p]);
    }
    assert(l[p - 1] == ' ');
    lemma_run_start(l, p, n - 8);
    assert(is_digit(l[n - 7]) && is_digit(l[n - 6])) by {
        assert(l[n - 7] == s[0] && l[n - 6] == s[1]);
    }
    assert(is_digit(l[n - 4]) && is_digit(l[n - 3]) && is_digit(l[n - 2])) by {
        assert(l[n - 4] == ms[0] && l[n - 3] == ms[1] && l[n - 2] == ms[2]);
    }
    assert((min * 60 + sec) * 1000 + mil == t) by (nonlinear_arith)
        requires
            min == t / 60000,
            sec == (t / 1000) % 60,
            mil == t % 1000,
    ;
}

} // verus!
