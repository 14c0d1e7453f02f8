//! Decimal numbers as text: reading and writing of unsigned integers and of
//! fixed-point quantities held in thousandths.

use vstd::prelude::*;
use crate::text::{
    index_of_char,
    lemma_index_of_char,
    is_plain,
    lemma_line_feeds_add,
    lemma_no_line_feed,
    lemma_plain_add,
    line_feeds,
    position_of,
    slice_of,
};

verus! {

/// A non-negative quantity in thousandths of its unit: a percentage, a load
/// figure, or a latency in milliseconds.
#[derive(Clone, Copy, Debug, PartialEq, Eq, Structural)]
pub struct Milli(pub u64);

/// An optional quantity, zero for none.
pub open spec fn or_zero(o: Option<Milli>) -> Milli {
    match o {
        Some(m) => m,
        None => Milli(0),
    }
}

/// Whether `c` is one of the ten decimal digits.
pub open spec fn is_digit(c: char) -> bool {
    0x30 <= c as u32 <= 0x39
}

/// The value of a decimal digit; zero for any other character.
pub open spec fn digit_value(c: char) -> nat {
    if is_digit(c) {
        (c as u32 - 0x30) as nat
    } else {
        0
    }
}

/// Whether `s` holds decimal digits only.
pub open spec fn all_digits(s: Seq<char>) -> bool {
    forall|i: int| 0 <= i < s.len() ==> is_digit(#[trigger] s[i])
}

/// The number that the digits of `s` write in base ten.
pub open spec fn decimal_value(s: Seq<char>) -> nat
    decreases s.len(),
{
    if s.len() == 0 {
        0
    } else {
        decimal_value(s.drop_last()) * 10 + digit_value(s.last())
    }
}

/// `s` without one leading plus sign.
pub open spec fn unsigned_digits(s: Seq<char>) -> Seq<char> {
    if s.len() > 0 && s[0] == '+' {
        s.drop_first()
    } else {
        s
    }
}

/// The number written by `s` (an optional plus sign, then one or more decimal
/// digits and nothing else), where it is at most `max`.
pub open spec fn parse_unsigned(s: Seq<char>, max: u64) -> Option<u64> {
    let d = unsigned_digits(s);
    if d.len() > 0 && all_digits(d) && decimal_value(d) <= max {
        Some(decimal_value(d) as u64)
    } else {
        None
    }
}

/// The digits at the head of a number write no more than all of them.
pub proof fn lemma_decimal_value_prefix(s: Seq<char>, k: int)
    requires
        0 <= k <= s.len(),
    ensures
        decimal_value(s.take(k)) <= decimal_value(s),
    decreases s.len() - k,
{
    if k == s.len() {
        assert(s.take(k) =~= s);
    } else {
        lemma_decimal_value_prefix(s.drop_last(), k);
        assert(s.drop_last().take(k) =~= s.take(k));
    }
}

/// Whether `c` is one of the ten decimal digits.
pub fn is_digit_char(c: char) -> (r: bool)
    ensures
        r == is_digit(c),
{
    let n: u32 = c as u32;
    0x30 <= n && n <= 0x39
}

/// The digits of `v[from..]` as a number, where they are all digits and write
/// at most `max`.
fn read_digits(v: &Vec<char>, from: usize, max: u64) -> (r: Option<u64>)
    requires
        from <= v.len(),
    ensures
        r == (if all_digits(v@.skip(from as int)) && decimal_value(v@.skip(from as int)) <= max {
            Some(decimal_value(v@.skip(from as int)) as u64)
        } else {
            None
        }),
{
    let ghost d = v@.skip(from as int);
    let mut acc: u64 = 0;
    let mut i: usize = from;
    assert(d.take(0) =~= Seq::<char>::empty());
    while i < v.len()
        invariant
            from <= i <= v.len(),
            d == v@.skip(from as int),
            all_digits(d.take(i - from)),
            acc == decimal_value(d.take(i - from)),
            acc <= max,
        decreases v.len() - i,
    {
        let c = v[i];
        let ghost next = d.take(i - from + 1);
        proof {
            assert(next.drop_last() =~= d.take(i - from));
            assert(next.last() == c);
            lemma_decimal_value_prefix(d, i - from + 1);
        }
        if !is_digit_char(c) {
            assert(!is_digit(d[i - from]));
            return None;
        }
        let digit: u64 = (c as u32 - 0x30) as u64;
        let wide: u128 = acc as u128 * 10 + digit as u128;
        if wide > max as u128 {
            return None;
        }
        acc = wide as u64;
        assert(all_digits(next)) by {
            assert forall|j: int| 0 <= j < next.len() implies is_digit(#[trigger] next[j]) by {
                if j < i - from {
                    assert(next[j] == d.take(i - from)[j]);
                }
            }
        }
        i += 1;
    }
    assert(d.take(i - from) =~= d);
    Some(acc)
}

/// Reads an unsigned decimal number of at most `max`.
pub fn read_unsigned(v: &Vec<char>, max: u64) -> (r: Option<u64>)
    ensures
        r == parse_unsigned(v@, max),
{
    let from: usize = if v.len() > 0 && v[0] == '+' {
        1
    } else {
        0
    };
    proof {
        if from == 1 {
            assert(v@.drop_first() =~= v@.skip(1));
        } else {
            assert(v@.skip(0) =~= v@);
        }
    }
    if from == v.len() {
        return None;
    }
    read_digits(v, from, max)
}

/// Whether `v` holds decimal digits only.
pub fn all_digit_chars(v: &Vec<char>) -> (r: bool)
    ensures
        r == all_digits(v@),
{
    let mut i: usize = 0;
    while i < v.len()
        invariant
            i <= v.len(),
            forall|j: int| 0 <= j < i ==> is_digit(#[trigger] v@[j]),
        decreases v.len() - i,
    {
        if !is_digit_char(v[i]) {
            return false;
        }
        i += 1;
    }
    true
}

/// The digit of a fraction at place `i`, zero past its end.
pub open spec fn fraction_digit(f: Seq<char>, i: int) -> nat {
    if 0 <= i < f.len() {
        digit_value(f[i])
    } else {
        0
    }
}

/// The first three places of a fraction, as a count of thousandths.
pub open spec fn fraction_thousandths(f: Seq<char>) -> nat {
    fraction_digit(f, 0) * 100 + fraction_digit(f, 1) * 10 + fraction_digit(f, 2)
}

/// The quantity written by `s` in thousandths, rounded down: an optional plus
/// sign, then digits with at most one decimal point among them and at least
/// one digit in all. `None` for any other text and for a quantity over
/// `u64::MAX` thousandths.
pub open spec fn parse_thousandths(s: Seq<char>) -> Option<Milli> {
    let d = unsigned_digits(s);
    let dot = index_of_char(d, '.') as int;
    let whole = d.take(dot);
    let frac = if dot < d.len() {
        d.skip(dot + 1)
    } else {
        Seq::<char>::empty()
    };
    let value = decimal_value(whole) * 1000 + fraction_thousandths(frac);
    if whole.len() + frac.len() > 0 && all_digits(whole) && all_digits(frac) && value <= u64::MAX {
        Some(Milli(value as u64))
    } else {
        None
    }
}

fn fraction_place(f: &Vec<char>, i: usize) -> (r: u64)
    requires
        all_digits(f@),
    ensures
        r == fraction_digit(f@, i as int),
        r <= 9,
{
    if i < f.len() {
        (f[i] as u32 - 0x30) as u64
    } else {
        0
    }
}

/// Reads a decimal quantity in thousandths.
pub fn read_thousandths(v: &Vec<char>) -> (r: Option<Milli>)
    ensures
        r == parse_thousandths(v@),
{
    let from: usize = if v.len() > 0 && v[0] == '+' {
        1
    } else {
        0
    };
    let ghost d = unsigned_digits(v@);
    proof {
        if from == 1 {
            assert(v@.drop_first() =~= v@.skip(1));
        } else {
            assert(v@.skip(0) =~= v@);
        }
        lemma_index_of_char(d, '.');
    }
    let dot = position_of(v, '.', from);
    let whole = slice_of(v, from, dot);
    let frac = if dot < v.len() {
        slice_of(v, dot + 1, v.len())
    } else {
        Vec::new()
    };
    proof {
        assert(whole@ =~= d.take(dot - from));
        if dot < v.len() {
            assert(frac@ =~= d.skip(dot - from + 1));
        }
    }
    if whole.len() == 0 && frac.len() == 0 {
        return None;
    }
    if !all_digit_chars(&frac) {
        return None;
    }
    assert(whole@.skip(0) =~= whole@);
    match read_digits(&whole, 0, u64::MAX / 1000) {
        None => None,
        Some(w) => {
            let f: u64 = fraction_place(&frac, 0) * 100 + fraction_place(&frac, 1) * 10
                + fraction_place(&frac, 2);
            let total: u128 = w as u128 * 1000 + f as u128;
            if total > u64::MAX as u128 {
                None
            } else {
                Some(Milli(total as u64))
            }
        },
    }
}

/// The character that writes the digit `d`.
pub open spec fn digit_char(d: nat) -> char {
    if d == 0 {
        '0'
    } else if d == 1 {
        '1'
    } else if d == 2 {
        '2'
    } else if d == 3 {
        '3'
    } else if d == 4 {
        '4'
    } else if d == 5 {
        '5'
    } else if d == 6 {
        '6'
    } else if d == 7 {
        '7'
    } else if d == 8 {
        '8'
    } else {
        '9'
    }
}

fn digit_to_char(d: u64) -> (c: char)
    requires
        d < 10,
    ensures
        c == digit_char(d as nat),
{
    if d == 0 {
        '0'
    } else if d == 1 {
        '1'
    } else if d == 2 {
        '2'
    } else if d == 3 {
        '3'
    } else if d == 4 {
        '4'
    } else if d == 5 {
        '5'
    } else if d == 6 {
        '6'
    } else if d == 7 {
        '7'
    } else if d == 8 {
        '8'
    } else {
        '9'
    }
}

/// `n` in base ten, without leading zeros.
pub open spec fn decimal_text(n: nat) -> Seq<char>
    decreases n,
{
    if n < 10 {
        seq![digit_char(n)]
    } else {
        decimal_text(n / 10).push(digit_char(n % 10))
    }
}

/// `n` in base ten, with a minus sign where it is negative.
pub open spec fn integer_text(n: int) -> Seq<char> {
    if n < 0 {
        seq!['-'] + decimal_text((-n) as nat)
    } else {
        decimal_text(n as nat)
    }
}

/// The fraction places of `frac` thousandths: trailing zeros are left out
/// down to `keep` places.
pub open spec fn fraction_text(frac: nat, keep: nat) -> Seq<char> {
    let a = digit_char(frac / 100 % 10);
    let b = digit_char(frac / 10 % 10);
    let c = digit_char(frac % 10);
    if frac % 10 != 0 || keep >= 3 {
        seq![a, b, c]
    } else if frac / 10 % 10 != 0 || keep >= 2 {
        seq![a, b]
    } else if frac / 100 % 10 != 0 || keep >= 1 {
        seq![a]
    } else {
        Seq::empty()
    }
}

/// `v` thousandths as a decimal number with at least `keep` and at most
/// three fraction places; no decimal point where no place is written.
pub open spec fn thousandths_text(v: nat, keep: nat) -> Seq<char> {
    let places = fraction_text(v % 1000, keep);
    if places.len() == 0 {
        decimal_text(v / 1000)
    } else {
        decimal_text(v / 1000) + seq!['.'] + places
    }
}

/// Appends `n` in base ten.
pub fn push_decimal(out: &mut Vec<char>, n: u64)
    ensures
        final(out)@ == old(out)@ + decimal_text(n as nat),
    decreases n,
{
    if n >= 10 {
        push_decimal(out, n / 10);
    }
    out.push(digit_to_char(n % 10));
    proof {
        if n >= 10 {
            assert(out@ =~= old(out)@ + decimal_text(n as nat));
        } else {
            assert(out@ =~= old(out)@ + decimal_text(n as nat));
        }
    }
}

/// Appends `n` in base ten, with a minus sign where it is negative.
pub fn push_integer(out: &mut Vec<char>, n: i64)
    ensures
        final(out)@ == old(out)@ + integer_text(n as int),
{
    if n < 0 {
        out.push('-');
        let magnitude: u64 = (-(n + 1)) as u64 + 1;
        push_decimal(out, magnitude);
        assert(out@ =~= old(out)@ + integer_text(n as int));
    } else {
        push_decimal(out, n as u64);
    }
}

/// Appends `v` as a decimal number with at least `keep` fraction places.
pub fn push_thousandths(out: &mut Vec<char>, v: Milli, keep: usize)
    ensures
        final(out)@ == old(out)@ + thousandths_text(v.0 as nat, keep as nat),
{
    let frac: u64 = v.0 % 1000;
    let places: usize = if frac % 10 != 0 || keep >= 3 {
        3
    } else if frac / 10 % 10 != 0 || keep >= 2 {
        2
    } else if frac / 100 % 10 != 0 || keep >= 1 {
        1
    } else {
        0
    };
    push_decimal(out, v.0 / 1000);
    if places >= 1 {
        out.push('.');
        out.push(digit_to_char(frac / 100 % 10));
    }
    if places >= 2 {
        out.push(digit_to_char(frac / 10 % 10));
    }
    if places >= 3 {
        out.push(digit_to_char(frac % 10));
    }
    assert(out@ =~= old(out)@ + thousandths_text(v.0 as nat, keep as nat));
}

/// A number in base ten holds no line feed.
pub proof fn lemma_decimal_text_one_line(n: nat)
    ensures
        line_feeds(decimal_text(n)) == 0,
    decreases n,
{
    let last = decimal_text(n).last();
    assert(last == digit_char(n % 10));
    assert(last != '\n');
    if n < 10 {
        assert(decimal_text(n).drop_last() =~= Seq::<char>::empty());
        assert(line_feeds(Seq::<char>::empty()) == 0);
    } else {
        lemma_decimal_text_one_line(n / 10);
        assert(decimal_text(n).drop_last() =~= decimal_text(n / 10));
    }
    assert(line_feeds(decimal_text(n)) == line_feeds(decimal_text(n).drop_last()));
}

/// A signed number in base ten holds no line feed.
pub proof fn lemma_integer_text_one_line(n: int)
    ensures
        line_feeds(integer_text(n)) == 0,
{
    if n < 0 {
        lemma_decimal_text_one_line((-n) as nat);
        lemma_no_line_feed(seq!['-']);
        lemma_line_feeds_add(seq!['-'], decimal_text((-n) as nat));
    } else {
        lemma_decimal_text_one_line(n as nat);
    }
}

/// A quantity written as a decimal number holds no line feed.
pub proof fn lemma_thousandths_text_one_line(v: nat, keep: nat)
    ensures
        line_feeds(thousandths_text(v, keep)) == 0,
{
    lemma_decimal_text_one_line(v / 1000);
    let places = fraction_text(v % 1000, keep);
    if places.len() > 0 {
        lemma_no_line_feed(seq!['.']);
        lemma_no_line_feed(places);
        lemma_line_feeds_add(decimal_text(v / 1000), seq!['.']);
        lemma_line_feeds_add(decimal_text(v / 1000) + seq!['.'], places);
    }
}

/// A number in base ten is plain.
pub proof fn lemma_decimal_text_plain(n: nat)
    ensures
        is_plain(decimal_text(n)),
    decreases n,
{
    let text = decimal_text(n);
    if n >= 10 {
        lemma_decimal_text_plain(n / 10);
    }
    assert forall|i: int| 0 <= i < text.len() implies {
        let c = #[trigger] text[i];
        c != ',' && c != '"' && c != '\n'
    } by {
        if n >= 10 && i < text.len() - 1 {
            assert(text[i] == decimal_text(n / 10)[i]);
        } else {
            assert(text[i] == digit_char(n % 10));
        }
    }
}

/// A signed number in base ten is plain.
pub proof fn lemma_integer_text_plain(n: int)
    ensures
        is_plain(integer_text(n)),
{
    if n < 0 {
        lemma_decimal_text_plain((-n) as nat);
        lemma_plain_add(seq!['-'], decimal_text((-n) as nat));
    } else {
        lemma_decimal_text_plain(n as nat);
    }
}

/// A quantity written as a decimal number is plain.
pub proof fn lemma_thousandths_text_plain(v: nat, keep: nat)
    ensures
        is_plain(thousandths_text(v, keep)),
{
    lemma_decimal_text_plain(v / 1000);
    let places = fraction_text(v % 1000, keep);
    if places.len() > 0 {
        lemma_plain_add(decimal_text(v / 1000), seq!['.']);
        lemma_plain_add(decimal_text(v / 1000) + seq!['.'], places);
    }
}

} // verus!
