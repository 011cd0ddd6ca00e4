//! Characters in and out of strings, and the notations that numeric fields
//! are rendered in: plain decimal, `H:MM:SS`, and binary-prefixed byte
//! counts with two decimals.

use vstd::prelude::*;
use vstd::std_specs::iter::IteratorSpec;

verus! {

/// `String::push`: the string afterwards is the string before followed by `c`.
#[verifier::external_body]
pub(crate) fn push_char(s: &mut String, c: char)
    ensures
        final(s)@ == old(s)@.push(c),
{
    s.push(c);
}

/// The characters of `s`, in order.
pub fn chars_of(s: &str) -> (v: Vec<char>)
    ensures
        v@ == s@,
{
    broadcast use vstd::string::group_string_axioms;

    let mut v: Vec<char> = Vec::new();
    let mut it = s.chars();
    loop
        invariant
            it.obeys_prophetic_iter_laws(),
            v@ + it.remaining() == s@,
            it.decrease() is Some,
        decreases it.decrease()->0,
    {
        match it.next() {
            Some(c) => {
                v.push(c);
                assert(v@ + it.remaining() =~= s@);
            },
            None => {
                assert(v@ + it.remaining() =~= v@);
                return v;
            },
        }
    }
}

/// The characters of `text` from `from` up to `to` as a string.
pub(crate) fn string_of(text: &Vec<char>, from: usize, to: usize) -> (s: String)
    requires
        from <= to <= text.len(),
    ensures
        s@ == text@.subrange(from as int, to as int),
{
    let mut s = String::new();
    let mut i: usize = from;
    while i < to
        invariant
            from <= i <= to <= text.len(),
            s@ == text@.subrange(from as int, i as int),
        decreases to - i,
    {
        push_char(&mut s, text[i]);
        i += 1;
        assert(s@ =~= text@.subrange(from as int, i as int));
    }
    s
}

/// The decimal digit that stands for `d`.
pub open spec fn digit(d: nat) -> char
    recommends
        d < 10,
{
    (0x30 + d) as char
}

/// `n` in decimal, without leading zeros.
pub open spec fn decimal(n: nat) -> Seq<char>
    decreases n,
{
    if n < 10 {
        seq![digit(n)]
    } else {
        decimal(n / 10).push(digit(n % 10))
    }
}

/// `n` in exactly two decimal digits.
pub open spec fn two_digits(n: nat) -> Seq<char>
    recommends
        n < 100,
{
    seq![digit(n / 10), digit(n % 10)]
}

/// A count of seconds as `H:MM:SS`: hours unbounded, minutes and seconds in
/// two digits each.
pub open spec fn clock(secs: nat) -> Seq<char> {
    decimal(secs / 3600) + seq![':'] + two_digits((secs % 3600) / 60) + seq![':'] + two_digits(
        secs % 60,
    )
}

pub(crate) fn digit_of(d: u64) -> (c: char)
    requires
        d < 10,
    ensures
        c == digit(d as nat),
{
    let b: u8 = 48u8 + d as u8;
    b as char
}

/// Appends `n` in decimal to `out`.
pub fn push_decimal(out: &mut String, n: u64)
    ensures
        final(out)@ == old(out)@ + decimal(n as nat),
    decreases n,
{
    if n >= 10 {
        push_decimal(out, n / 10);
    }
    push_char(out, digit_of(n % 10));
    assert(out@ =~= old(out)@ + decimal(n as nat));
}

/// Appends `n` in two digits to `out`.
pub(crate) fn push_two_digits(out: &mut String, n: u64)
    requires
        n < 100,
    ensures
        final(out)@ == old(out)@ + two_digits(n as nat),
{
    push_char(out, digit_of(n / 10));
    push_char(out, digit_of(n % 10));
    assert(out@ =~= old(out)@ + two_digits(n as nat));
}

/// A count of seconds in the form `H:MM:SS`.
pub fn duration_to_human(secs: u64) -> (s: String)
    ensures
        s@ == clock(secs as nat),
{
    let mut s = String::new();
    push_decimal(&mut s, secs / 3600);
    push_char(&mut s, ':');
    push_two_digits(&mut s, (secs % 3600) / 60);
    push_char(&mut s, ':');
    push_two_digits(&mut s, secs % 60);
    assert(s@ =~= clock(secs as nat));
    s
}

/// One kibibyte, in bytes.
pub const KIB: u64 = 1024;

/// One mebibyte, in bytes.
pub const MIB: u64 = 1048576;

/// One gibibyte, in bytes.
pub const GIB: u64 = 1073741824;

/// One tebibyte, in bytes.
pub const TIB: u64 = 1099511627776;

/// `bytes / unit` in hundredths, rounded to the nearest hundredth; a quotient
/// that lies exactly between two hundredths goes to the even one.
pub open spec fn hundredths(bytes: nat, unit: nat) -> nat
    recommends
        unit > 0,
{
    let q = (bytes * 100) / unit;
    let r = (bytes * 100) % unit;
    if 2 * r > unit || (2 * r == unit && q % 2 == 1) {
        q + 1
    } else {
        q
    }
}

/// A count of hundredths with two decimal places.
pub open spec fn fixed2(h: nat) -> Seq<char> {
    decimal(h / 100) + seq!['.'] + two_digits(h % 100)
}

/// A byte count with a binary prefix: a plain count with ` B` below 1024,
/// otherwise two decimals of the largest of KiB, MiB, GiB and TiB that the
/// count reaches.
pub open spec fn scaled(bytes: nat) -> Seq<char> {
    if bytes < KIB {
        decimal(bytes) + seq![' ', 'B']
    } else if bytes < MIB {
        fixed2(hundredths(bytes, KIB as nat)) + seq![' ', 'K', 'i', 'B']
    } else if bytes < GIB {
        fixed2(hundredths(bytes, MIB as nat)) + seq![' ', 'M', 'i', 'B']
    } else if bytes < TIB {
        fixed2(hundredths(bytes, GIB as nat)) + seq![' ', 'G', 'i', 'B']
    } else {
        fixed2(hundredths(bytes, TIB as nat)) + seq![' ', 'T', 'i', 'B']
    }
}

fn hundredths_of(bytes: u64, unit: u64) -> (h: u64)
    requires
        unit >= 1024,
    ensures
        h == hundredths(bytes as nat, unit as nat),
{
    let scaled: u128 = bytes as u128 * 100;
    let q: u128 = scaled / (unit as u128);
    let r: u128 = scaled % (unit as u128);
    assert(q <= scaled / 1024) by (nonlinear_arith)
        requires
            q == scaled / (unit as u128),
            unit >= 1024,
            scaled >= 0,
    ;
    if 2 * r > unit as u128 || (2 * r == unit as u128 && q % 2 == 1) {
        (q + 1) as u64
    } else {
        q as u64
    }
}

fn push_fixed2(out: &mut String, h: u64)
    ensures
        final(out)@ == old(out)@ + fixed2(h as nat),
{
    push_decimal(out, h / 100);
    push_char(out, '.');
    push_two_digits(out, h % 100);
    assert(out@ =~= old(out)@ + fixed2(h as nat));
}

/// Appends `bytes` as a binary-prefixed byte count to `out`.
pub fn push_bytes(out: &mut String, bytes: u64)
    ensures
        final(out)@ == old(out)@ + scaled(bytes as nat),
{
    if bytes < KIB {
        push_decimal(out, bytes);
        push_char(out, ' ');
        push_char(out, 'B');
    } else {
        let (unit, prefix): (u64, char) = if bytes < MIB {
            (KIB, 'K')
        } else if bytes < GIB {
            (MIB, 'M')
        } else if bytes < TIB {
            (GIB, 'G')
        } else {
            (TIB, 'T')
        };
        push_fixed2(out, hundredths_of(bytes, unit));
        push_char(out, ' ');
        push_char(out, prefix);
        push_char(out, 'i');
        push_char(out, 'B');
    }
    assert(out@ =~= old(out)@ + scaled(bytes as nat));
}

/// A byte count with a binary prefix, such as `0 B` or `1.50 KiB`.
pub fn bytes_to_human(bytes: u64) -> (s: String)
    ensures
        s@ == scaled(bytes as nat),
{
    let mut s = String::new();
    push_bytes(&mut s, bytes);
    s
}

} // verus!
