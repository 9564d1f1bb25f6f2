//! Small text helpers over the character view of strings.

use vstd::prelude::*;

verus! {

/// Relies on String::push: the character is appended at the end.
#[verifier::external_body]
pub(crate) fn push_char(s: &mut String, c: char)
    ensures
        final(s)@ == old(s)@.push(c),
{
    s.push(c)
}

/// The decimal digit for `d`.
pub open spec fn digit_char(d: nat) -> char
    recommends
        d < 10,
{
    ((48 + d) as u8) as char
}

fn digit(d: u32) -> (c: char)
    requires
        d < 10,
    ensures
        c == digit_char(d as nat),
{
    ((48 + d) as u8) as char
}

/// The decimal digits of `n`, most significant first, without leading zeros.
pub open spec fn decimal(n: nat) -> Seq<char>
    decreases n,
{
    if n < 10 {
        seq![digit_char(n)]
    } else {
        decimal(n / 10).push(digit_char(n % 10))
    }
}

/// `n` in decimal, with zeros in front up to `width` characters.
pub open spec fn padded(n: nat, width: nat) -> Seq<char> {
    let d = decimal(n);
    if d.len() < width {
        Seq::new((width - d.len()) as nat, |i: int| '0') + d
    } else {
        d
    }
}

fn decimal_len(n: u32) -> (r: usize)
    ensures
        r == decimal(n as nat).len(),
        1 <= r <= n as int + 1,
    decreases n,
{
    if n < 10 {
        1
    } else {
        decimal_len(n / 10) + 1
    }
}

fn push_decimal(s: &mut String, n: u32)
    ensures
        final(s)@ == old(s)@ + decimal(n as nat),
    decreases n,
{
    if n >= 10 {
        push_decimal(s, n / 10);
    }
    push_char(s, digit(n % 10));
    assert(decimal(n as nat) =~= if n < 10 { seq![digit_char(n as nat)] } else { decimal((n / 10) as nat).push(digit_char((n % 10) as nat)) });
}

/// Appends `n` in decimal, zero-padded to `width` characters.
pub(crate) fn push_padded(s: &mut String, n: u32, width: usize)
    ensures
        final(s)@ == old(s)@ + padded(n as nat, width as nat),
{
    let len = decimal_len(n);
    let ghost start = s@;
    let mut k = len;
    while k < width
        invariant
            len <= k,
            len == decimal(n as nat).len(),
            len < width ==> k <= width,
            len >= width ==> k == len,
            s@ == start + Seq::new((k - len) as nat, |i: int| '0'),
        decreases width - k,
    {
        push_char(s, '0');
        assert(Seq::new((k + 1 - len) as nat, |i: int| '0') =~= Seq::new((k - len) as nat, |i: int| '0').push('0'));
        k = k + 1;
    }
    push_decimal(s, n);
    if len < width {
        assert(s@ =~= start + padded(n as nat, width as nat));
    } else {
        assert(Seq::new((k - len) as nat, |i: int| '0') =~= Seq::<char>::empty());
        assert(s@ =~= start + padded(n as nat, width as nat));
    }
}

/// Appends the characters of `text`.
pub(crate) fn push_str(s: &mut String, text: &str)
    ensures
        final(s)@ == old(s)@ + text@,
{
    let ghost start = s@;
    for c in it: text.chars()
        invariant
            s@ == start + it.seq().take(it.index() as int),
    {
        push_char(s, c);
        assert(it.seq().take(it.index() + 1) =~= it.seq().take(it.index() as int).push(c));
    }
}

/// The characters of `s`, one per element.
pub(crate) fn chars_of(s: &str) -> (r: Vec<char>)
    ensures
        r@ == s@,
{
    let mut r: Vec<char> = Vec::new();
    for c in it: s.chars()
        invariant
            r@ == it.seq().take(it.index() as int),
    {
        r.push(c);
        assert(it.seq().take(it.index() + 1) =~= it.seq().take(it.index() as int).push(c));
    }
    r
}

/// The characters of `chars` from `start` up to `end`, as a string.
pub(crate) fn string_of(chars: &Vec<char>, start: usize, end: usize) -> (r: String)
    requires
        start <= end <= chars@.len(),
    ensures
        r@ == chars@.subrange(start as int, end as int),
{
    let mut r = String::new();
    let mut i = start;
    while i < end
        invariant
            start <= i <= end,
            end <= chars@.len(),
            r@ == chars@.subrange(start as int, i as int),
        decreases end - i,
    {
        push_char(&mut r, chars[i]);
        assert(chars@.subrange(start as int, i + 1) =~= chars@.subrange(start as int, i as int).push(chars@[i as int]));
        i = i + 1;
    }
    r
}

} // verus!
