use vstd::prelude::*;

verus! {

/// Believed, not proved: `String::push` of the standard library appends the
/// character `ch` to the end of the string and leaves what was in it as it
/// was.
pub assume_specification[ String::push ](s: &mut String, ch: char)
    ensures
        final(s)@ == old(s)@.push(ch),
;

/// The digit that stands for `d`, for `d` below 16: `0` to `9`, then `A` to
/// `F`.
pub open spec fn digit_char(d: nat) -> char {
    if d < 10 {
        ('0' as u32 + d as u32) as char
    } else {
        ('A' as u32 + (d - 10) as u32) as char
    }
}

/// The hexadecimal digits of `v`, the most significant first, with no
/// leading zero; one digit `0` for zero.
pub open spec fn hex_digits(v: nat) -> Seq<char>
    decreases v,
{
    if v < 16 {
        seq![digit_char(v)]
    } else {
        hex_digits(v / 16).push(digit_char(v % 16))
    }
}

/// The decimal digits of `v`, the most significant first, with no leading
/// zero; one digit `0` for zero.
pub open spec fn decimal(v: nat) -> Seq<char>
    decreases v,
{
    if v < 10 {
        seq![digit_char(v)]
    } else {
        decimal(v / 10).push(digit_char(v % 10))
    }
}

/// `count` zeros.
pub open spec fn zeros(count: nat) -> Seq<char> {
    Seq::new(count, |i: int| '0')
}

/// `v` in upper-case hexadecimal, with zeros in front of the digits where
/// they are fewer than `width`.
pub open spec fn upper_hex(v: nat, width: nat) -> Seq<char> {
    let d = hex_digits(v);
    if d.len() < width {
        zeros((width - d.len()) as nat) + d
    } else {
        d
    }
}

/// The digit that stands for `d`.
fn digit_of(d: usize) -> (c: char)
    requires
        d < 16,
    ensures
        c == digit_char(d as nat),
{
    if d < 10 {
        (48u8 + d as u8) as char
    } else {
        (55u8 + d as u8) as char
    }
}

/// The number of hexadecimal digits of `v`.
fn count_hex_digits(v: usize) -> (count: usize)
    ensures
        count == hex_digits(v as nat).len(),
        count == 1 || count <= v,
    decreases v,
{
    if v < 16 {
        1
    } else {
        count_hex_digits(v / 16) + 1
    }
}

/// Appends the hexadecimal digits of `v`.
fn push_hex_digits(s: &mut String, v: usize)
    ensures
        final(s)@ == old(s)@ + hex_digits(v as nat),
    decreases v,
{
    if v >= 16 {
        push_hex_digits(s, v / 16);
    }
    s.push(digit_of(v % 16));
    assert(s@ =~= old(s)@ + hex_digits(v as nat));
}

/// Appends `v` in upper-case hexadecimal, at least `width` digits wide.
pub fn push_upper_hex(s: &mut String, v: usize, width: usize)
    ensures
        final(s)@ == old(s)@ + upper_hex(v as nat, width as nat),
{
    let count = count_hex_digits(v);
    let mut k: usize = count;
    while k < width
        invariant
            count <= k,
            k <= width || k == count,
            s@ == old(s)@ + zeros((k - count) as nat),
        decreases width - k,
    {
        s.push('0');
        k += 1;
        assert(s@ =~= old(s)@ + zeros((k - count) as nat));
    }
    push_hex_digits(s, v);
    assert(s@ =~= old(s)@ + upper_hex(v as nat, width as nat));
}

/// Appends `v` in decimal.
pub fn push_decimal(s: &mut String, v: usize)
    ensures
        final(s)@ == old(s)@ + decimal(v as nat),
    decreases v,
{
    if v >= 10 {
        push_decimal(s, v / 10);
    }
    s.push(digit_of(v % 10));
    assert(s@ =~= old(s)@ + decimal(v as nat));
}

} // verus!
