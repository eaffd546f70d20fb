//! Lowercase hexadecimal text of bytes and of unsigned integers.

use vstd::prelude::*;

verus! {

/// The lowercase hexadecimal digit that stands for `n`, for `0 <= n < 16`.
pub open spec fn hex_digit(n: int) -> char {
    seq![
        '0', '1', '2', '3', '4', '5', '6', '7', '8', '9', 'a', 'b', 'c', 'd', 'e', 'f',
    ][n]
}

/// Whether `c` is one of `0`..`9`, `a`..`f`.
pub open spec fn is_lower_hex(c: char) -> bool {
    ('0' <= c && c <= '9') || ('a' <= c && c <= 'f')
}

/// Whether every character of `s` is a lowercase hexadecimal digit.
pub open spec fn all_lower_hex(s: Seq<char>) -> bool {
    forall|i: int| 0 <= i < s.len() ==> is_lower_hex(#[trigger] s[i])
}

/// Two digits for each byte, the high half first: character `i` shows one half
/// of byte `i / 2`.
pub open spec fn hex_of_bytes(bytes: Seq<u8>) -> Seq<char> {
    Seq::new(
        2 * bytes.len(),
        |i: int|
            if i % 2 == 0 {
                hex_digit(bytes[i / 2] as int / 16)
            } else {
                hex_digit(bytes[i / 2] as int % 16)
            },
    )
}

/// The number of hexadecimal digits that `n` needs; zero needs one.
pub open spec fn hex_len(n: nat) -> nat
    decreases n,
{
    if n < 16 {
        1
    } else {
        1 + hex_len(n / 16)
    }
}

/// The `width` lowest hexadecimal digits of `n`, the highest of them first.
pub open spec fn hex_digits(n: nat, width: nat) -> Seq<char>
    decreases width,
{
    if width == 0 {
        Seq::empty()
    } else {
        hex_digits(n / 16, (width - 1) as nat).push(hex_digit((n % 16) as int))
    }
}

/// `n` in hexadecimal without a prefix, with zeros in front where it has fewer
/// than `min_width` digits.
pub open spec fn lower_hex(n: nat, min_width: nat) -> Seq<char> {
    hex_digits(
        n,
        if hex_len(n) >= min_width {
            hex_len(n)
        } else {
            min_width
        },
    )
}

/// Every value of `hex_digit` on its range is a lowercase hexadecimal digit.
pub proof fn lemma_hex_digit_is_lower_hex(n: int)
    requires
        0 <= n < 16,
    ensures
        is_lower_hex(hex_digit(n)),
{
}

/// The text of `k` bytes has `2 * k` characters, all of them lowercase
/// hexadecimal digits.
pub proof fn lemma_hex_of_bytes_shape(bytes: Seq<u8>)
    ensures
        hex_of_bytes(bytes).len() == 2 * bytes.len(),
        all_lower_hex(hex_of_bytes(bytes)),
{
    let s = hex_of_bytes(bytes);
    assert forall|i: int| 0 <= i < s.len() implies is_lower_hex(#[trigger] s[i]) by {
        let b = bytes[i / 2] as int;
        lemma_hex_digit_is_lower_hex(b / 16);
        lemma_hex_digit_is_lower_hex(b % 16);
    }
}

/// `hex_digits` yields exactly `width` characters, all of them lowercase
/// hexadecimal digits.
pub proof fn lemma_hex_digits_shape(n: nat, width: nat)
    ensures
        hex_digits(n, width).len() == width,
        all_lower_hex(hex_digits(n, width)),
    decreases width,
{
    if width > 0 {
        lemma_hex_digits_shape(n / 16, (width - 1) as nat);
        lemma_hex_digit_is_lower_hex((n % 16) as int);
    }
}

/// `16^k`.
pub open spec fn pow16(k: nat) -> nat
    decreases k,
{
    if k == 0 {
        1
    } else {
        16 * pow16((k - 1) as nat)
    }
}

/// A number below `16^k` needs at most `k` digits.
pub proof fn lemma_hex_len_bound(n: nat, k: nat)
    requires
        k >= 1,
        n < pow16(k),
    ensures
        1 <= hex_len(n) <= k,
    decreases k,
{
    reveal_with_fuel(pow16, 2);
    if n >= 16 {
        lemma_hex_len_bound(n / 16, (k - 1) as nat);
    }
}

/// The lowercase hexadecimal digit for `n`.
pub(crate) fn hex_digit_of(n: u8) -> (c: char)
    requires
        n < 16,
    ensures
        c == hex_digit(n as int),
{
    match n {
        0 => '0',
        1 => '1',
        2 => '2',
        3 => '3',
        4 => '4',
        5 => '5',
        6 => '6',
        7 => '7',
        8 => '8',
        9 => '9',
        10 => 'a',
        11 => 'b',
        12 => 'c',
        13 => 'd',
        14 => 'e',
        _ => 'f',
    }
}

/// The number of hexadecimal digits of `n`: between 1 and 16.
pub fn hex_len_u64(n: u64) -> (len: usize)
    ensures
        len == hex_len(n as nat),
        1 <= len <= 16,
    decreases n,
{
    proof {
        reveal_with_fuel(pow16, 17);
        lemma_hex_len_bound(n as nat, 16);
    }
    if n < 16 {
        1
    } else {
        1 + hex_len_u64(n / 16)
    }
}

/// Appends the `width` lowest hexadecimal digits of `n` to `out`.
pub(crate) fn push_hex_digits(out: &mut String, n: u64, width: usize)
    ensures
        final(out)@ == old(out)@ + hex_digits(n as nat, width as nat),
    decreases width,
{
    if width > 0 {
        push_hex_digits(out, n / 16, width - 1);
        out.push(hex_digit_of((n % 16) as u8));
    }
}

/// Appends `n` in lowercase hexadecimal to `out`, with zeros in front up to
/// `min_width` digits.
pub(crate) fn push_lower_hex(out: &mut String, n: u64, min_width: usize)
    ensures
        final(out)@ == old(out)@ + lower_hex(n as nat, min_width as nat),
{
    let len = hex_len_u64(n);
    let width = if len >= min_width {
        len
    } else {
        min_width
    };
    push_hex_digits(out, n, width);
}

/// Appends two lowercase hexadecimal digits for each byte of `bytes` to `out`.
pub(crate) fn push_hex_of_bytes(out: &mut String, bytes: &[u8])
    ensures
        final(out)@ == old(out)@ + hex_of_bytes(bytes@),
{
    let mut i: usize = 0;
    while i < bytes.len()
        invariant
            i <= bytes.len(),
            out@ == old(out)@ + hex_of_bytes(bytes@.take(i as int)),
        decreases bytes.len() - i,
    {
        let b = bytes[i];
        out.push(hex_digit_of(b / 16));
        out.push(hex_digit_of(b % 16));
        i += 1;
        assert(hex_of_bytes(bytes@.take(i as int)) =~= hex_of_bytes(
            bytes@.take(i as int - 1),
        ).push(hex_digit(b as int / 16)).push(hex_digit(b as int % 16)));
    }
    assert(bytes@.take(i as int) == bytes@);
}

/// A byte slice whose text is two lowercase hexadecimal digits per byte.
pub struct Bytes<'a>(pub &'a [u8]);

impl<'a> Bytes<'a> {
    /// The bytes in lowercase hexadecimal, without separators.
    pub fn to_lower_hex(&self) -> (out: String)
        ensures
            out@ == hex_of_bytes(self.0@),
    {
        let mut out = String::new();
        push_hex_of_bytes(&mut out, self.0);
        out
    }
}

} // verus!
