//! Text helpers: decimal and hexadecimal rendering of integers into strings.
//!
//! Reports and error messages of the checkpoint subsystem embed numbers.
//! These functions build those renderings and state exactly which characters
//! they produce.
use vstd::prelude::*;

verus! {

/// The character of a decimal or hexadecimal digit `d` (lower case for 10..15).
pub open spec fn digit_char(d: int) -> char {
    if d == 0 { '0' }
    else if d == 1 { '1' }
    else if d == 2 { '2' }
    else if d == 3 { '3' }
    else if d == 4 { '4' }
    else if d == 5 { '5' }
    else if d == 6 { '6' }
    else if d == 7 { '7' }
    else if d == 8 { '8' }
    else if d == 9 { '9' }
    else if d == 10 { 'a' }
    else if d == 11 { 'b' }
    else if d == 12 { 'c' }
    else if d == 13 { 'd' }
    else if d == 14 { 'e' }
    else { 'f' }
}

/// The decimal rendering of `n`, without leading zeros ("0" for zero).
pub open spec fn decimal(n: nat) -> Seq<char>
    decreases n,
{
    if n < 10 {
        seq![digit_char(n as int)]
    } else {
        decimal(n / 10) + seq![digit_char((n % 10) as int)]
    }
}

/// Whether `c` is one of the decimal digits '0' to '9'.
pub open spec fn decimal_digit(c: char) -> bool {
    c == '0' || c == '1' || c == '2' || c == '3' || c == '4' || c == '5' || c == '6' || c == '7'
        || c == '8' || c == '9'
}

/// The decimal rendering of a number is made of decimal digits only.
pub proof fn lemma_decimal_digits(n: nat)
    ensures
        forall|k: int| 0 <= k < decimal(n).len() ==> decimal_digit(#[trigger] decimal(n)[k]),
    decreases n,
{
    if n >= 10 {
        lemma_decimal_digits(n / 10);
        let a = decimal(n / 10);
        let t = decimal(n);
        assert forall|k: int| 0 <= k < t.len() implies decimal_digit(#[trigger] t[k]) by {
            if k < a.len() {
                assert(t[k] == a[k]);
            }
        }
    }
}

/// The lower-case hexadecimal rendering of `n`, without leading zeros.
pub open spec fn hex(n: nat) -> Seq<char>
    decreases n,
{
    if n < 16 {
        seq![digit_char(n as int)]
    } else {
        hex(n / 16) + seq![digit_char((n % 16) as int)]
    }
}

/// The decimal rendering of a signed integer, with a leading '-' when negative.
pub open spec fn signed_decimal(n: int) -> Seq<char> {
    if n < 0 {
        seq!['-'] + decimal((-n) as nat)
    } else {
        decimal(n as nat)
    }
}

fn digit_str(d: u64) -> (s: &'static str)
    requires
        d < 16,
    ensures
        s@ == seq![digit_char(d as int)],
{
    if d == 0 { proof { reveal_strlit("0"); } "0" }
    else if d == 1 { proof { reveal_strlit("1"); } "1" }
    else if d == 2 { proof { reveal_strlit("2"); } "2" }
    else if d == 3 { proof { reveal_strlit("3"); } "3" }
    else if d == 4 { proof { reveal_strlit("4"); } "4" }
    else if d == 5 { proof { reveal_strlit("5"); } "5" }
    else if d == 6 { proof { reveal_strlit("6"); } "6" }
    else if d == 7 { proof { reveal_strlit("7"); } "7" }
    else if d == 8 { proof { reveal_strlit("8"); } "8" }
    else if d == 9 { proof { reveal_strlit("9"); } "9" }
    else if d == 10 { proof { reveal_strlit("a"); } "a" }
    else if d == 11 { proof { reveal_strlit("b"); } "b" }
    else if d == 12 { proof { reveal_strlit("c"); } "c" }
    else if d == 13 { proof { reveal_strlit("d"); } "d" }
    else if d == 14 { proof { reveal_strlit("e"); } "e" }
    else { proof { reveal_strlit("f"); } "f" }
}

/// Appends the decimal rendering of `n` to `s`.
pub fn push_decimal(s: &mut String, n: u64)
    ensures
        final(s)@ == old(s)@ + decimal(n as nat),
    decreases n,
{
    if n >= 10 {
        push_decimal(s, n / 10);
        let ghost mid = s@;
        s.append(digit_str(n % 10));
        assert(s@ == mid + seq![digit_char((n % 10) as int)]);
    } else {
        s.append(digit_str(n));
    }
}

/// Appends the lower-case hexadecimal rendering of `n` to `s`.
pub fn push_hex(s: &mut String, n: u64)
    ensures
        final(s)@ == old(s)@ + hex(n as nat),
    decreases n,
{
    if n >= 16 {
        push_hex(s, n / 16);
        s.append(digit_str(n % 16));
    } else {
        s.append(digit_str(n));
    }
}

/// Appends the decimal rendering of the signed integer `n` to `s`.
pub fn push_signed_decimal(s: &mut String, n: i64)
    ensures
        final(s)@ == old(s)@ + signed_decimal(n as int),
{
    if n < 0 {
        proof { reveal_strlit("-"); }
        s.append("-");
        let m: u64 = if n == i64::MIN {
            9223372036854775808u64
        } else {
            (-n) as u64
        };
        let ghost mid = s@;
        push_decimal(s, m);
        assert(mid == old(s)@ + seq!['-']);
    } else {
        push_decimal(s, n as u64);
    }
}

/// The decimal rendering of `n` as a new string.
pub fn decimal_string(n: u64) -> (s: String)
    ensures
        s@ == decimal(n as nat),
{
    let mut s = String::new();
    push_decimal(&mut s, n);
    assert(s@ =~= decimal(n as nat));
    s
}

/// A new string holding the characters of `text`.
pub fn owned(text: &str) -> (s: String)
    ensures
        s@ == text@,
{
    text.to_owned()
}

/// The Debug rendering of a byte sequence: "[b0, b1, ...]".
pub open spec fn byte_list_text(bytes: Seq<u8>) -> Seq<char>
    decreases bytes.len(),
{
    "["@ + byte_items_text(bytes) + "]"@
}

/// The items of a byte list separated by ", ".
pub open spec fn byte_items_text(bytes: Seq<u8>) -> Seq<char>
    decreases bytes.len(),
{
    if bytes.len() == 0 {
        Seq::empty()
    } else if bytes.len() == 1 {
        decimal(bytes[0] as nat)
    } else {
        byte_items_text(bytes.drop_last()) + ", "@ + decimal(bytes.last() as nat)
    }
}

/// Appends the Debug rendering of `bytes`, such as "[1, 2, 3]".
pub fn push_byte_list(s: &mut String, bytes: &[u8])
    ensures
        final(s)@ == old(s)@ + byte_list_text(bytes@),
{
    s.append("[");
    let ghost start = s@;
    let mut i: usize = 0;
    while i < bytes.len()
        invariant
            0 <= i <= bytes@.len(),
            s@ == start + byte_items_text(bytes@.subrange(0, i as int)),
        decreases bytes@.len() - i,
    {
        let ghost prev = s@;
        if i > 0 {
            s.append(", ");
        }
        push_decimal(s, bytes[i] as u64);
        proof {
            let sub = bytes@.subrange(0, i as int + 1);
            assert(sub.drop_last() =~= bytes@.subrange(0, i as int));
            assert(sub.last() == bytes@[i as int]);
            if i == 0 {
                assert(bytes@.subrange(0, 0) =~= Seq::<u8>::empty());
                assert(prev == start);
            }
        }
        i = i + 1;
    }
    assert(bytes@.subrange(0, bytes@.len() as int) =~= bytes@);
    s.append("]");
}

} // verus!
