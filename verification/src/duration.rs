//! A span of time, held as whole seconds plus a nanosecond remainder.
//!
//! Checkpoint strategies, validation timeouts and elapsed times are measured
//! with this type. Its model is the total number of nanoseconds.
use vstd::prelude::*;
use crate::text::{decimal, digit_char, push_decimal};

verus! {

/// Nanoseconds per second.
pub const NANOS_PER_SEC: u64 = 1_000_000_000;

/// A span of time: `secs` whole seconds plus `nanos` (< one second) nanoseconds.
#[derive(Clone, Copy, Debug, PartialEq, Eq, PartialOrd, Ord, Hash, Structural)]
pub struct Duration {
    secs: u64,
    nanos: u32,
}

impl View for Duration {
    type V = nat;

    /// The span in nanoseconds.
    closed spec fn view(&self) -> nat {
        (self.secs as nat) * 1_000_000_000 + self.nanos as nat
    }
}

/// The largest span a `Duration` can hold, in nanoseconds.
pub open spec fn max_duration_nanos() -> nat {
    (u64::MAX as nat) * 1_000_000_000 + 999_999_999
}


/// The last `width` decimal digits of `v`, zero-padded on the left.
pub open spec fn padded(v: nat, width: nat) -> Seq<char>
    decreases width,
{
    if width == 0 {
        Seq::empty()
    } else {
        padded(v / 10, (width - 1) as nat).push(digit_char((v % 10) as int))
    }
}

/// A zero-padded rendering is made of decimal digits only.
pub proof fn lemma_padded_digits(v: nat, width: nat)
    ensures
        forall|k: int| 0 <= k < padded(v, width).len() ==> crate::text::decimal_digit(#[trigger] padded(v, width)[k]),
    decreases width,
{
    if width > 0 {
        lemma_padded_digits(v / 10, (width - 1) as nat);
        let a = padded(v / 10, (width - 1) as nat);
        let t = padded(v, width);
        assert forall|k: int| 0 <= k < t.len() implies crate::text::decimal_digit(#[trigger] t[k]) by {
            if k < a.len() {
                assert(t[k] == a[k]);
            }
        }
    }
}

/// `s` without its trailing '0' characters.
pub open spec fn trim_zeros(s: Seq<char>) -> Seq<char>
    decreases s.len(),
{
    if s.len() > 0 && s.last() == '0' {
        trim_zeros(s.drop_last())
    } else {
        s
    }
}

/// The fractional part `v / 10^width`, as a '.' and its significant digits; empty when `v` is zero.
pub open spec fn fraction(v: nat, width: nat) -> Seq<char> {
    if v == 0 {
        Seq::empty()
    } else {
        seq!['.'] + trim_zeros(padded(v, width))
    }
}

/// The debug rendering of a span of `n` nanoseconds: in seconds when at least a second,
/// else in milliseconds, microseconds or nanoseconds, with an exact fractional part.
pub open spec fn duration_text(n: nat) -> Seq<char> {
    let secs = n / 1_000_000_000;
    let sub = n % 1_000_000_000;
    if secs > 0 {
        decimal(secs) + fraction(sub, 9) + seq!['s']
    } else if sub >= 1_000_000 {
        decimal(sub / 1_000_000) + fraction(sub % 1_000_000, 6) + seq!['m', 's']
    } else if sub >= 1000 {
        decimal(sub / 1000) + fraction(sub % 1000, 3) + seq!['\u{b5}', 's']
    } else {
        decimal(sub) + seq!['n', 's']
    }
}

pub(crate) fn push_padded(s: &mut String, v: u64, width: u64)
    ensures
        final(s)@ == old(s)@ + padded(v as nat, width as nat),
    decreases width,
{
    if width > 0 {
        push_padded(s, v / 10, width - 1);
        let ghost mid = s@;
        push_decimal(s, v % 10);
        proof {
            assert(crate::text::decimal((v % 10) as nat) == seq![digit_char((v % 10) as int)]);
            assert(s@ =~= old(s)@ + padded(v as nat, width as nat));
        }
    }
}

proof fn lemma_trim_padded(v: nat, width: nat)
    requires
        v > 0,
        width > 0,
        v % 10 == 0,
    ensures
        trim_zeros(padded(v, width)) == trim_zeros(padded(v / 10, (width - 1) as nat)),
{
    let p = padded(v, width);
    assert(p.last() == '0');
    assert(p.drop_last() =~= padded(v / 10, (width - 1) as nat));
}

proof fn lemma_trim_nonzero(v: nat, width: nat)
    requires
        v % 10 != 0,
        width > 0,
    ensures
        trim_zeros(padded(v, width)) == padded(v, width),
{
    let d = v % 10;
    assert(padded(v, width).last() == digit_char(d as int));
    assert(digit_char(d as int) != '0');
}

fn push_fraction(s: &mut String, v: u64, width: u64)
    requires
        v < 1_000_000_000,
        width <= 9,
        v > 0 ==> width > 0,
    ensures
        final(s)@ == old(s)@ + fraction(v as nat, width as nat),
{
    if v == 0 {
        assert(old(s)@ + fraction(v as nat, width as nat) =~= old(s)@);
        return;
    }
    proof { reveal_strlit("."); }
    s.append(".");
    let mut d = v;
    let mut w = width;
    while d % 10 == 0 && w > 1
        invariant
            d > 0,
            1 <= w <= width,
            trim_zeros(padded(d as nat, w as nat)) == trim_zeros(padded(v as nat, width as nat)),
        decreases w,
    {
        proof { lemma_trim_padded(d as nat, w as nat); }
        d = d / 10;
        w = w - 1;
    }
    proof {
        if d % 10 != 0 {
            lemma_trim_nonzero(d as nat, w as nat);
        } else {
            // w == 1 and the last digit is zero: the digits trim to nothing
            lemma_trim_padded(d as nat, w as nat);
        }
    }
    let ghost before = s@;
    if d % 10 != 0 {
        push_padded(s, d, w);
        assert(s@ =~= old(s)@ + fraction(v as nat, width as nat));
    } else {
        proof {
            assert(padded((d / 10) as nat, 0) =~= Seq::<char>::empty());
            assert(trim_zeros(Seq::<char>::empty()) =~= Seq::<char>::empty());
            assert(s@ =~= old(s)@ + fraction(v as nat, width as nat));
        }
    }
}

impl Duration {
    #[verifier::type_invariant]
    spec fn well_formed(self) -> bool {
        self.nanos < 1_000_000_000
    }

    proof fn lemma_view_bounds(self)
        requires
            self.well_formed(),
        ensures
            self@ <= max_duration_nanos(),
            self@ / 1_000_000_000 == self.secs,
            self@ % 1_000_000_000 == self.nanos,
    {
        let s = self.secs as nat;
        let n = self.nanos as nat;
        assert(s * 1_000_000_000 <= (u64::MAX as nat) * 1_000_000_000) by (nonlinear_arith)
            requires s <= u64::MAX;
        vstd::arithmetic::div_mod::lemma_fundamental_div_mod_converse(
            (s * 1_000_000_000 + n) as int, 1_000_000_000, s as int, n as int);
    }

    /// The span of zero length.
    pub fn zero() -> (d: Duration)
        ensures
            d@ == 0,
    {
        Duration { secs: 0, nanos: 0 }
    }

    /// A span of `secs` whole seconds.
    pub fn from_secs(secs: u64) -> (d: Duration)
        ensures
            d@ == secs * 1_000_000_000,
    {
        Duration { secs, nanos: 0 }
    }

    /// A span of `secs` seconds and `nanos` nanoseconds; the nanoseconds may exceed a
    /// second, as long as the total fits.
    pub fn new(secs: u64, nanos: u32) -> (d: Duration)
        requires
            secs + nanos / 1_000_000_000 <= u64::MAX,
        ensures
            d@ == secs * 1_000_000_000 + nanos,
    {
        let carry = (nanos / 1_000_000_000) as u64;
        let rest = nanos % 1_000_000_000;
        assert(carry * 1_000_000_000 + rest == nanos) by (nonlinear_arith)
            requires carry == nanos / 1_000_000_000, rest == nanos % 1_000_000_000;
        Duration { secs: secs + carry, nanos: rest }
    }

    /// A span of `millis` milliseconds.
    pub fn from_millis(millis: u64) -> (d: Duration)
        ensures
            d@ == millis * 1_000_000,
    {
        let secs = millis / 1000;
        let rem = millis % 1000;
        let nanos = (rem * 1_000_000) as u32;
        assert(millis * 1_000_000 == secs * 1_000_000_000 + rem * 1_000_000) by (nonlinear_arith)
            requires secs == millis / 1000, rem == millis % 1000;
        Duration { secs, nanos }
    }

    /// The whole seconds of the span (rounded down).
    pub fn as_secs(&self) -> (s: u64)
        ensures
            s == self@ / 1_000_000_000,
    {
        proof {
            use_type_invariant(self);
            self.lemma_view_bounds();
        }
        self.secs
    }

    /// The whole milliseconds of the span (rounded down).
    pub fn as_millis(&self) -> (m: u128)
        ensures
            m == self@ / 1_000_000,
    {
        proof {
            use_type_invariant(self);
        }
        let m = (self.secs as u128) * 1000 + (self.nanos / 1_000_000) as u128;
        proof {
            let s = self.secs as int;
            let n = self.nanos as int;
            assert((s * 1_000_000_000 + n) / 1_000_000 == s * 1000 + n / 1_000_000) by (nonlinear_arith)
                requires 0 <= n < 1_000_000_000, 0 <= s;
        }
        m
    }

    /// Whether this span is shorter than `other`.
    pub fn lt(&self, other: &Duration) -> (b: bool)
        ensures
            b == (self@ < other@),
    {
        proof {
            use_type_invariant(self);
            use_type_invariant(other);
            self.lemma_view_bounds();
            other.lemma_view_bounds();
        }
        self.secs < other.secs || (self.secs == other.secs && self.nanos < other.nanos)
    }

    /// Whether this span is at most as long as `other`.
    pub fn le(&self, other: &Duration) -> (b: bool)
        ensures
            b == (self@ <= other@),
    {
        !other.lt(self)
    }

    /// The span multiplied by `k`; the product must fit in a `Duration`.
    pub fn mul(&self, k: u32) -> (d: Duration)
        requires
            self@ * k <= max_duration_nanos(),
        ensures
            d@ == self@ * k,
    {
        proof {
            use_type_invariant(self);
        }
        let total: u128 = (self.secs as u128) * 1_000_000_000 + self.nanos as u128;
        assert(total == self@);
        assert(total * (k as u128) <= max_duration_nanos());
        let prod: u128 = total * (k as u128);
        let secs = (prod / 1_000_000_000) as u64;
        let nanos = (prod % 1_000_000_000) as u32;
        proof {
            assert(prod / 1_000_000_000 <= u64::MAX) by (nonlinear_arith)
                requires prod <= (u64::MAX as nat) * 1_000_000_000 + 999_999_999;
            vstd::arithmetic::div_mod::lemma_fundamental_div_mod(prod as int, 1_000_000_000);
        }
        Duration { secs, nanos }
    }

    /// The span divided by `k` (rounded down to whole nanoseconds).
    pub fn div(&self, k: u32) -> (d: Duration)
        requires
            k > 0,
        ensures
            d@ == self@ / (k as nat),
    {
        proof {
            use_type_invariant(self);
            self.lemma_view_bounds();
        }
        let total: u128 = (self.secs as u128) * 1_000_000_000 + self.nanos as u128;
        let q: u128 = total / (k as u128);
        proof {
            assert(q <= total) by (nonlinear_arith)
                requires q == total / (k as u128), k > 0;
            assert(q / 1_000_000_000 <= u64::MAX) by (nonlinear_arith)
                requires q <= (u64::MAX as nat) * 1_000_000_000 + 999_999_999;
            vstd::arithmetic::div_mod::lemma_fundamental_div_mod(q as int, 1_000_000_000);
        }
        let secs = (q / 1_000_000_000) as u64;
        let nanos = (q % 1_000_000_000) as u32;
        Duration { secs, nanos }
    }

    /// The debug rendering of the span, such as "30s", "1.5s", "250ms" or "0ns".
    pub fn debug_text(&self) -> (t: String)
        ensures
            t@ == duration_text(self@),
    {
        proof {
            use_type_invariant(self);
            self.lemma_view_bounds();
        }
        let mut t = String::new();
        let sub = self.nanos as u64;
        if self.secs > 0 {
            push_decimal(&mut t, self.secs);
            push_fraction(&mut t, sub, 9);
            proof { reveal_strlit("s"); }
            t.append("s");
        } else if sub >= 1_000_000 {
            push_decimal(&mut t, sub / 1_000_000);
            push_fraction(&mut t, sub % 1_000_000, 6);
            proof { reveal_strlit("ms"); }
            t.append("ms");
        } else if sub >= 1000 {
            push_decimal(&mut t, sub / 1000);
            push_fraction(&mut t, sub % 1000, 3);
            proof { reveal_strlit("\u{b5}s"); }
            t.append("\u{b5}s");
        } else {
            push_decimal(&mut t, sub);
            proof { reveal_strlit("ns"); }
            t.append("ns");
        }
        proof {
            assert(t@ =~= duration_text(self@));
        }
        t
    }

}

} // verus!
