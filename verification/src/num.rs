//! Decimal numbers and their canonical textual encoding.
//!
//! Component properties carry numeric values that must encode into minimal
//! round-trip decimal text (`1` rather than `1.0`, `2.5`, `-3`, `0.001`).
//! A [`Number`] holds such a value exactly as a scaled decimal: the value is
//! `mantissa / 10^scale`.  Canonical form forbids trailing zero fraction
//! digits, so every value has exactly one representation and one encoding.

use vstd::prelude::*;

verus! {

/// The character for the decimal digit `d`.
pub open spec fn digit_char(d: nat) -> char {
    if d == 0 {
        '0'
    } else if d == 1 {
        '1'
    } else if d == 2 {
        '2'
    } else if d == 3 {
        '3'
    } else if d == 4 {
        '4'
    } else if d == 5 {
        '5'
    } else if d == 6 {
        '6'
    } else if d == 7 {
        '7'
    } else if d == 8 {
        '8'
    } else {
        '9'
    }
}

/// The usual decimal digit string of `n`, without leading zeros.
pub open spec fn spec_udec(n: nat) -> Seq<char>
    decreases n,
{
    if n < 10 {
        seq![digit_char(n)]
    } else {
        spec_udec(n / 10) + seq![digit_char(n % 10)]
    }
}

/// The last `width` decimal digits of `n`, left-padded with zeros.
pub open spec fn spec_udec_pad(n: nat, width: nat) -> Seq<char>
    decreases width,
{
    if width == 0 {
        Seq::empty()
    } else {
        spec_udec_pad(n / 10, (width - 1) as nat) + seq![digit_char(n % 10)]
    }
}

/// The decimal digit string of the integer `i`, with a leading `-` when negative.
pub open spec fn spec_idec(i: int) -> Seq<char> {
    if i < 0 {
        seq!['-'] + spec_udec((-i) as nat)
    } else {
        spec_udec(i as nat)
    }
}

/// `10^e`.
pub open spec fn pow10(e: nat) -> nat
    decreases e,
{
    if e == 0 {
        1
    } else {
        10 * pow10((e - 1) as nat)
    }
}

proof fn lemma_pow10_18()
    ensures
        pow10(18) == 1_000_000_000_000_000_000,
{
    reveal_with_fuel(pow10, 19);
}

proof fn lemma_pow10_monotonic(a: nat, b: nat)
    requires
        a <= b,
    ensures
        pow10(a) <= pow10(b),
    decreases b,
{
    if a < b {
        lemma_pow10_monotonic(a, (b - 1) as nat);
    }
}

/// A decimal number `mantissa / 10^scale` in canonical form: no trailing zero
/// fraction digits, and a bounded scale so powers of ten fit machine words.
#[derive(Clone, Copy, Debug, PartialEq, Eq, Structural)]
pub struct Number {
    pub mantissa: i64,
    pub scale: u32,
}

impl Number {
    /// Canonical form: the fraction, when present, does not end in zero.
    pub open spec fn wf(self) -> bool {
        &&& self.scale <= 18
        &&& self.scale > 0 ==> self.mantissa % 10 != 0
    }

    /// The whole number `i`.
    pub fn from_int(i: i64) -> (r: Number)
        ensures
            r == (Number { mantissa: i, scale: 0 }),
            r.wf(),
    {
        Number { mantissa: i, scale: 0 }
    }

    /// The value `mantissa / 10^scale`, brought to canonical form.
    pub fn decimal(mantissa: i64, scale: u32) -> (r: Number)
        requires
            scale <= 18,
        ensures
            r.wf(),
            mantissa * pow10(r.scale as nat) == r.mantissa * pow10(scale as nat),
    {
        let mut m = mantissa;
        let mut s = scale;
        while s > 0 && m % 10 == 0
            invariant
                s <= 18,
                mantissa * pow10(s as nat) == m * pow10(scale as nat),
            decreases s,
        {
            let ghost m0 = m as int;
            let ghost s0 = s as nat;
            m = m / 10;
            s = s - 1;
            proof {
                let mi = m as int;
                let sc = scale as nat;
                assert(m0 == 10 * mi);
                assert(pow10(s0) == 10 * pow10(s as nat));
                assert(mantissa * (10 * pow10(s as nat)) == 10 * (mantissa * pow10(s as nat)))
                    by (nonlinear_arith);
                assert((10 * mi) * pow10(sc) == 10 * (mi * pow10(sc))) by (nonlinear_arith);
                assert(10 * (mantissa * pow10(s as nat)) == 10 * (mi * pow10(sc)));
            }
        }
        Number { mantissa: m, scale: s }
    }
}

/// The canonical text of a number: optional sign, integer part, and, for a
/// positive scale, a dot followed by exactly `scale` fraction digits.
pub open spec fn spec_encode_number(n: Number) -> Seq<char> {
    let mag = if n.mantissa < 0 {
        (-n.mantissa) as nat
    } else {
        n.mantissa as nat
    };
    let sign: Seq<char> = if n.mantissa < 0 {
        seq!['-']
    } else {
        Seq::empty()
    };
    if n.scale == 0 {
        sign + spec_udec(mag)
    } else {
        sign + spec_udec(mag / pow10(n.scale as nat)) + seq!['.']
            + spec_udec_pad(mag % pow10(n.scale as nat), n.scale as nat)
    }
}

/// The string slice for one decimal digit.
fn digit_str(d: u64) -> (r: &'static str)
    requires
        d < 10,
    ensures
        r@ == seq![digit_char(d as nat)],
{
    proof {
        reveal_strlit("0");
        reveal_strlit("1");
        reveal_strlit("2");
        reveal_strlit("3");
        reveal_strlit("4");
        reveal_strlit("5");
        reveal_strlit("6");
        reveal_strlit("7");
        reveal_strlit("8");
        reveal_strlit("9");
    }
    if d == 0 {
        "0"
    } else if d == 1 {
        "1"
    } else if d == 2 {
        "2"
    } else if d == 3 {
        "3"
    } else if d == 4 {
        "4"
    } else if d == 5 {
        "5"
    } else if d == 6 {
        "6"
    } else if d == 7 {
        "7"
    } else if d == 8 {
        "8"
    } else {
        "9"
    }
}

/// The decimal digit string of `n`.
pub fn u64_to_dec(n: u64) -> (s: String)
    ensures
        s@ == spec_udec(n as nat),
    decreases n,
{
    if n < 10 {
        String::from_str(digit_str(n))
    } else {
        let mut s = u64_to_dec(n / 10);
        s.append(digit_str(n % 10));
        s
    }
}

/// The last `width` decimal digits of `n`, left-padded with zeros.
fn u64_to_dec_pad(n: u64, width: u32) -> (s: String)
    ensures
        s@ == spec_udec_pad(n as nat, width as nat),
    decreases width,
{
    if width == 0 {
        String::new()
    } else {
        let mut s = u64_to_dec_pad(n / 10, width - 1);
        s.append(digit_str(n % 10));
        s
    }
}

/// The decimal digit string of the signed integer `i`.
pub fn i64_to_dec(i: i64) -> (s: String)
    ensures
        s@ == spec_idec(i as int),
{
    if i >= 0 {
        u64_to_dec(i as u64)
    } else {
        proof {
            reveal_strlit("-");
        }
        let mag: u64 = (-(i as i128)) as u64;
        let mut s = String::from_str("-");
        s.append(u64_to_dec(mag).as_str());
        s
    }
}

/// `10^e` as a machine word.
fn pow10_u64(e: u32) -> (r: u64)
    requires
        e <= 18,
    ensures
        r as nat == pow10(e as nat),
{
    let mut r: u64 = 1;
    let mut i: u32 = 0;
    proof {
        lemma_pow10_18();
    }
    while i < e
        invariant
            i <= e <= 18,
            r as nat == pow10(i as nat),
        decreases e - i,
    {
        proof {
            lemma_pow10_monotonic((i + 1) as nat, 18);
            lemma_pow10_18();
        }
        r = r * 10;
        i = i + 1;
    }
    r
}

impl Number {
    /// Encode this number as its canonical decimal text.
    pub fn encode(&self) -> (s: String)
        requires
            self.wf(),
        ensures
            s@ == spec_encode_number(*self),
    {
        let mag: u64 = if self.mantissa >= 0 {
            self.mantissa as u64
        } else {
            (-(self.mantissa as i128)) as u64
        };
        let mut s = String::new();
        if self.mantissa < 0 {
            proof {
                reveal_strlit("-");
            }
            s.append("-");
        }
        if self.scale == 0 {
            s.append(u64_to_dec(mag).as_str());
        } else {
            proof {
                reveal_strlit(".");
            }
            let p = pow10_u64(self.scale);
            proof {
                lemma_pow10_monotonic(0, self.scale as nat);
            }
            assert(p > 0);
            s.append(u64_to_dec(mag / p).as_str());
            s.append(".");
            s.append(u64_to_dec_pad(mag % p, self.scale).as_str());
        }
        s
    }
}

} // verus!
