use vstd::prelude::*;
use vstd::string::StringExecFns;
use crate::importable::Importable;

verus! {

/// An exact fraction, as carried by a resolved input slot: a numerator and
/// a positive denominator, kept exactly as written. The heavy rational
/// arithmetic lives outside this core; the slot machinery only constructs,
/// parses and compares these values.
#[derive(Clone, Copy, Debug, PartialEq, Eq, Structural)]
pub struct Fraction {
    pub num: u64,
    pub den: u64,
}

impl Fraction {
    /// Well-formedness: the denominator is positive.
    pub open spec fn valid(self) -> bool {
        self.den >= 1
    }

    /// The fraction num/den.
    pub fn new(num: u64, den: u64) -> (r: Fraction)
        requires
            den >= 1,
        ensures
            r.num == num && r.den == den && r.valid(),
    {
        Fraction { num, den }
    }

    /// The fraction 0/1.
    pub fn zero() -> (r: Fraction)
        ensures
            r.num == 0 && r.den == 1 && r.valid(),
    {
        Fraction { num: 0, den: 1 }
    }

    /// The fraction 1/1.
    pub fn one() -> (r: Fraction)
        ensures
            r.num == 1 && r.den == 1 && r.valid(),
    {
        Fraction { num: 1, den: 1 }
    }

    /// Whether the fraction equals zero.
    pub fn is_zero(&self) -> (r: bool)
        ensures
            r == (self.num == 0),
    {
        self.num == 0
    }

    /// Whether the fraction equals one.
    pub fn is_one(&self) -> (r: bool)
        ensures
            r == (self.num == self.den),
    {
        self.num == self.den
    }

    /// One minus the fraction, over the same denominator. Defined for
    /// fractions that do not exceed one, since the numerator is unsigned.
    pub fn one_minus(self) -> (r: Fraction)
        requires
            self.valid(),
            self.num <= self.den,
        ensures
            r.num == self.den - self.num && r.den == self.den && r.valid(),
    {
        Fraction { num: self.den - self.num, den: self.den }
    }
}

/// Whether the byte is an ASCII decimal digit.
pub open spec fn is_ascii_digit(b: u8) -> bool {
    48 <= b <= 57
}

/// Whether every byte of `s` is an ASCII decimal digit.
pub open spec fn all_digits(s: Seq<u8>) -> bool {
    forall|k: int| 0 <= k < s.len() ==> is_ascii_digit(#[trigger] s[k])
}

/// The number the digit bytes of `s` denote in decimal.
pub open spec fn digits_value(s: Seq<u8>) -> int
    decreases s.len(),
{
    if s.len() == 0 {
        0
    } else {
        digits_value(s.drop_last()) * 10 + (s.last() - 48)
    }
}

/// Ten to the `n`.
pub open spec fn pow10(n: nat) -> int
    decreases n,
{
    if n == 0 {
        1
    } else {
        10 * pow10((n - 1) as nat)
    }
}

/// A digit string denotes a nonnegative number below ten to its length.
pub proof fn lemma_digits_value_bound(s: Seq<u8>)
    requires
        all_digits(s),
    ensures
        0 <= digits_value(s) < pow10(s.len()),
    decreases s.len(),
{
    if s.len() > 0 {
        assert(all_digits(s.drop_last())) by {
            assert(forall|k: int| 0 <= k < s.len() - 1 ==> s.drop_last()[k] == s[k]);
        }
        lemma_digits_value_bound(s.drop_last());
        assert(is_ascii_digit(s.last()));
    }
}

/// Ten to the power is monotone in the exponent.
pub proof fn lemma_pow10_monotone(a: nat, b: nat)
    requires
        a <= b,
    ensures
        pow10(a) <= pow10(b),
    decreases b,
{
    if a < b {
        lemma_pow10_monotone(a, (b - 1) as nat);
        assert(pow10((b - 1) as nat) >= 1) by {
            lemma_pow10_monotone(0, (b - 1) as nat);
        }
    }
}

/// A numeric field of a fraction literal: nonempty, at most 19 digits (so
/// that its value always fits the machine word), all decimal.
pub open spec fn valid_digits_part(s: Seq<u8>) -> bool {
    1 <= s.len() <= 19 && all_digits(s)
}

/// The position of the first '/' byte of `s`, or the length of `s` when
/// there is none.
pub open spec fn first_slash(s: Seq<u8>) -> int
    decreases s.len(),
{
    if s.len() == 0 {
        0
    } else if s[0] == 47 {
        0
    } else {
        1 + first_slash(s.drop_first())
    }
}

/// `first_slash` is the position of the first '/' byte.
pub proof fn lemma_first_slash_is(s: Seq<u8>, j: int)
    requires
        0 <= j <= s.len(),
        forall|k: int| 0 <= k < j ==> s[k] != 47,
        j < s.len() ==> s[j] == 47,
    ensures
        first_slash(s) == j,
    decreases s.len(),
{
    if s.len() > 0 {
        if j == 0 {
        } else {
            assert(s[0] != 47);
            lemma_first_slash_is(s.drop_first(), j - 1);
        }
    }
}

/// The fraction a byte string denotes: digits, or digits '/' digits with a
/// nonzero denominator; each digit field is nonempty and at most 19 digits
/// long. Anything else denotes no fraction.
pub open spec fn fraction_of_bytes(s: Seq<u8>) -> Option<Fraction> {
    let sl = first_slash(s);
    if sl == s.len() {
        if valid_digits_part(s) {
            Some(Fraction { num: digits_value(s) as u64, den: 1 })
        } else {
            None
        }
    } else {
        let np = s.take(sl);
        let dp = s.skip(sl + 1);
        if valid_digits_part(np) && valid_digits_part(dp) && digits_value(dp) != 0 {
            Some(Fraction { num: digits_value(np) as u64, den: digits_value(dp) as u64 })
        } else {
            None
        }
    }
}

/// Parse the digit field `bytes[from..to]` into its value.
fn parse_digits(bytes: &[u8], from: usize, to: usize) -> (r: Option<u64>)
    requires
        from <= to <= bytes@.len(),
    ensures
        match r {
            Some(v) => valid_digits_part(bytes@.subrange(from as int, to as int)) && v
                == digits_value(bytes@.subrange(from as int, to as int)),
            None => !valid_digits_part(bytes@.subrange(from as int, to as int)),
        },
{
    let ghost part = bytes@.subrange(from as int, to as int);
    if to - from < 1 || to - from > 19 {
        return None;
    }
    let mut acc: u64 = 0;
    let mut j: usize = from;
    while j < to
        invariant
            from <= j <= to <= bytes@.len(),
            1 <= to - from <= 19,
            part == bytes@.subrange(from as int, to as int),
            all_digits(part.take(j - from)),
            acc == digits_value(part.take(j - from)),
        decreases to - j,
    {
        let b = bytes[j];
        if b < 48 || b > 57 {
            proof {
                assert(part[j - from] == b);
            }
            return None;
        }
        proof {
            let p = part.take(j - from);
            lemma_digits_value_bound(p);
            lemma_pow10_monotone(p.len(), 18);
            assert(pow10(18) == 1000000000000000000) by {
                reveal_with_fuel(pow10, 19);
            }
            assert(acc * 10 + (b - 48) < 10 * pow10(18)) by {
                assert(acc < pow10(18));
            }
            let q = part.take(j + 1 - from);
            assert(q.drop_last() =~= p);
            assert(q.last() == b);
            assert(digits_value(q) == acc * 10 + (b - 48));
            assert(all_digits(q)) by {
                assert(forall|k: int| 0 <= k < p.len() ==> q[k] == p[k]);
            }
        }
        acc = acc * 10 + ((b - 48) as u64);
        j = j + 1;
    }
    proof {
        assert(part.take(to - from) =~= part);
    }
    Some(acc)
}

impl Fraction {
    /// Parse a fraction literal: digits, or digits '/' digits with a
    /// nonzero denominator.
    pub fn parse(bytes: &[u8]) -> (r: Option<Fraction>)
        ensures
            r == fraction_of_bytes(bytes@),
            r matches Some(f) ==> f.valid(),
    {
        let n = bytes.len();
        let mut sl: usize = 0;
        while sl < n && bytes[sl] != 47
            invariant
                0 <= sl <= n == bytes@.len(),
                forall|k: int| 0 <= k < sl ==> bytes@[k] != 47,
            decreases n - sl,
        {
            sl = sl + 1;
        }
        proof {
            lemma_first_slash_is(bytes@, sl as int);
        }
        if sl == n {
            proof {
                assert(bytes@.subrange(0, n as int) =~= bytes@);
            }
            match parse_digits(bytes, 0, n) {
                Some(v) => {
                    proof {
                        lemma_digits_value_bound(bytes@);
                    }
                    Some(Fraction { num: v, den: 1 })
                },
                None => None,
            }
        } else {
            proof {
                assert(bytes@.subrange(0, sl as int) =~= bytes@.take(sl as int));
                assert(bytes@.subrange(sl + 1 as int, n as int) =~= bytes@.skip(sl + 1 as int));
            }
            let num = parse_digits(bytes, 0, sl);
            let den = parse_digits(bytes, sl + 1, n);
            match (num, den) {
                (Some(nv), Some(dv)) => {
                    if dv == 0 {
                        None
                    } else {
                        Some(Fraction { num: nv, den: dv })
                    }
                },
                _ => None,
            }
        }
    }
}

impl Importable for Fraction {
    /// A fraction imports from exactly the byte strings that denote one.
    open spec fn import_spec(bytes: Seq<u8>) -> Result<Fraction, Seq<char>> {
        match fraction_of_bytes(bytes) {
            Some(f) => Ok(f),
            None => Err("Invalid fraction."@),
        }
    }

    fn import(bytes: &[u8]) -> (r: Result<Fraction, String>) {
        match Fraction::parse(bytes) {
            Some(f) => Ok(f),
            None => {
                let mut m = String::new();
                m.append("Invalid fraction.");
                Err(m)
            },
        }
    }
}

} // verus!
