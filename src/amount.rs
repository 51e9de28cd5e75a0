use vstd::prelude::*;

verus! {

/// One limb's weight: 2^64.
pub open spec fn limb_base() -> int {
    0x1_0000_0000_0000_0000
}

/// The character of a decimal digit.
pub open spec fn digit_char(d: nat) -> char {
    seq!['0', '1', '2', '3', '4', '5', '6', '7', '8', '9'][(d % 10) as int]
}

/// The decimal digits of `n`, most significant first, without leading zeros.
pub open spec fn decimal_digits(n: nat) -> Seq<char>
    decreases n,
{
    if n < 10 {
        seq![digit_char(n)]
    } else {
        decimal_digits(n / 10).push(digit_char(n % 10))
    }
}

/// An unsigned 256-bit quantity held as four 64-bit limbs, least significant first.
#[derive(Clone, Copy, Debug)]
pub struct Amount {
    pub limbs: [u64; 4],
}

impl Amount {
    /// The number the limbs stand for.
    pub open spec fn value(self) -> nat {
        (self.limbs[0] + limb_base() * (self.limbs[1] + limb_base() * (self.limbs[2]
            + limb_base() * self.limbs[3]))) as nat
    }

    pub fn from_limbs(limbs: [u64; 4]) -> (r: Amount)
        ensures
            r.limbs == limbs,
    {
        Amount { limbs }
    }

    pub fn from_u64(v: u64) -> (r: Amount)
        ensures
            r.value() == v,
    {
        let r = Amount { limbs: [v, 0, 0, 0] };
        assert(r.limbs[1] == 0 && r.limbs[2] == 0 && r.limbs[3] == 0);
        r
    }

    pub fn is_zero(&self) -> (r: bool)
        ensures
            r == (self.value() == 0),
    {
        let l = self.limbs;
        proof {
            lemma_weighted_zero(l[2] as int, l[3] as int);
            let hi = l[2] + limb_base() * l[3];
            lemma_weighted_zero(l[1] as int, hi);
            let mid = l[1] + limb_base() * hi;
            lemma_weighted_zero(l[0] as int, mid);
        }
        l[0] == 0 && l[1] == 0 && l[2] == 0 && l[3] == 0
    }
}

/// Relies on the `Display` impl of ethers_core's `U256` (uint's `construct_uint!`),
/// whose limbs are least significant first: "0" for zero, else the decimal
/// digits without leading zeros, padding nothing.
#[verifier::external_body]
pub(crate) fn decimal_string(a: &Amount) -> (r: String)
    ensures
        r@ == decimal_digits(a.value()),
{
    ethers_core::types::U256(a.limbs).to_string()
}

proof fn lemma_weighted_zero(lo: int, hi: int)
    requires
        lo >= 0,
        hi >= 0,
    ensures
        lo + limb_base() * hi >= 0,
        (lo + limb_base() * hi == 0) == (lo == 0 && hi == 0),
{
    assert(limb_base() * hi >= 0) by (nonlinear_arith)
        requires
            hi >= 0,
    ;
    assert(hi > 0 ==> limb_base() * hi > 0) by (nonlinear_arith)
        requires
            hi >= 0,
    ;
}

} // verus!
