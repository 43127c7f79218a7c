use vstd::arithmetic::mul::lemma_mul_inequality;
use vstd::arithmetic::power2::lemma2_to64;
use vstd::arithmetic::power2::lemma_pow2_adds;
use vstd::arithmetic::power2::lemma_pow2_pos;
use vstd::arithmetic::power2::lemma_pow2_strictly_increases;
use vstd::arithmetic::power2::pow2;
use vstd::prelude::*;

verus! {

/// 2^e computed at run time, for exponents below the register width.
pub fn pow2_u128(e: usize) -> (r: u128)
    requires
        e < 128,
    ensures
        r as nat == pow2(e as nat),
{
    proof {
        lemma2_to64();
    }
    let mut r: u128 = 1;
    for i in 0..e
        invariant
            e < 128,
            r as nat == pow2(i as nat),
        decreases e - i,
    {
        proof {
            lemma_pow2_adds(i as nat, 1);
            lemma2_to64();
            lemma_pow2_128_bound(i as nat + 1);
        }
        r = r * 2;
    }
    r
}

/// 2^e fits the 128-bit register for e <= 128; 2^128 - 1 is u128::MAX.
proof fn lemma_pow2_128_bound(e: nat)
    requires
        e <= 128,
    ensures
        pow2(e) <= 0x100000000000000000000000000000000,
        e < 128 ==> pow2(e) < 0x100000000000000000000000000000000,
{
    lemma_pow2_adds(64, 64);
    lemma2_to64();
    if e < 128 {
        lemma_pow2_strictly_increases(e, 128);
    }
}

/// Append-only accumulator of variable-length codes over a fixed-width
/// unsigned 128-bit register, packing MSB-first and tracking the total
/// bit length.
pub struct BitPacker {
    bits: u128,
    len: usize,
}

impl BitPacker {
    /// The accumulated register content, as a mathematical value.
    pub closed spec fn value(&self) -> nat {
        self.bits as nat
    }

    /// The total number of bits appended so far.
    pub closed spec fn length(&self) -> nat {
        self.len as nat
    }

    /// The register never holds more than its tracked length of bits.
    pub closed spec fn wf(&self) -> bool {
        self.len <= 128 && (self.bits as nat) < pow2(self.len as nat)
    }

    /// An empty packer: no bits, value zero.
    pub fn new() -> (r: BitPacker)
        ensures
            r.wf(),
            r.value() == 0,
            r.length() == 0,
    {
        proof {
            lemma_pow2_pos(0);
        }
        BitPacker { bits: 0, len: 0 }
    }

    /// Appends the low `width` bits of `code`: shifts the current content
    /// left by `width` (multiplication by 2^width) and merges `code` into
    /// the freed low bits (addition, as they are disjoint). The caller
    /// masks `code` to `width` bits and never exceeds the register.
    pub fn append(&mut self, code: u128, width: usize)
        requires
            old(self).wf(),
            (code as nat) < pow2(width as nat),
            old(self).length() + width <= 128,
        ensures
            final(self).wf(),
            final(self).value() == old(self).value() * pow2(width as nat) + code,
            final(self).length() == old(self).length() + width,
    {
        proof {
            lemma_pow2_adds(self.len as nat, width as nat);
            lemma_pow2_128_bound((self.len + width) as nat);
            lemma_pow2_pos(width as nat);
            lemma_mul_inequality(
                self.bits as int,
                pow2(self.len as nat) as int - 1,
                pow2(width as nat) as int,
            );
            assert((pow2(self.len as nat) - 1) * pow2(width as nat) == pow2(self.len as nat) * pow2(
                width as nat,
            ) - pow2(width as nat)) by (nonlinear_arith);
        }
        if width == 128 {
            self.bits = code;
            self.len = 128;
        } else {
            let shifted = self.bits * pow2_u128(width);
            self.bits = shifted + code;
            self.len = self.len + width;
        }
    }

    /// The packed bit pattern; only the low `length()` bits are significant.
    pub fn bits(&self) -> (r: u128)
        ensures
            r as nat == self.value(),
    {
        self.bits
    }

    /// The total bit length packed so far; within capacity on a
    /// well-formed packer.
    pub fn len(&self) -> (r: usize)
        ensures
            r as nat == self.length(),
            self.wf() ==> r <= 128,
    {
        self.len
    }
}

} // verus!
