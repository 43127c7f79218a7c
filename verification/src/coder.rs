use vstd::arithmetic::power2::lemma2_to64;
use vstd::arithmetic::power2::pow2;
use vstd::prelude::*;

use crate::bitpack::BitPacker;
use crate::errors::CodingError;
use crate::tables::dc_table_wf;
use crate::tables::zigzag_spec;
use crate::tables::zigzag_table;

verus! {

/// The low eight bits of a coded AC level: the level itself for
/// non-negative values, the two's-complement offset for negative ones.
/// Bijective on the signed 8-bit range -128..=127.
pub open spec fn level_bits(v: i32) -> nat {
    if v >= 0 {
        v as nat
    } else {
        (v + 256) as nat
    }
}

/// The smallest magnitude category `c` with `|delta| < 2^c`; category 0
/// holds only delta 0. Meaningful for the coded range `|delta| <= 255`
/// (categories 0..8).
pub open spec fn dc_category(delta: int) -> nat {
    let m = if delta >= 0 {
        delta
    } else {
        -delta
    };
    if m == 0 {
        0
    } else if m < 2 {
        1
    } else if m < 4 {
        2
    } else if m < 8 {
        3
    } else if m < 16 {
        4
    } else if m < 32 {
        5
    } else if m < 64 {
        6
    } else if m < 128 {
        7
    } else {
        8
    }
}

/// The amplitude bits of a differential DC value: the low `c` bits of
/// `delta` for positive deltas, of `delta - 1` for negative ones (the
/// one's-complement-style offset that folds the sign in). Category 0
/// emits no amplitude bits, so the amplitude is 0.
pub open spec fn dc_amplitude(delta: int) -> nat {
    if delta >= 0 {
        delta as nat
    } else {
        (delta - 1 + pow2(dc_category(delta))) as nat
    }
}

/// Recovers a differential DC value from its (category, amplitude) pair:
/// category 0 is delta 0; otherwise a set top amplitude bit means a
/// positive delta equal to the amplitude, a clear one a negative delta
/// offset by `2^c - 1`.
pub open spec fn dc_decode(c: nat, amp: nat) -> int {
    if c == 0 {
        0
    } else if 2 * amp >= pow2(c) {
        amp as int
    } else {
        amp as int + 1 - pow2(c)
    }
}

/// Differential DC coding round-trips: for every delta of the coded range,
/// decoding the emitted (category, amplitude) pair reproduces the delta,
/// and the amplitude always fits its category's bit count.
pub proof fn lemma_dc_round_trip(delta: int)
    requires
        -255 <= delta <= 255,
    ensures
        dc_category(delta) <= 8,
        dc_amplitude(delta) < pow2(dc_category(delta)),
        dc_decode(dc_category(delta), dc_amplitude(delta)) == delta,
{
    lemma2_to64();
}

/// The bits of the DC part of a coded block: the category's prefix code
/// followed by the category's count of amplitude bits, with the total
/// bit length. `table` maps each category to (prefix code, bit length).
pub open spec fn dc_encode_value(delta: int, table: Seq<(usize, usize)>) -> (nat, nat) {
    let c = dc_category(delta);
    (
        (table[c as int].0 * pow2(c) + dc_amplitude(delta)) as nat,
        (table[c as int].1 + c) as nat,
    )
}

/// The 20 bits of one escape-coded AC (run, level) pair: a 6-bit escape
/// marker of value 1, a 6-bit run length, and an 8-bit signed level.
pub open spec fn ac_pair_code(run: nat, coeff: i32) -> nat {
    ((64 + run) * 256 + level_bits(coeff)) as nat
}

/// The AC part of a coded block, from scan position `i` on, having already
/// accumulated the value `v` of `len` bits and `run` consecutive zero
/// coefficients. Zigzag positions 1..63 are traversed in order; each
/// non-zero coefficient emits one escape-coded (run, level) pair, and a
/// 2-bit end-of-block marker of value 2 closes the block. A level outside
/// the signed 8-bit range, or a total length beyond the 128-bit register,
/// is a per-block fatal error.
pub open spec fn ac_encode(q: Seq<i32>, i: int, run: nat, v: nat, len: nat) -> Result<
    (nat, nat),
    CodingError,
>
    decreases 64 - i,
{
    if i >= 64 {
        if len + 2 <= 128 {
            Ok(((v * pow2(2) + 2) as nat, (len + 2) as nat))
        } else {
            Err(CodingError::BitstreamCapacityExceeded)
        }
    } else {
        let coeff = q[zigzag_spec(i)];
        if coeff == 0 {
            ac_encode(q, i + 1, (run + 1) as nat, v, len)
        } else if coeff < -128 || coeff > 127 {
            Err(CodingError::CoefficientOverflow { position: i as usize })
        } else if len + 20 <= 128 {
            ac_encode(q, i + 1, 0, (v * pow2(20) + ac_pair_code(run, coeff)) as nat, (len
                + 20) as nat)
        } else {
            Err(CodingError::BitstreamCapacityExceeded)
        }
    }
}

/// The complete coded block for a quantized block `q` against the previous
/// DC value `prev`: the differential DC code, the escape-coded AC pairs in
/// zigzag order, and the end-of-block marker, packed MSB-first; or the
/// first fatal error met in scan order. A differential DC value outside
/// the coded range -255..=255 has no size category and is reported as a
/// coefficient overflow at scan position 0.
pub open spec fn block_encoding(q: Seq<i32>, prev: int, table: Seq<(usize, usize)>) -> Result<
    (nat, nat),
    CodingError,
> {
    let delta = q[0] - prev;
    if delta < -255 || delta > 255 {
        Err(CodingError::CoefficientOverflow { position: 0 })
    } else {
        let dc = dc_encode_value(delta, table);
        ac_encode(q, 1, 0, dc.0, dc.1)
    }
}

/// Size category and amplitude bits of a differential DC value.
fn dc_classify(delta: i32) -> (r: (usize, u128))
    requires
        -255 <= delta <= 255,
    ensures
        r.0 == dc_category(delta as int),
        r.0 <= 8,
        r.1 as nat == dc_amplitude(delta as int),
        (r.1 as nat) < pow2(r.0 as nat),
{
    proof {
        lemma2_to64();
    }
    let mag: i32 = if delta >= 0 {
        delta
    } else {
        0 - delta
    };
    let (c, pw): (usize, i32) = if mag == 0 {
        (0, 1)
    } else if mag < 2 {
        (1, 2)
    } else if mag < 4 {
        (2, 4)
    } else if mag < 8 {
        (3, 8)
    } else if mag < 16 {
        (4, 16)
    } else if mag < 32 {
        (5, 32)
    } else if mag < 64 {
        (6, 64)
    } else if mag < 128 {
        (7, 128)
    } else {
        (8, 256)
    };
    let amp: i32 = if delta >= 0 {
        delta
    } else {
        delta - 1 + pw
    };
    (c, amp as u128)
}

/// Codes one quantized block: differential DC against the plane's
/// predictor, escape-coded run/level AC pairs in zigzag order, and the
/// end-of-block marker, packed MSB-first into a (bit pattern, bit length)
/// pair. The predictor takes the block's DC value whether or not the
/// block encodes successfully, so that DC prediction stays correct across
/// a failed block.
pub fn zigzag_and_block_bitstream_encoding(
    a: [i32; 64],
    prev_dc_coeff: &mut i32,
    dc_size_table: [(usize, usize); 9],
) -> (r: Result<(u128, usize), CodingError>)
    requires
        dc_table_wf(dc_size_table@),
    ensures
        *final(prev_dc_coeff) == a@[0],
        ({
            let m = block_encoding(a@, *old(prev_dc_coeff) as int, dc_size_table@);
            match r {
                Ok(p) => m == Ok::<(nat, nat), CodingError>((p.0 as nat, p.1 as nat)),
                Err(e) => m == Err::<(nat, nat), CodingError>(e),
            }
        }),
{
    let prev = *prev_dc_coeff;
    *prev_dc_coeff = a[0];
    let delta_wide: i64 = a[0] as i64 - prev as i64;
    if delta_wide < -255 || delta_wide > 255 {
        return Err(CodingError::CoefficientOverflow { position: 0 });
    }
    let delta: i32 = delta_wide as i32;
    let (c, amp) = dc_classify(delta);
    let prefix = dc_size_table[c];
    let mut pack = BitPacker::new();
    pack.append(prefix.0 as u128, prefix.1);
    pack.append(amp, c);
    let zz = zigzag_table();
    let mut run: usize = 0;
    let mut i: usize = 1;
    while i < 64
        invariant
            1 <= i <= 64,
            run <= i - 1,
            pack.wf(),
            dc_table_wf(dc_size_table@),
            forall|k: int| 0 <= k < 64 ==> #[trigger] zz@[k] == zigzag_spec(k),
            forall|k: int| 0 <= k < 64 ==> #[trigger] zz@[k] < 64,
            *prev_dc_coeff == a@[0],
            prev == *old(prev_dc_coeff),
            block_encoding(a@, prev as int, dc_size_table@) == ac_encode(
                a@,
                i as int,
                run as nat,
                pack.value(),
                pack.length(),
            ),
        decreases 64 - i,
    {
        let coeff = a[zz[i]];
        if coeff != 0 {
            if coeff < -128 || coeff > 127 {
                return Err(CodingError::CoefficientOverflow { position: i });
            }
            if pack.len() + 20 > 128 {
                return Err(CodingError::BitstreamCapacityExceeded);
            }
            let level: u128 = if coeff >= 0 {
                coeff as u128
            } else {
                (coeff + 256) as u128
            };
            proof {
                lemma2_to64();
            }
            pack.append((64 + run as u128) * 256 + level, 20);
            run = 0;
        } else {
            run = run + 1;
        }
        i = i + 1;
    }
    if pack.len() + 2 > 128 {
        return Err(CodingError::BitstreamCapacityExceeded);
    }
    proof {
        lemma2_to64();
    }
    pack.append(2, 2);
    Ok((pack.bits(), pack.len()))
}

} // verus!
