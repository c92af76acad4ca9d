//! The byte layout of quantized blocks: packing weight codes and a scale into a
//! block, and reading them back.

use crate::error::CudaError;
use crate::ieee;
use crate::quant;
use crate::quant::{QGemvShape, QuantFormat};
use vstd::arithmetic::power2::*;
use vstd::prelude::*;

verus! {

/// Codes of one block.
pub const LANES: usize = 32;

/// How many different codes a weight of `format` can have.
pub open spec fn code_count(format: QuantFormat) -> int {
    match format {
        QuantFormat::Q4_0 => 16,
        QuantFormat::Q5_0 => 32,
        QuantFormat::IQ3_0 => 8,
        QuantFormat::DeepSeekFp4E2M1 => 16,
    }
}

/// A scale that a block of `format` can hold.
pub open spec fn scale_fits(format: QuantFormat, scale: u16) -> bool {
    format == QuantFormat::DeepSeekFp4E2M1 ==> scale < 256
}

/// The 32 codes of a block, each in range.
pub open spec fn codes_fit(format: QuantFormat, codes: Seq<u8>) -> bool {
    &&& codes.len() == LANES
    &&& forall|i: int| 0 <= i < codes.len() ==> (#[trigger] codes[i]) < code_count(format)
}

/// 2 to the `k`-th, for the eight bit positions of a byte.
pub open spec fn bit_weight(k: int) -> int {
    if k == 0 {
        1
    } else if k == 1 {
        2
    } else if k == 2 {
        4
    } else if k == 3 {
        8
    } else if k == 4 {
        16
    } else if k == 5 {
        32
    } else if k == 6 {
        64
    } else {
        128
    }
}

/// Bit `k` of a byte.
pub open spec fn bit_of(byte: int, k: int) -> int {
    (byte / bit_weight(k)) % 2
}

/// The `k`-th pair of bits of a byte.
pub open spec fn quarter_of(byte: int, k: int) -> int {
    (byte / bit_weight(2 * k)) % 4
}

/// The low half of a byte for `k == 0`, the high half otherwise.
pub open spec fn half_of(byte: int, k: int) -> int {
    if k == 0 {
        byte % 16
    } else {
        byte / 16
    }
}

/// The byte whose bits are `f(at)`, ..., `f(at + 7)`, the first the lowest.
pub open spec fn byte_of_bits(f: spec_fn(int) -> int, at: int) -> int {
    f(at) + 2 * f(at + 1) + 4 * f(at + 2) + 8 * f(at + 3) + 16 * f(at + 4) + 32 * f(at + 5) + 64
        * f(at + 6) + 128 * f(at + 7)
}

/// The byte whose pairs of bits are `f(at)`, ..., `f(at + 3)`, the first the lowest.
pub open spec fn byte_of_quarters(f: spec_fn(int) -> int, at: int) -> int {
    f(at) + 4 * f(at + 1) + 16 * f(at + 2) + 64 * f(at + 3)
}

/// The byte whose halves are `f(at)` and `f(at + 1)`, the first the low one.
pub open spec fn byte_of_halves(f: spec_fn(int) -> int, at: int) -> int {
    f(at) + 16 * f(at + 1)
}

/// Byte `i` of the block that holds `scale` and `codes`.
///
/// * `Q4_0`: two scale bytes, then the codes two to a byte.
/// * `Q5_0`: two scale bytes, the fifth bits of the codes eight to a byte, then
///   the low four bits two to a byte.
/// * `IQ3_0`: two scale bytes, the low two bits four to a byte, then the third
///   bits eight to a byte.
/// * `DeepSeekFp4E2M1`: one scale byte, then the codes two to a byte.
pub open spec fn block_byte(format: QuantFormat, scale: u16, codes: Seq<u8>, i: int) -> int {
    match format {
        QuantFormat::Q4_0 => if i == 0 {
            scale as int % 256
        } else if i == 1 {
            scale as int / 256
        } else {
            byte_of_halves(|k: int| codes[k] as int, 2 * (i - 2))
        },
        QuantFormat::Q5_0 => if i == 0 {
            scale as int % 256
        } else if i == 1 {
            scale as int / 256
        } else if i < 6 {
            byte_of_bits(|k: int| codes[k] as int / 16, 8 * (i - 2))
        } else {
            byte_of_halves(|k: int| codes[k] as int % 16, 2 * (i - 6))
        },
        QuantFormat::IQ3_0 => if i == 0 {
            scale as int % 256
        } else if i == 1 {
            scale as int / 256
        } else if i < 10 {
            byte_of_quarters(|k: int| codes[k] as int % 4, 4 * (i - 2))
        } else {
            byte_of_bits(|k: int| codes[k] as int / 4, 8 * (i - 10))
        },
        QuantFormat::DeepSeekFp4E2M1 => if i == 0 {
            scale as int
        } else {
            byte_of_halves(|k: int| codes[k] as int, 2 * (i - 1))
        },
    }
}

/// The block that holds `scale` and `codes`.
pub open spec fn packed(format: QuantFormat, scale: u16, codes: Seq<u8>) -> Seq<u8> {
    Seq::new(format.spec_block_bytes() as nat, |i: int| block_byte(format, scale, codes, i) as u8)
}

/// The code of weight `lane` in a block.
pub open spec fn block_code(format: QuantFormat, block: Seq<u8>, lane: int) -> int {
    match format {
        QuantFormat::Q4_0 => half_of(block[2 + lane / 2] as int, lane % 2),
        QuantFormat::Q5_0 => half_of(block[6 + lane / 2] as int, lane % 2) + 16 * bit_of(
            block[2 + lane / 8] as int,
            lane % 8,
        ),
        QuantFormat::IQ3_0 => quarter_of(block[2 + lane / 4] as int, lane % 4) + 4 * bit_of(
            block[10 + lane / 8] as int,
            lane % 8,
        ),
        QuantFormat::DeepSeekFp4E2M1 => half_of(block[1 + lane / 2] as int, lane % 2),
    }
}

/// The scale of a block.
pub open spec fn block_scale(format: QuantFormat, block: Seq<u8>) -> int {
    match format {
        QuantFormat::DeepSeekFp4E2M1 => block[0] as int,
        _ => block[0] as int + 256 * block[1],
    }
}

/// The 32 codes of a block.
pub open spec fn block_codes(format: QuantFormat, block: Seq<u8>) -> Seq<u8> {
    Seq::new(LANES as nat, |lane: int| block_code(format, block, lane) as u8)
}

proof fn lemma_bits(f: spec_fn(int) -> int, at: int, k: int)
    requires
        forall|j: int| at <= j < at + 8 ==> 0 <= #[trigger] f(j) < 2,
        0 <= k < 8,
    ensures
        0 <= byte_of_bits(f, at) < 256,
        bit_of(byte_of_bits(f, at), k) == f(at + k),
{
    let b0 = f(at);
    let b1 = f(at + 1);
    let b2 = f(at + 2);
    let b3 = f(at + 3);
    let b4 = f(at + 4);
    let b5 = f(at + 5);
    let b6 = f(at + 6);
    let b7 = f(at + 7);
    let v = byte_of_bits(f, at);
    if k == 0 {
        assert(v / 1 == v);
    } else if k == 1 {
        assert(v / 2 == b1 + 2 * b2 + 4 * b3 + 8 * b4 + 16 * b5 + 32 * b6 + 64 * b7);
    } else if k == 2 {
        assert(v / 4 == b2 + 2 * b3 + 4 * b4 + 8 * b5 + 16 * b6 + 32 * b7);
    } else if k == 3 {
        assert(v / 8 == b3 + 2 * b4 + 4 * b5 + 8 * b6 + 16 * b7);
    } else if k == 4 {
        assert(v / 16 == b4 + 2 * b5 + 4 * b6 + 8 * b7);
    } else if k == 5 {
        assert(v / 32 == b5 + 2 * b6 + 4 * b7);
    } else if k == 6 {
        assert(v / 64 == b6 + 2 * b7);
    } else {
        assert(v / 128 == b7);
    }
}

proof fn lemma_quarters(f: spec_fn(int) -> int, at: int, k: int)
    requires
        forall|j: int| at <= j < at + 4 ==> 0 <= #[trigger] f(j) < 4,
        0 <= k < 4,
    ensures
        0 <= byte_of_quarters(f, at) < 256,
        quarter_of(byte_of_quarters(f, at), k) == f(at + k),
{
    let b0 = f(at);
    let b1 = f(at + 1);
    let b2 = f(at + 2);
    let b3 = f(at + 3);
    let v = byte_of_quarters(f, at);
    if k == 0 {
        assert(v / 1 == v);
    } else if k == 1 {
        assert(v / 4 == b1 + 4 * b2 + 16 * b3);
    } else if k == 2 {
        assert(v / 16 == b2 + 4 * b3);
    } else {
        assert(v / 64 == b3);
    }
}

/// A byte is made of its bits.
proof fn lemma_byte_bits(v: int)
    requires
        0 <= v < 256,
    ensures
        v == bit_of(v, 0) + 2 * bit_of(v, 1) + 4 * bit_of(v, 2) + 8 * bit_of(v, 3) + 16 * bit_of(
            v,
            4,
        ) + 32 * bit_of(v, 5) + 64 * bit_of(v, 6) + 128 * bit_of(v, 7),
        forall|k: int| 0 <= k < 8 ==> 0 <= #[trigger] bit_of(v, k) < 2,
{
    assert(v / 2 == (v / 4) * 2 + (v / 2) % 2);
    assert(v / 4 == (v / 8) * 2 + (v / 4) % 2);
    assert(v / 8 == (v / 16) * 2 + (v / 8) % 2);
    assert(v / 16 == (v / 32) * 2 + (v / 16) % 2);
    assert(v / 32 == (v / 64) * 2 + (v / 32) % 2);
    assert(v / 64 == (v / 128) * 2 + (v / 64) % 2);
    assert(v / 128 < 2);
}

/// A byte is made of its pairs of bits.
proof fn lemma_byte_quarters(v: int)
    requires
        0 <= v < 256,
    ensures
        v == quarter_of(v, 0) + 4 * quarter_of(v, 1) + 16 * quarter_of(v, 2) + 64 * quarter_of(v, 3),
        forall|k: int| 0 <= k < 4 ==> 0 <= #[trigger] quarter_of(v, k) < 4,
{
    assert(v / 4 == (v / 16) * 4 + (v / 4) % 4);
    assert(v / 16 == (v / 64) * 4 + (v / 16) % 4);
    assert(v / 64 < 4);
}

/// Every byte of a packed block is a byte.
proof fn lemma_block_byte_range(format: QuantFormat, scale: u16, codes: Seq<u8>, i: int)
    requires
        scale_fits(format, scale),
        codes_fit(format, codes),
        0 <= i < format.spec_block_bytes(),
    ensures
        0 <= block_byte(format, scale, codes, i) < 256,
{
    match format {
        QuantFormat::Q4_0 => {},
        QuantFormat::Q5_0 => {
            if 2 <= i < 6 {
                let f = |k: int| codes[k] as int / 16;
                assert forall|j: int| 8 * (i - 2) <= j < 8 * (i - 2) + 8 implies 0 <= #[trigger] f(
                    j,
                ) < 2 by {
                    assert(codes[j] < 32);
                }
                lemma_bits(f, 8 * (i - 2), 0);
            }
        },
        QuantFormat::IQ3_0 => {
            if 2 <= i < 10 {
                lemma_quarters(|k: int| codes[k] as int % 4, 4 * (i - 2), 0);
            } else if 10 <= i {
                let f = |k: int| codes[k] as int / 4;
                assert forall|j: int| 8 * (i - 10) <= j < 8 * (i - 10) + 8 implies 0 <= #[trigger] f(
                    j,
                ) < 2 by {
                    assert(codes[j] < 8);
                }
                lemma_bits(f, 8 * (i - 10), 0);
            }
        },
        QuantFormat::DeepSeekFp4E2M1 => {},
    }
}

/// A byte of a packed block is the byte that `block_byte` gives.
proof fn lemma_packed_byte(format: QuantFormat, scale: u16, codes: Seq<u8>, i: int)
    requires
        scale_fits(format, scale),
        codes_fit(format, codes),
        0 <= i < format.spec_block_bytes(),
    ensures
        packed(format, scale, codes)[i] as int == block_byte(format, scale, codes, i),
{
    lemma_block_byte_range(format, scale, codes, i);
}

/// The halves of a byte of a packed block are the two values put there.
proof fn lemma_halves(f: spec_fn(int) -> int, lane: int)
    requires
        forall|j: int| #![trigger f(j)] 0 <= f(j) < 16,
        0 <= lane,
    ensures
        half_of(byte_of_halves(f, 2 * (lane / 2)), lane % 2) == f(lane),
{
    let at = 2 * (lane / 2);
    assert(0 <= f(at) < 16 && 0 <= f(at + 1) < 16);
    if lane % 2 == 0 {
        assert(lane == at);
    } else {
        assert(lane == at + 1);
    }
}

proof fn lemma_lane_q4(scale: u16, codes: Seq<u8>, lane: int)
    requires
        codes_fit(QuantFormat::Q4_0, codes),
        0 <= lane < LANES,
    ensures
        block_code(QuantFormat::Q4_0, packed(QuantFormat::Q4_0, scale, codes), lane) == codes[lane],
{
    let f = |k: int| codes[k] as int;
    let at = 2 * (lane / 2);
    lemma_packed_byte(QuantFormat::Q4_0, scale, codes, 2 + lane / 2);
    assert(codes[at] < 16 && codes[at + 1] < 16);
    assert(byte_of_halves(f, at) == codes[at] + 16 * codes[at + 1]);
    if lane % 2 == 0 {
        assert(lane == at);
    } else {
        assert(lane == at + 1);
    }
}

proof fn lemma_lane_q5(scale: u16, codes: Seq<u8>, lane: int)
    requires
        codes_fit(QuantFormat::Q5_0, codes),
        0 <= lane < LANES,
    ensures
        block_code(QuantFormat::Q5_0, packed(QuantFormat::Q5_0, scale, codes), lane) == codes[lane],
{
    let g = |k: int| codes[k] as int % 16;
    lemma_packed_byte(QuantFormat::Q5_0, scale, codes, 6 + lane / 2);
    lemma_halves(g, lane);
    let f = |k: int| codes[k] as int / 16;
    let at = 8 * (lane / 8);
    assert forall|j: int| at <= j < at + 8 implies 0 <= #[trigger] f(j) < 2 by {
        assert(codes[j] < 32);
    }
    lemma_packed_byte(QuantFormat::Q5_0, scale, codes, 2 + lane / 8);
    lemma_bits(f, at, lane % 8);
    assert(f(lane) == codes[lane] as int / 16 && g(lane) == codes[lane] as int % 16);
}

proof fn lemma_lane_iq3(scale: u16, codes: Seq<u8>, lane: int)
    requires
        codes_fit(QuantFormat::IQ3_0, codes),
        0 <= lane < LANES,
    ensures
        block_code(QuantFormat::IQ3_0, packed(QuantFormat::IQ3_0, scale, codes), lane)
            == codes[lane],
{
    let g = |k: int| codes[k] as int % 4;
    lemma_packed_byte(QuantFormat::IQ3_0, scale, codes, 2 + lane / 4);
    lemma_quarters(g, 4 * (lane / 4), lane % 4);
    let f = |k: int| codes[k] as int / 4;
    let at = 8 * (lane / 8);
    assert forall|j: int| at <= j < at + 8 implies 0 <= #[trigger] f(j) < 2 by {
        assert(codes[j] < 8);
    }
    lemma_packed_byte(QuantFormat::IQ3_0, scale, codes, 10 + lane / 8);
    lemma_bits(f, at, lane % 8);
    assert(f(lane) == codes[lane] as int / 4 && g(lane) == codes[lane] as int % 4);
}

proof fn lemma_lane_fp4(scale: u16, codes: Seq<u8>, lane: int)
    requires
        scale < 256,
        codes_fit(QuantFormat::DeepSeekFp4E2M1, codes),
        0 <= lane < LANES,
    ensures
        block_code(
            QuantFormat::DeepSeekFp4E2M1,
            packed(QuantFormat::DeepSeekFp4E2M1, scale, codes),
            lane,
        ) == codes[lane],
{
    let f = |k: int| codes[k] as int;
    let at = 2 * (lane / 2);
    lemma_packed_byte(QuantFormat::DeepSeekFp4E2M1, scale, codes, 1 + lane / 2);
    assert(codes[at] < 16 && codes[at + 1] < 16);
    assert(byte_of_halves(f, at) == codes[at] + 16 * codes[at + 1]);
    if lane % 2 == 0 {
        assert(lane == at);
    } else {
        assert(lane == at + 1);
    }
}

/// What was packed is read back: the scale and every code.
pub proof fn unpack_of_pack(format: QuantFormat, scale: u16, codes: Seq<u8>)
    requires
        scale_fits(format, scale),
        codes_fit(format, codes),
    ensures
        block_scale(format, packed(format, scale, codes)) == scale,
        block_codes(format, packed(format, scale, codes)) == codes,
{
    let block = packed(format, scale, codes);
    lemma_packed_byte(format, scale, codes, 0);
    lemma_packed_byte(format, scale, codes, 1);
    assert forall|lane: int| 0 <= lane < LANES implies #[trigger] block_code(format, block, lane)
        == codes[lane] by {
        match format {
            QuantFormat::Q4_0 => lemma_lane_q4(scale, codes, lane),
            QuantFormat::Q5_0 => lemma_lane_q5(scale, codes, lane),
            QuantFormat::IQ3_0 => lemma_lane_iq3(scale, codes, lane),
            QuantFormat::DeepSeekFp4E2M1 => lemma_lane_fp4(scale, codes, lane),
        }
    }
    assert(block_codes(format, block) =~= codes);
}

/// Every code read from a block is in range.
proof fn lemma_code_range(format: QuantFormat, block: Seq<u8>, lane: int)
    requires
        block.len() == format.spec_block_bytes(),
        0 <= lane < LANES,
    ensures
        0 <= block_code(format, block, lane) < code_count(format),
        block_codes(format, block)[lane] == block_code(format, block, lane),
{
    match format {
        QuantFormat::Q4_0 => {},
        QuantFormat::Q5_0 => {
            lemma_byte_bits(block[2 + lane / 8] as int);
        },
        QuantFormat::IQ3_0 => {
            lemma_byte_quarters(block[2 + lane / 4] as int);
            lemma_byte_bits(block[10 + lane / 8] as int);
        },
        QuantFormat::DeepSeekFp4E2M1 => {},
    }
}

proof fn lemma_repack_halves(format: QuantFormat, block: Seq<u8>, first: int, i: int)
    requires
        block.len() == format.spec_block_bytes(),
        format != QuantFormat::IQ3_0,
        first == (match format {
            QuantFormat::Q4_0 => 2int,
            QuantFormat::Q5_0 => 6int,
            _ => 1int,
        }),
        first <= i < block.len(),
    ensures
        byte_of_halves(
            |k: int| block_codes(format, block)[k] as int % 16,
            2 * (i - first),
        ) == block[i],
{
    let at = 2 * (i - first);
    let v = block[i] as int;
    lemma_code_range(format, block, at);
    lemma_code_range(format, block, at + 1);
    assert(at / 2 == i - first && (at + 1) / 2 == i - first);
    assert(at % 2 == 0 && (at + 1) % 2 == 1);
    let low = block_code(format, block, at);
    let high = block_code(format, block, at + 1);
    assert(low % 16 == v % 16 && high % 16 == v / 16) by {
        if format == QuantFormat::Q5_0 {
            let x = bit_of(block[2 + at / 8] as int, at % 8);
            let y = bit_of(block[2 + (at + 1) / 8] as int, (at + 1) % 8);
            assert(low == v % 16 + 16 * x);
            assert(high == v / 16 + 16 * y);
            lemma_mod_16(v % 16, x);
            lemma_mod_16(v / 16, y);
        } else {
            assert(low == v % 16);
            assert(high == v / 16);
        }
    }
}

proof fn lemma_mod_16(r: int, x: int)
    requires
        0 <= r < 16,
    ensures
        (r + 16 * x) % 16 == r,
{
}

proof fn lemma_repack_bits(format: QuantFormat, block: Seq<u8>, first: int, unit: int, i: int)
    requires
        block.len() == format.spec_block_bytes(),
        (format == QuantFormat::Q5_0 && first == 2 && unit == 16) || (format == QuantFormat::IQ3_0
            && first == 10 && unit == 4),
        first <= i < first + 4,
    ensures
        byte_of_bits(|k: int| block_codes(format, block)[k] as int / unit, 8 * (i - first))
            == block[i],
{
    let v = block[i] as int;
    let at = 8 * (i - first);
    lemma_byte_bits(v);
    assert forall|k: int| 0 <= k < 8 implies block_codes(format, block)[#[trigger] (at + k)] as int
        / unit == bit_of(v, k) by {
        lemma_code_range(format, block, at + k);
        assert((at + k) / 8 == i - first && (at + k) % 8 == k);
        if format == QuantFormat::IQ3_0 {
            lemma_byte_quarters(block[2 + (at + k) / 4] as int);
        }
    }
    assert(block_codes(format, block)[at + 0] as int / unit == bit_of(v, 0));
    assert(block_codes(format, block)[at + 1] as int / unit == bit_of(v, 1));
    assert(block_codes(format, block)[at + 2] as int / unit == bit_of(v, 2));
    assert(block_codes(format, block)[at + 3] as int / unit == bit_of(v, 3));
    assert(block_codes(format, block)[at + 4] as int / unit == bit_of(v, 4));
    assert(block_codes(format, block)[at + 5] as int / unit == bit_of(v, 5));
    assert(block_codes(format, block)[at + 6] as int / unit == bit_of(v, 6));
    assert(block_codes(format, block)[at + 7] as int / unit == bit_of(v, 7));
}

proof fn lemma_repack_quarters(block: Seq<u8>, i: int)
    requires
        block.len() == QuantFormat::IQ3_0.spec_block_bytes(),
        2 <= i < 10,
    ensures
        byte_of_quarters(
            |k: int| block_codes(QuantFormat::IQ3_0, block)[k] as int % 4,
            4 * (i - 2),
        ) == block[i],
{
    let format = QuantFormat::IQ3_0;
    let v = block[i] as int;
    let at = 4 * (i - 2);
    lemma_byte_quarters(v);
    assert forall|k: int| 0 <= k < 4 implies block_codes(format, block)[#[trigger] (at + k)] as int
        % 4 == quarter_of(v, k) by {
        lemma_code_range(format, block, at + k);
        assert((at + k) / 4 == i - 2 && (at + k) % 4 == k);
        lemma_byte_bits(block[10 + (at + k) / 8] as int);
    }
    assert(block_codes(format, block)[at + 0] as int % 4 == quarter_of(v, 0));
    assert(block_codes(format, block)[at + 1] as int % 4 == quarter_of(v, 1));
    assert(block_codes(format, block)[at + 2] as int % 4 == quarter_of(v, 2));
    assert(block_codes(format, block)[at + 3] as int % 4 == quarter_of(v, 3));
}

/// A block is the packing of what is read from it: no two blocks read alike.
pub proof fn pack_of_unpack(format: QuantFormat, block: Seq<u8>)
    requires
        block.len() == format.spec_block_bytes(),
    ensures
        codes_fit(format, block_codes(format, block)),
        0 <= block_scale(format, block) <= u16::MAX,
        scale_fits(format, block_scale(format, block) as u16),
        packed(format, block_scale(format, block) as u16, block_codes(format, block)) == block,
{
    let codes = block_codes(format, block);
    let scale = block_scale(format, block) as u16;
    assert forall|lane: int| 0 <= lane < codes.len() implies (#[trigger] codes[lane]) < code_count(
        format,
    ) by {
        lemma_code_range(format, block, lane);
    }
    assert forall|i: int| 0 <= i < block.len() implies block_byte(format, scale, codes, i)
        == #[trigger] block[i] by {
        match format {
            QuantFormat::Q4_0 => {
                if i >= 2 {
                    lemma_repack_halves(format, block, 2, i);
                    assert(codes[2 * (i - 2)] < 16 && codes[2 * (i - 2) + 1] < 16);
                }
            },
            QuantFormat::Q5_0 => {
                if i >= 6 {
                    lemma_repack_halves(format, block, 6, i);
                } else if i >= 2 {
                    lemma_repack_bits(format, block, 2, 16, i);
                }
            },
            QuantFormat::IQ3_0 => {
                if i >= 10 {
                    lemma_repack_bits(format, block, 10, 4, i);
                } else if i >= 2 {
                    lemma_repack_quarters(block, i);
                }
            },
            QuantFormat::DeepSeekFp4E2M1 => {
                if i >= 1 {
                    lemma_repack_halves(format, block, 1, i);
                    assert(codes[2 * (i - 1)] < 16 && codes[2 * (i - 1) + 1] < 16);
                }
            },
        }
    }
    assert(packed(format, scale, codes) =~= block);
}

// ---------------------------------------------------------------------------
// Packing
// ---------------------------------------------------------------------------

fn bits_byte(codes: &[u8], at: usize, unit: u8) -> (b: u8)
    requires
        at + 8 <= codes@.len(),
        unit == 4 || unit == 16,
        forall|j: int| at <= j < at + 8 ==> (#[trigger] codes@[j]) < 2 * unit,
    ensures
        b == byte_of_bits(|k: int| codes@[k] as int / unit as int, at as int),
{
    assert(codes@[at + 0] < 2 * unit);
    (codes[at] / unit) + 2 * (codes[at + 1] / unit) + 4 * (codes[at + 2] / unit) + 8 * (codes[at
        + 3] / unit) + 16 * (codes[at + 4] / unit) + 32 * (codes[at + 5] / unit) + 64 * (codes[at
        + 6] / unit) + 128 * (codes[at + 7] / unit)
}

fn quarters_byte(codes: &[u8], at: usize) -> (b: u8)
    requires
        at + 4 <= codes@.len(),
    ensures
        b == byte_of_quarters(|k: int| codes@[k] as int % 4, at as int),
{
    (codes[at] % 4) + 4 * (codes[at + 1] % 4) + 16 * (codes[at + 2] % 4) + 64 * (codes[at + 3] % 4)
}

fn halves_byte(codes: &[u8], at: usize) -> (b: u8)
    requires
        at + 2 <= codes@.len(),
    ensures
        b == byte_of_halves(|k: int| codes@[k] as int % 16, at as int),
{
    (codes[at] % 16) + 16 * (codes[at + 1] % 16)
}

fn q4_byte(scale: u16, codes: &[u8], i: usize) -> (b: u8)
    requires
        codes_fit(QuantFormat::Q4_0, codes@),
        i < 18,
    ensures
        b == block_byte(QuantFormat::Q4_0, scale, codes@, i as int),
{
    if i == 0 {
        (scale % 256) as u8
    } else if i == 1 {
        (scale / 256) as u8
    } else {
        let at: usize = 2 * (i - 2);
        assert(codes@[at as int] < 16 && codes@[at + 1] < 16);
        halves_byte(codes, at)
    }
}

fn q5_byte(scale: u16, codes: &[u8], i: usize) -> (b: u8)
    requires
        codes_fit(QuantFormat::Q5_0, codes@),
        i < 22,
    ensures
        b == block_byte(QuantFormat::Q5_0, scale, codes@, i as int),
{
    if i == 0 {
        (scale % 256) as u8
    } else if i == 1 {
        (scale / 256) as u8
    } else if i < 6 {
        bits_byte(codes, 8 * (i - 2), 16)
    } else {
        halves_byte(codes, 2 * (i - 6))
    }
}

fn iq3_byte(scale: u16, codes: &[u8], i: usize) -> (b: u8)
    requires
        codes_fit(QuantFormat::IQ3_0, codes@),
        i < 14,
    ensures
        b == block_byte(QuantFormat::IQ3_0, scale, codes@, i as int),
{
    if i == 0 {
        (scale % 256) as u8
    } else if i == 1 {
        (scale / 256) as u8
    } else if i < 10 {
        quarters_byte(codes, 4 * (i - 2))
    } else {
        bits_byte(codes, 8 * (i - 10), 4)
    }
}

fn fp4_byte(scale: u16, codes: &[u8], i: usize) -> (b: u8)
    requires
        scale < 256,
        codes_fit(QuantFormat::DeepSeekFp4E2M1, codes@),
        i < 17,
    ensures
        b == block_byte(QuantFormat::DeepSeekFp4E2M1, scale, codes@, i as int),
{
    if i == 0 {
        scale as u8
    } else {
        let at: usize = 2 * (i - 1);
        assert(codes@[at as int] < 16 && codes@[at + 1] < 16);
        halves_byte(codes, at)
    }
}

/// The block that holds `scale` and `codes`.
pub fn pack_block(format: QuantFormat, scale: u16, codes: &[u8]) -> (block: Vec<u8>)
    requires
        scale_fits(format, scale),
        codes_fit(format, codes@),
    ensures
        block@ == packed(format, scale, codes@),
{
    let n: usize = format.block_bytes();
    let mut block: Vec<u8> = Vec::new();
    let mut i: usize = 0;
    let ghost whole = packed(format, scale, codes@);
    while i < n
        invariant
            n == format.spec_block_bytes(),
            n == whole.len(),
            i <= n,
            scale_fits(format, scale),
            codes_fit(format, codes@),
            whole == packed(format, scale, codes@),
            block@ == whole.take(i as int),
        decreases n - i,
    {
        let b: u8 = match format {
            QuantFormat::Q4_0 => q4_byte(scale, codes, i),
            QuantFormat::Q5_0 => q5_byte(scale, codes, i),
            QuantFormat::IQ3_0 => iq3_byte(scale, codes, i),
            QuantFormat::DeepSeekFp4E2M1 => fp4_byte(scale, codes, i),
        };
        proof {
            lemma_packed_byte(format, scale, codes@, i as int);
            assert(whole.take(i + 1) == whole.take(i as int).push(b));
        }
        block.push(b);
        i = i + 1;
    }
    assert(whole.take(n as int) == whole);
    block
}

// ---------------------------------------------------------------------------
// Reading
// ---------------------------------------------------------------------------

fn weight_of_bit(k: usize) -> (w: u8)
    requires
        k < 8,
    ensures
        w == bit_weight(k as int),
        w >= 1,
{
    if k == 0 {
        1
    } else if k == 1 {
        2
    } else if k == 2 {
        4
    } else if k == 3 {
        8
    } else if k == 4 {
        16
    } else if k == 5 {
        32
    } else if k == 6 {
        64
    } else {
        128
    }
}

fn half_at(byte: u8, k: usize) -> (h: u8)
    ensures
        h == half_of(byte as int, k as int),
        h < 16,
{
    if k == 0 {
        byte % 16
    } else {
        byte / 16
    }
}

fn bit_at(byte: u8, k: usize) -> (b: u8)
    requires
        k < 8,
    ensures
        b == bit_of(byte as int, k as int),
        b < 2,
{
    (byte / weight_of_bit(k)) % 2
}

fn quarter_at(byte: u8, k: usize) -> (q: u8)
    requires
        k < 4,
    ensures
        q == quarter_of(byte as int, k as int),
        q < 4,
{
    (byte / weight_of_bit(2 * k)) % 4
}

/// The code of weight `lane` in the block that begins at `start`.
pub fn code_at(format: QuantFormat, bytes: &[u8], start: usize, lane: usize) -> (code: u8)
    requires
        start + format.spec_block_bytes() <= bytes@.len(),
        lane < LANES,
    ensures
        code == block_code(
            format,
            bytes@.subrange(start as int, start + format.spec_block_bytes()),
            lane as int,
        ),
        code < code_count(format),
{
    let end: usize = bytes.len();
    assert(start + format.spec_block_bytes() <= end);
    match format {
        QuantFormat::Q4_0 => half_at(bytes[start + 2 + lane / 2], lane % 2),
        QuantFormat::Q5_0 => half_at(bytes[start + 6 + lane / 2], lane % 2) + 16 * bit_at(
            bytes[start + 2 + lane / 8],
            lane % 8,
        ),
        QuantFormat::IQ3_0 => quarter_at(bytes[start + 2 + lane / 4], lane % 4) + 4 * bit_at(
            bytes[start + 10 + lane / 8],
            lane % 8,
        ),
        QuantFormat::DeepSeekFp4E2M1 => half_at(bytes[start + 1 + lane / 2], lane % 2),
    }
}

/// The scale of the block that begins at `start`.
pub fn scale_at(format: QuantFormat, bytes: &[u8], start: usize) -> (scale: u16)
    requires
        start + format.spec_block_bytes() <= bytes@.len(),
    ensures
        scale == block_scale(
            format,
            bytes@.subrange(start as int, start + format.spec_block_bytes()),
        ),
{
    let end: usize = bytes.len();
    assert(start + format.spec_block_bytes() <= end);
    match format {
        QuantFormat::DeepSeekFp4E2M1 => bytes[start] as u16,
        _ => bytes[start] as u16 + 256 * (bytes[start + 1] as u16),
    }
}

/// The signed level that a code of an integer format stands for: the code minus
/// half the number of codes. The 4-bit float format has no integer levels.
pub open spec fn spec_level(format: QuantFormat, code: int) -> Option<int> {
    match format {
        QuantFormat::DeepSeekFp4E2M1 => None,
        _ => Some(code - code_count(format) / 2),
    }
}

/// The signed level that a code of an integer format stands for.
pub fn level(format: QuantFormat, code: u8) -> (l: Option<i32>)
    ensures
        match l {
            Some(v) => spec_level(format, code as int) == Some(v as int),
            None => spec_level(format, code as int) is None,
        },
{
    match format {
        QuantFormat::Q4_0 => Some(code as i32 - 8),
        QuantFormat::Q5_0 => Some(code as i32 - 16),
        QuantFormat::IQ3_0 => Some(code as i32 - 4),
        QuantFormat::DeepSeekFp4E2M1 => None,
    }
}

/// The code of a 4-bit float without its sign, in halves: two exponent bits and one
/// mantissa bit.
pub open spec fn fp4_halves(code: int) -> int {
    let e = code % 8 / 2;
    if e == 0 {
        code % 2
    } else {
        (2 + code % 2) * pow2((e - 1) as nat)
    }
}

/// The 32-bit pattern of the number that a 4-bit float code stands for.
pub open spec fn fp4_pattern(code: int) -> int {
    let e = code % 8 / 2;
    let m = code % 2;
    code / 8 * 0x8000_0000 + (if e == 0 {
        m * 126 * 0x80_0000
    } else {
        (126 + e) * 0x80_0000 + m * 0x40_0000
    })
}

/// The 32-bit pattern of the number that a 4-bit float code stands for.
pub fn fp4_value(code: u8) -> (b: u32)
    requires
        code < 16,
    ensures
        b == fp4_pattern(code as int),
{
    match code {
        0 => 0,
        1 => 0x3f00_0000,
        2 => 0x3f80_0000,
        3 => 0x3fc0_0000,
        4 => 0x4000_0000,
        5 => 0x4040_0000,
        6 => 0x4080_0000,
        7 => 0x40c0_0000,
        8 => 0x8000_0000,
        9 => 0xbf00_0000,
        10 => 0xbf80_0000,
        11 => 0xbfc0_0000,
        12 => 0xc000_0000,
        13 => 0xc040_0000,
        14 => 0xc080_0000,
        _ => 0xc0c0_0000,
    }
}

/// The pattern of a 4-bit float code stands for exactly the number that the code
/// does, and codes from eight on are negative.
pub proof fn fp4_is_exact(code: u8)
    requires
        code < 16,
    ensures
        0 <= fp4_pattern(code as int) <= u32::MAX,
        (fp4_pattern(code as int) >= 0x8000_0000) == (code >= 8),
        ieee::magnitude32(fp4_pattern(code as int) as u32) == fp4_halves(code as int) * pow2(148),
{
    let c = code as int;
    let e = c % 8 / 2;
    let m = c % 2;
    let b = fp4_pattern(c) as u32;
    let h = fp4_halves(c);
    let r = pow2(148) as int;
    lemma2_to64();
    if e == 0 {
        if m == 1 {
            assert(ieee::exp32(b) == 126);
            assert(ieee::frac32(b) == 0);
            lemma_pow2_adds(23, 125);
            assert(ieee::magnitude32(b) == 0x80_0000 * pow2(125));
            assert(h * r == r) by (nonlinear_arith)
                requires
                    h == 1,
            ;
        } else {
            assert(ieee::exp32(b) == 0);
            assert(ieee::frac32(b) == 0);
            assert(h * r == 0) by (nonlinear_arith)
                requires
                    h == 0,
            ;
        }
    } else {
        assert(ieee::exp32(b) == 126 + e);
        assert(ieee::frac32(b) == m * 0x40_0000);
        lemma_pow2_adds(22, (125 + e) as nat);
        lemma_pow2_adds((e - 1) as nat, 148);
        let p = pow2((125 + e) as nat) as int;
        let q = pow2((e - 1) as nat) as int;
        assert(0x40_0000 * p == q * r);
        assert((0x80_0000 + m * 0x40_0000) * p == (2 + m) * q * r) by (nonlinear_arith)
            requires
                0x40_0000 * p == q * r,
        ;
        assert(ieee::magnitude32(b) == (0x80_0000 + m * 0x40_0000) * p);
        assert(h == (2 + m) * q);
        assert(h * r == (2 + m) * q * r);
    }
}

// ---------------------------------------------------------------------------
// Matrices
// ---------------------------------------------------------------------------

/// The codes of block `g`, counted row by row.
pub open spec fn codes_of_block(codes: Seq<u8>, g: int) -> Seq<u8> {
    codes.subrange(LANES * g, LANES * (g + 1))
}

/// The first `n` blocks of a matrix, packed one behind the other.
pub open spec fn packed_blocks(
    format: QuantFormat,
    scales: Seq<u16>,
    codes: Seq<u8>,
    n: nat,
) -> Seq<u8>
    decreases n,
{
    if n == 0 {
        Seq::empty()
    } else {
        packed_blocks(format, scales, codes, (n - 1) as nat) + packed(
            format,
            scales[n - 1],
            codes_of_block(codes, n - 1),
        )
    }
}

/// The packed blocks stand one behind the other, each in its own place.
pub proof fn packed_block_place(
    format: QuantFormat,
    scales: Seq<u16>,
    codes: Seq<u8>,
    n: nat,
    g: int,
)
    requires
        0 <= g < n,
    ensures
        packed_blocks(format, scales, codes, n).len() == n * format.spec_block_bytes(),
        0 <= g * format.spec_block_bytes(),
        (g + 1) * format.spec_block_bytes() <= n * format.spec_block_bytes(),
        packed_blocks(format, scales, codes, n).subrange(
            g * format.spec_block_bytes(),
            (g + 1) * format.spec_block_bytes(),
        ) == packed(format, scales[g], codes_of_block(codes, g)),
    decreases n,
{
    let size = format.spec_block_bytes() as int;
    let front = packed_blocks(format, scales, codes, (n - 1) as nat);
    let last = packed(format, scales[n - 1], codes_of_block(codes, n - 1));
    lemma_packed_blocks_len(format, scales, codes, n);
    lemma_packed_blocks_len(format, scales, codes, (n - 1) as nat);
    assert(0 <= g * size && (g + 1) * size <= n * size && (g + 1) * size == g * size + size && (n
        - 1) * size == n * size - size) by (nonlinear_arith)
        requires
            0 <= g < n,
            size >= 0,
    ;
    if g < n - 1 {
        packed_block_place(format, scales, codes, (n - 1) as nat, g);
        assert((front + last).subrange(g * size, (g + 1) * size) == front.subrange(
            g * size,
            (g + 1) * size,
        )) by {
            assert((g + 1) * size <= (n - 1) * size) by (nonlinear_arith)
                requires
                    g + 1 <= n - 1,
                    size >= 0,
            ;
        }
    } else {
        assert((front + last).subrange(g * size, (g + 1) * size) == last);
    }
}

proof fn lemma_packed_blocks_len(
    format: QuantFormat,
    scales: Seq<u16>,
    codes: Seq<u8>,
    n: nat,
)
    ensures
        packed_blocks(format, scales, codes, n).len() == n * format.spec_block_bytes(),
    decreases n,
{
    if n > 0 {
        lemma_packed_blocks_len(format, scales, codes, (n - 1) as nat);
        let size = format.spec_block_bytes() as int;
        assert((n - 1) * size + size == n * size) by (nonlinear_arith);
    } else {
        assert(n * format.spec_block_bytes() == 0) by (nonlinear_arith)
            requires
                n == 0,
        ;
    }
}

/// Packs the codes of a whole matrix, given row by row, with one scale for each
/// block. Refuses sizes that `quant::dense_matrix_fault` describes.
pub fn pack_matrix(format: QuantFormat, scales: &[u16], codes: &[u8], shape: QGemvShape) -> (r:
    Result<Vec<u8>, CudaError>)
    requires
        quant::shape_metadata_fault(format, shape) is None ==> shape.rows * shape.cols
            <= usize::MAX,
        quant::dense_matrix_fault(format, codes@.len() as usize, shape) is None ==> {
            &&& scales@.len() == shape.rows * shape.spec_blocks_per_row()
            &&& forall|i: int| 0 <= i < scales@.len() ==> scale_fits(format, #[trigger] scales@[i])
            &&& forall|i: int|
                0 <= i < codes@.len() ==> (#[trigger] codes@[i]) < code_count(format)
        },
    ensures
        match r {
            Ok(out) => {
                &&& quant::dense_matrix_fault(format, codes@.len() as usize, shape) is None
                &&& out@ == packed_blocks(format, scales@, codes@, scales@.len())
                &&& out@.len() == shape.spec_matrix_bytes()
            },
            Err(e) => quant::dense_matrix_fault(format, codes@.len() as usize, shape) == Some(e@),
        },
{
    match quant::validate_dense_matrix(format, codes.len(), shape) {
        Ok(_) => {},
        Err(e) => {
            return Err(e);
        },
    }
    let mut out: Vec<u8> = Vec::new();
    let blocks: usize = scales.len();
    let total: usize = codes.len();
    proof {
        let rows = shape.rows as int;
        let per_row = shape.spec_blocks_per_row() as int;
        assert(shape.cols == 32 * per_row);
        assert(32 * blocks == total) by (nonlinear_arith)
            requires
                blocks == rows * per_row,
                total == rows * (32 * per_row),
        ;
        lemma_packed_blocks_len(format, scales@, codes@, blocks as nat);
        assert(blocks * shape.block_bytes == rows * (per_row * shape.block_bytes))
            by (nonlinear_arith)
            requires
                blocks == rows * per_row,
        ;
    }
    let mut g: usize = 0;
    while g < blocks
        invariant
            g <= blocks,
            blocks == scales@.len(),
            total == codes@.len(),
            32 * blocks == total,
            forall|i: int| 0 <= i < scales@.len() ==> scale_fits(format, #[trigger] scales@[i]),
            forall|i: int| 0 <= i < codes@.len() ==> (#[trigger] codes@[i]) < code_count(format),
            out@ == packed_blocks(format, scales@, codes@, g as nat),
        decreases blocks - g,
    {
        let block_codes = vstd::slice::slice_subrange(codes, 32 * g, 32 * g + 32);
        assert(block_codes@ == codes_of_block(codes@, g as int));
        let mut block = pack_block(format, scales[g], block_codes);
        out.append(&mut block);
        g = g + 1;
    }
    Ok(out)
}

/// Where the block of weight (`row`, `col`) begins in a packed matrix.
pub open spec fn block_start(format: QuantFormat, shape: QGemvShape, row: int, col: int) -> int {
    (row * shape.spec_blocks_per_row() + col / 32) * format.spec_block_bytes()
}

/// The position of the block of weight (`row`, `col`) lies inside the matrix.
proof fn lemma_block_start(format: QuantFormat, shape: QGemvShape, row: int, col: int)
    requires
        quant::shape_metadata_fault(format, shape) is None,
        0 <= row < shape.rows,
        0 <= col < shape.cols,
        shape.cols % 32 == 0,
    ensures
        0 <= block_start(format, shape, row, col),
        block_start(format, shape, row, col) + format.spec_block_bytes()
            <= shape.spec_matrix_bytes(),
        block_start(format, shape, row, col) == row * shape.spec_row_bytes() + (col / 32)
            * format.spec_block_bytes(),
        0 <= row * shape.spec_row_bytes(),
        0 <= (col / 32) * format.spec_block_bytes(),
{
    let per_row = shape.spec_blocks_per_row() as int;
    let size = format.spec_block_bytes() as int;
    let b = col / 32;
    let rows = shape.rows as int;
    assert(0 <= b < per_row);
    assert((row * per_row + b) * size == row * (per_row * size) + b * size) by (nonlinear_arith);
    assert(0 <= row * (per_row * size) && 0 <= b * size && row * (per_row * size) + b * size + size
        <= rows * (per_row * size)) by (nonlinear_arith)
        requires
            0 <= row < rows,
            0 <= b < per_row,
            size > 0,
    ;
}

/// The code and the scale of weight (`row`, `col`) of a packed matrix.
pub fn weight_at(format: QuantFormat, qweights: &[u8], shape: QGemvShape, row: usize, col: usize)
    -> (w: (u8, u16))
    requires
        quant::shape_metadata_fault(format, shape) is None,
        shape.cols % 32 == 0,
        qweights@.len() == shape.spec_matrix_bytes(),
        row < shape.rows,
        col < shape.cols,
    ensures
        ({
            let start = block_start(format, shape, row as int, col as int);
            let block = qweights@.subrange(start, start + format.spec_block_bytes());
            w.0 == block_code(format, block, col as int % 32) && w.1 == block_scale(format, block)
        }),
{
    let end: usize = qweights.len();
    proof {
        lemma_block_start(format, shape, row as int, col as int);
        assert(shape.spec_row_bytes() <= shape.rows * shape.spec_row_bytes()) by (nonlinear_arith)
            requires
                shape.rows >= 1,
        ;
    }
    let start: usize = row * shape.quantized_row_bytes() + (col / 32) * shape.block_bytes;
    (code_at(format, qweights, start, col % 32), scale_at(format, qweights, start))
}

/// Reading weight (`row`, `col`) of a packed matrix gives the code and the scale
/// that were packed for it.
pub proof fn read_of_packed_matrix(
    format: QuantFormat,
    scales: Seq<u16>,
    codes: Seq<u8>,
    shape: QGemvShape,
    row: int,
    col: int,
)
    requires
        quant::shape_metadata_fault(format, shape) is None,
        shape.cols % 32 == 0,
        codes.len() == shape.rows * shape.cols,
        scales.len() == shape.rows * shape.spec_blocks_per_row(),
        forall|i: int| 0 <= i < scales.len() ==> scale_fits(format, #[trigger] scales[i]),
        forall|i: int| 0 <= i < codes.len() ==> (#[trigger] codes[i]) < code_count(format),
        0 <= row < shape.rows,
        0 <= col < shape.cols,
    ensures
        ({
            let bytes = packed_blocks(format, scales, codes, scales.len());
            let start = block_start(format, shape, row, col);
            let block = bytes.subrange(start, start + format.spec_block_bytes());
            &&& block_code(format, block, col % 32) == codes[row * shape.cols + col]
            &&& block_scale(format, block) == scales[row * shape.spec_blocks_per_row() + col / 32]
        }),
{
    let per_row = shape.spec_blocks_per_row() as int;
    let b = col / 32;
    let g = row * per_row + b;
    let size = format.spec_block_bytes() as int;
    assert(shape.cols == 32 * per_row);
    lemma_block_index(shape.rows as int, per_row, row, col, codes.len() as int, scales.len() as int);
    packed_block_place(format, scales, codes, scales.len(), g);
    assert((g + 1) * size == g * size + size) by (nonlinear_arith);
    let own = codes_of_block(codes, g);
    assert forall|i: int| 0 <= i < own.len() implies (#[trigger] own[i]) < code_count(format) by {
        assert(own[i] == codes[32 * g + i]);
    }
    lemma_read_of_pack(format, scales[g], own, col % 32);
}

proof fn lemma_block_index(rows: int, per_row: int, row: int, col: int, codes: int, scales: int)
    requires
        0 <= row < rows,
        0 <= col < 32 * per_row,
        scales == rows * per_row,
        codes == rows * (32 * per_row),
    ensures
        0 <= row * per_row + col / 32 < scales,
        32 * (row * per_row + col / 32 + 1) <= codes,
        32 * (row * per_row + col / 32) + col % 32 == row * (32 * per_row) + col,
{
    let b = col / 32;
    assert(0 <= b < per_row);
    assert(0 <= row * per_row + b < scales && 32 * (row * per_row + b + 1) <= codes && 32 * (row
        * per_row + b) + (col - 32 * b) == row * (32 * per_row) + col) by (nonlinear_arith)
        requires
            0 <= row < rows,
            0 <= b < per_row,
            scales == rows * per_row,
            codes == rows * (32 * per_row),
    ;
}

proof fn lemma_read_of_pack(format: QuantFormat, scale: u16, codes: Seq<u8>, lane: int)
    requires
        scale_fits(format, scale),
        codes_fit(format, codes),
        0 <= lane < 32,
    ensures
        block_code(format, packed(format, scale, codes), lane) == codes[lane],
        block_scale(format, packed(format, scale, codes)) == scale,
{
    unpack_of_pack(format, scale, codes);
    lemma_code_range(format, packed(format, scale, codes), lane);
}

// ---------------------------------------------------------------------------
// Laws of bytes
// ---------------------------------------------------------------------------

/// Of two lanes that share a byte the first takes its lower half: the byte is the
/// first code and sixteen times the second. In Q5 these are the lower four bits of
/// the codes.
pub proof fn lanes_share_bytes(format: QuantFormat, block: Seq<u8>, k: int)
    requires
        0 <= k < 16,
        format != QuantFormat::IQ3_0,
    ensures
        ({
            let first = block_code(format, block, 2 * k) % 16;
            let second = block_code(format, block, 2 * k + 1) % 16;
            let at = if format == QuantFormat::DeepSeekFp4E2M1 {
                1int
            } else if format == QuantFormat::Q4_0 {
                2
            } else {
                6
            };
            block[at + k] == first + 16 * second
        }),
{
    assert((2 * k) / 2 == k && (2 * k + 1) / 2 == k);
    assert((2 * k) % 2 == 0 && (2 * k + 1) % 2 == 1);
    match format {
        QuantFormat::Q4_0 => {
            lemma_two_halves(block[2 + k] as int, 0, 0);
        },
        QuantFormat::Q5_0 => {
            let (x, y) = (block[2 + (2 * k) / 8] as int, block[2 + (2 * k + 1) / 8] as int);
            lemma_two_halves(
                block[6 + k] as int,
                bit_of(x, (2 * k) % 8),
                bit_of(y, (2 * k + 1) % 8),
            );
        },
        QuantFormat::IQ3_0 => {},
        QuantFormat::DeepSeekFp4E2M1 => {
            lemma_two_halves(block[1 + k] as int, 0, 0);
        },
    }
}

/// The halves of a byte make it up, whatever stands above them.
proof fn lemma_two_halves(byte: int, a: int, b: int)
    requires
        0 <= byte < 256,
    ensures
        byte == (half_of(byte, 0) + 16 * a) % 16 + 16 * ((half_of(byte, 1) + 16 * b) % 16),
        byte == half_of(byte, 0) % 16 + 16 * (half_of(byte, 1) % 16),
{
    assert((byte % 16 + 16 * a) % 16 == byte % 16);
    assert((byte / 16 + 16 * b) % 16 == byte / 16);
}

/// In Q5 the fifth bits of eight lanes share a byte, the first lane in its lowest
/// bit; in IQ3 the lower two bits of four lanes do, and the third bits of eight.
pub proof fn lanes_share_high_bits(block: Seq<u8>, lane: int)
    requires
        0 <= lane < 32,
    ensures
        block_code(QuantFormat::Q5_0, block, lane) / 16 == bit_of(
            block[2 + lane / 8] as int,
            lane % 8,
        ),
        block_code(QuantFormat::IQ3_0, block, lane) / 4 == bit_of(
            block[10 + lane / 8] as int,
            lane % 8,
        ),
        block_code(QuantFormat::IQ3_0, block, lane) % 4 == quarter_of(
            block[2 + lane / 4] as int,
            lane % 4,
        ),
{
    let (a, b) = (bit_of(block[2 + lane / 8] as int, lane % 8), bit_of(
        block[10 + lane / 8] as int,
        lane % 8,
    ));
    let h = half_of(block[6 + lane / 2] as int, lane % 2);
    let q = quarter_of(block[2 + lane / 4] as int, lane % 4);
    assert(0 <= h < 16 && 0 <= q < 4);
    assert((h + 16 * a) / 16 == a);
    assert((q + 4 * b) / 4 == b && (q + 4 * b) % 4 == q);
}

/// Bits and quarters make up their byte, the first in the lowest place.
pub proof fn bits_make_bytes(byte: u8)
    ensures
        byte == byte_of_bits(|k: int| bit_of(byte as int, k), 0),
        byte == byte_of_quarters(|k: int| quarter_of(byte as int, k), 0),
        byte == byte_of_halves(|k: int| half_of(byte as int, k), 0),
{
    lemma_byte_bits(byte as int);
    lemma_byte_quarters(byte as int);
}

/// Codes stand for whole levels around zero: half of them are negative, the lowest
/// code is the lowest level, and levels go up by one.
pub proof fn levels_are_centred(format: QuantFormat, code: int)
    requires
        format != QuantFormat::DeepSeekFp4E2M1,
        0 <= code < code_count(format),
    ensures
        spec_level(format, code) matches Some(l) && l < 0 <==> 2 * code < code_count(format),
        spec_level(format, code + 1)->0 == spec_level(format, code)->0 + 1,
        spec_level(format, 0)->0 == -(code_count(format) / 2),
        code_count(format) == pow2(quant::value_bits(format)),
{
    lemma2_to64();
}

/// The sixteen FP4 codes stand for zero, one half, one, one and a half, two, three,
/// four and six, and for the same with the other sign.
pub proof fn fp4_values_are_these(code: int)
    requires
        0 <= code < 16,
    ensures
        fp4_halves(code) == seq![0int, 1, 2, 3, 4, 6, 8, 12][code % 8],
        fp4_pattern(code) >= 0x8000_0000 <==> code >= 8,
{
    lemma2_to64();
    let table = seq![0int, 1, 2, 3, 4, 6, 8, 12];
    let c = code % 8;
    assert(c == 0 || c == 1 || c == 2 || c == 3 || c == 4 || c == 5 || c == 6 || c == 7);
    assert(table[0] == 0 && table[1] == 1 && table[2] == 2 && table[3] == 3);
    assert(table[4] == 4 && table[5] == 6 && table[6] == 8 && table[7] == 12);
    let (e, m) = (c / 2, code % 2);
    assert(m == c % 2);
    if e == 1 {
        assert(pow2((e - 1) as nat) == 1);
        assert((2 + m) * 1 == 2 + m);
    } else if e == 2 {
        assert(pow2((e - 1) as nat) == 2);
        assert((2 + m) * 2 == 4 + 2 * m);
    } else if e == 3 {
        assert(pow2((e - 1) as nat) == 4);
        assert((2 + m) * 4 == 8 + 4 * m);
    }
}

} // verus!
