//! Raw sample words: how the supported encodings lay a sample out in bytes,
//! and how each word scales onto the normalized range.
//!
//! A missing word (the container's header promised more bytes than the
//! stream holds) decodes to silence rather than ending the stream, so a
//! truncated data chunk still yields exactly the announced sample count.

use vstd::prelude::*;
use vstd::arithmetic::power2::{pow2, lemma2_to64, lemma_pow2_strictly_increases};
use vstd::arithmetic::div_mod::lemma_basic_div;
use crate::sample::{Norm, clamp_to_norm, clamp_raw, i8_to_norm, i16_to_norm, i24_to_norm,
    i32_to_norm, NORM_ONE};

verus! {

/// The supported (encoding, bit depth, container width) combinations.
#[derive(Clone, Copy, Debug, PartialEq, Eq, Structural)]
pub enum SampleEnc {
    /// 8-bit fixed point, stored as one unsigned byte offset by 128.
    Pcm8,
    /// 16-bit fixed point, two bytes little-endian.
    Pcm16,
    /// 24-bit fixed point, three bytes little-endian.
    Pcm24,
    /// 24-bit fixed point widened into a four-byte container: the value
    /// sits in the low three bytes of each word, the high byte is padding.
    Pcm24Wide,
    /// 32-bit fixed point, four bytes little-endian.
    Pcm32,
    /// 32-bit floating point, four bytes little-endian.
    Float32,
    /// A supported bit depth stored in a container width whose words the
    /// raw sample reader does not interpret: the container still announces
    /// its word count, and every word decodes to silence, the same masking
    /// the reader's per-word failures get.
    Unreadable { width: u16 },
}

impl SampleEnc {
    /// How many bytes one sample word occupies in the data chunk.
    pub open spec fn word_bytes(self) -> int {
        match self {
            SampleEnc::Pcm8 => 1,
            SampleEnc::Pcm16 => 2,
            SampleEnc::Pcm24 => 3,
            SampleEnc::Pcm24Wide => 4,
            SampleEnc::Pcm32 => 4,
            SampleEnc::Float32 => 4,
            SampleEnc::Unreadable { width } => width as int,
        }
    }

    /// Executable twin of `word_bytes`.
    pub fn word_width(&self) -> (r: u16)
        ensures
            r == self.word_bytes(),
    {
        match self {
            SampleEnc::Pcm8 => 1,
            SampleEnc::Pcm16 => 2,
            SampleEnc::Pcm24 => 3,
            SampleEnc::Pcm24Wide => 4,
            SampleEnc::Pcm32 => 4,
            SampleEnc::Float32 => 4,
            SampleEnc::Unreadable { width } => *width,
        }
    }
}

/// The little-endian integer held in `w` bytes of `data` starting at `off`.
pub open spec fn le_word(data: Seq<u8>, off: int, w: int) -> int
    decreases w,
{
    if w <= 0 {
        0
    } else {
        data[off] + 0x100 * le_word(data, off + 1, w - 1)
    }
}

/// A `w`-byte little-endian word is below `2^(8w)`.
pub proof fn lemma_le_word_bound(data: Seq<u8>, off: int, w: int)
    requires
        0 <= off,
        0 <= w,
        off + w <= data.len(),
    ensures
        0 <= le_word(data, off, w) < pow2((8 * w) as nat),
    decreases w,
{
    lemma2_to64();
    if w <= 0 {
    } else {
        lemma_le_word_bound(data, off + 1, w - 1);
        assert(pow2((8 * w) as nat) == 0x100 * pow2((8 * (w - 1)) as nat)) by {
            vstd::arithmetic::power2::lemma_pow2_adds(8, (8 * (w - 1)) as nat);
        };
    }
}

/// Reads the `w`-byte little-endian word at `off`, or nothing when the
/// stream ends before the word does.
pub fn read_le_word(data: &Vec<u8>, off: u64, w: u16) -> (r: Option<u32>)
    requires
        1 <= w <= 4,
    ensures
        r is Some <==> off + w <= data@.len(),
        r matches Some(v) ==> v == le_word(data@, off as int, w as int),
{
    let n: u64 = data.len() as u64;
    if off >= n || n - off < w as u64 {
        return None;
    }
    let i0: usize = off as usize;
    proof {
        reveal_with_fuel(le_word, 5);
    }
    let mut v: u32 = data[i0] as u32;
    if w >= 2 {
        v = v + (data[i0 + 1] as u32) * 0x100;
    }
    if w >= 3 {
        v = v + (data[i0 + 2] as u32) * 0x1_0000;
    }
    if w == 4 {
        v = v + (data[i0 + 3] as u32) * 0x100_0000;
    }
    Some(v)
}

/// Two's-complement reading of an unsigned word whose sign bit is `half`.
pub open spec fn sign_extend(v: int, half: int) -> int {
    if v >= half {
        v - 2 * half
    } else {
        v
    }
}

/// The integer a raw sample word holds: the signed fixed-point value for the
/// PCM encodings (with the 8-bit offset-128 convention and the widened
/// 24-bit container's high byte ignored), the bit pattern for `Float32`.
pub open spec fn word_value(data: Seq<u8>, off: int, enc: SampleEnc) -> int {
    match enc {
        SampleEnc::Pcm8 => le_word(data, off, 1) - 0x80,
        SampleEnc::Pcm16 => sign_extend(le_word(data, off, 2), 0x8000),
        SampleEnc::Pcm24 => sign_extend(le_word(data, off, 3), 0x80_0000),
        SampleEnc::Pcm24Wide => sign_extend(le_word(data, off, 3), 0x80_0000),
        SampleEnc::Pcm32 => sign_extend(le_word(data, off, 4), 0x8000_0000),
        SampleEnc::Float32 => le_word(data, off, 4),
        SampleEnc::Unreadable { .. } => 0,
    }
}

/// A word's normalized value, times `2^31`: each fixed-point depth scales
/// by its own power of two and is clamped into the normalized range; a
/// floating-point word is interpreted from its bit pattern.
pub open spec fn scaled_value(v: int, enc: SampleEnc) -> int {
    match enc {
        SampleEnc::Pcm8 => clamp_to_norm(v * 0x100_0000),
        SampleEnc::Pcm16 => clamp_to_norm(v * 0x1_0000),
        SampleEnc::Pcm24 => clamp_to_norm(v * 0x100),
        SampleEnc::Pcm24Wide => clamp_to_norm(v * 0x100),
        SampleEnc::Pcm32 => clamp_to_norm(v),
        SampleEnc::Float32 => f32_bits_to_fixed(v),
        SampleEnc::Unreadable { .. } => 0,
    }
}

/// The normalized value (times `2^31`) of the sample word at `off`, or
/// silence when the stream ends before the word is complete.
pub open spec fn decode_at(data: Seq<u8>, off: int, enc: SampleEnc) -> int {
    if 0 <= off && off + enc.word_bytes() <= data.len() {
        scaled_value(word_value(data, off, enc), enc)
    } else {
        0
    }
}

/// A decoded word always lands inside the normalized range.
pub proof fn lemma_decode_in_range(data: Seq<u8>, off: int, enc: SampleEnc)
    ensures
        -0x8000_0000 <= decode_at(data, off, enc) <= 0x8000_0000,
{
    if 0 <= off && off + enc.word_bytes() <= data.len() {
        match enc {
            SampleEnc::Float32 => {
                lemma_le_word_bound(data, off, 4);
                lemma2_to64();
                lemma_f32_fixed_in_range(le_word(data, off, 4));
            },
            _ => {},
        }
    }
}

/// A normalized value reconstructed from a floating-point bit pattern: the
/// pattern holds a sign, an exponent and a 23-bit fraction encoding the
/// amplitude `(-1)^s * 1.f * 2^(e - 127)`, so the value times `2^31` is
/// `(-1)^s * (2^23 + f) * 2^(e - 119)`, truncated toward zero when that is
/// not an integer. Subnormal patterns are far below one quantization step
/// and decode to silence; infinities and other out-of-range patterns clamp
/// to full scale.
pub open spec fn f32_bits_to_fixed(b: int) -> int {
    let sign: int = if b >= 0x8000_0000 {
        -1
    } else {
        1
    };
    let expo: int = (b / 0x80_0000) % 0x100;
    let frac: int = b % 0x80_0000;
    if expo == 0 {
        0
    } else if expo == 0xff {
        sign * 0x8000_0000
    } else {
        let m: int = frac + 0x80_0000;
        if expo >= 119 {
            clamp_to_norm(sign * (m * pow2((expo - 119) as nat)))
        } else {
            sign * (m / pow2((119 - expo) as nat) as int)
        }
    }
}

/// The reconstruction above stays inside the normalized range.
pub proof fn lemma_f32_fixed_in_range(b: int)
    requires
        0 <= b < 0x1_0000_0000,
    ensures
        -0x8000_0000 <= f32_bits_to_fixed(b) <= 0x8000_0000,
{
    lemma2_to64();
    let sign: int = if b >= 0x8000_0000 {
        -1
    } else {
        1
    };
    let expo: int = (b / 0x80_0000) % 0x100;
    let frac: int = b % 0x80_0000;
    if expo == 0 {
        assert(f32_bits_to_fixed(b) == 0);
    } else if expo == 0xff {
        assert(f32_bits_to_fixed(b) == sign * 0x8000_0000);
    } else {
        let m: int = frac + 0x80_0000;
        if expo >= 119 {
            let x: int = sign * (m * pow2((expo - 119) as nat));
            assert(f32_bits_to_fixed(b) == clamp_to_norm(x));
            assert(-0x8000_0000 <= clamp_to_norm(x) <= 0x8000_0000);
        } else {
            let p: int = pow2((119 - expo) as nat) as int;
            assert(p >= 2) by {
                if 119 - expo > 1 {
                    lemma_pow2_strictly_increases(1, (119 - expo) as nat);
                }
            };
            assert(0 <= m / p <= m) by {
                vstd::arithmetic::div_mod::lemma_div_nonincreasing(m, p);
                vstd::arithmetic::div_mod::lemma_div_pos_is_pos(m, p);
            };
            assert(f32_bits_to_fixed(b) == sign * (m / p));
        }
    }
}

/// A power of two, computed by doubling.
fn pow2_u32(e: u16) -> (r: u32)
    requires
        e <= 30,
    ensures
        r == pow2(e as nat),
{
    proof {
        lemma2_to64();
    }
    let mut r: u32 = 1;
    let mut i: u16 = 0;
    while i < e
        invariant
            i <= e,
            e <= 30,
            r == pow2(i as nat),
        decreases e - i,
    {
        proof {
            lemma2_to64();
            if (i as nat) < 30 {
                lemma_pow2_strictly_increases(i as nat, 30);
            }
            vstd::arithmetic::power2::lemma_pow2_adds(i as nat, 1);
        }
        r = r * 2;
        i = i + 1;
    }
    r
}

/// Interprets a floating-point bit pattern as a normalized sample.
pub fn f32_bits_to_norm(b: u32) -> (n: Norm)
    ensures
        n.wf(),
        n.raw == f32_bits_to_fixed(b as int),
{
    let ghost bi: int = b as int;
    let ghost sign: int = if bi >= 0x8000_0000 {
        -1
    } else {
        1
    };
    let neg: bool = b >= 0x8000_0000;
    let expo: u32 = (b / 0x80_0000) % 0x100;
    let frac: u32 = b % 0x80_0000;
    proof {
        lemma2_to64();
        assert(expo == (bi / 0x80_0000) % 0x100);
        assert(frac == bi % 0x80_0000);
    }
    if expo == 0 {
        proof {
            assert(f32_bits_to_fixed(bi) == 0);
        }
        Norm { raw: 0 }
    } else if expo == 0xff {
        proof {
            assert(f32_bits_to_fixed(bi) == sign * 0x8000_0000);
        }
        Norm { raw: if neg { -NORM_ONE } else { NORM_ONE } }
    } else {
        let m: u32 = frac + 0x80_0000;
        if expo >= 128 {
            // the magnitude is at least 2^32, past full scale either way
            proof {
                let sh: nat = (expo - 119) as nat;
                if sh > 9 {
                    lemma_pow2_strictly_increases(9, sh);
                }
                assert(m * pow2(sh) >= 0x1_0000_0000) by (nonlinear_arith)
                    requires
                        m >= 0x80_0000,
                        pow2(sh) >= 0x200,
                ;
                assert(f32_bits_to_fixed(bi) == clamp_to_norm(sign * (m * pow2(sh))));
                assert(clamp_to_norm(sign * (m * pow2(sh))) == sign * 0x8000_0000);
            }
            Norm { raw: if neg { -NORM_ONE } else { NORM_ONE } }
        } else if expo >= 119 {
            let p: u32 = pow2_u32((expo - 119) as u16);
            proof {
                let sh: nat = (expo - 119) as nat;
                if sh < 8 {
                    lemma_pow2_strictly_increases(sh, 8);
                }
                assert(m * pow2(sh) <= 0x1_0000_0000_0000) by (nonlinear_arith)
                    requires
                        m < 0x100_0000,
                        pow2(sh) <= 0x100,
                ;
                assert(f32_bits_to_fixed(bi) == clamp_to_norm(sign * (m * pow2(sh))));
            }
            let v: u64 = (m as u64) * (p as u64);
            let signed: i64 = if neg {
                -(v as i64)
            } else {
                v as i64
            };
            Norm { raw: clamp_raw(signed) }
        } else {
            let sh: u32 = 119 - expo;
            if sh >= 24 {
                proof {
                    if sh > 24 {
                        lemma_pow2_strictly_increases(24, sh as nat);
                    }
                    lemma_basic_div(m as int, pow2(sh as nat) as int);
                    assert(f32_bits_to_fixed(bi) == sign * (m as int / pow2(sh as nat) as int));
                }
                Norm { raw: 0 }
            } else {
                let p: u32 = pow2_u32(sh as u16);
                let q: u32 = m / p;
                proof {
                    assert(f32_bits_to_fixed(bi) == sign * (m as int / pow2(sh as nat) as int));
                    vstd::arithmetic::div_mod::lemma_div_nonincreasing(m as int, p as int);
                    vstd::arithmetic::div_mod::lemma_div_pos_is_pos(m as int, p as int);
                }
                Norm { raw: if neg { -(q as i64) } else { q as i64 } }
            }
        }
    }
}

/// Decodes the sample word at `off`, substituting silence when the word is
/// missing or incomplete.
pub fn decode_sample_at(data: &Vec<u8>, off: u64, enc: SampleEnc) -> (n: Norm)
    ensures
        n.wf(),
        n.raw == decode_at(data@, off as int, enc),
{
    if let SampleEnc::Unreadable { .. } = enc {
        return Norm { raw: 0 };
    }
    let w: u16 = enc.word_width();
    let word: Option<u32> = read_le_word(data, off, w);
    match word {
        None => Norm { raw: 0 },
        Some(v) => {
            proof {
                lemma_le_word_bound(data@, off as int, w as int);
                lemma2_to64();
            }
            match enc {
                SampleEnc::Pcm8 => {
                    let sv: i32 = (v as i32) - 0x80;
                    i8_to_norm(sv as i8)
                },
                SampleEnc::Pcm16 => {
                    let sv: i32 = if v >= 0x8000 {
                        (v as i32) - 0x1_0000
                    } else {
                        v as i32
                    };
                    i16_to_norm(sv as i16)
                },
                SampleEnc::Pcm24 => {
                    let sv: i32 = if v >= 0x80_0000 {
                        (v as i32) - 0x100_0000
                    } else {
                        v as i32
                    };
                    i24_to_norm(sv)
                },
                SampleEnc::Pcm24Wide => {
                    // the high byte of each word is padding; the value sits
                    // in the low three bytes
                    let v3: u32 = match read_le_word(data, off, 3) {
                        Some(x) => x,
                        None => 0,
                    };
                    proof {
                        lemma_le_word_bound(data@, off as int, 3);
                    }
                    let sv: i32 = if v3 >= 0x80_0000 {
                        (v3 as i32) - 0x100_0000
                    } else {
                        v3 as i32
                    };
                    i24_to_norm(sv)
                },
                SampleEnc::Pcm32 => {
                    let sv: i64 = if v >= 0x8000_0000 {
                        (v as i64) - 0x1_0000_0000
                    } else {
                        v as i64
                    };
                    i32_to_norm(sv as i32)
                },
                SampleEnc::Float32 => f32_bits_to_norm(v),
                SampleEnc::Unreadable { .. } => Norm { raw: 0 },
            }
        },
    }
}

/// Reading a word inside a suffix reads the same bytes as reading it in the
/// whole stream at the shifted offset.
pub proof fn lemma_le_word_skip(data: Seq<u8>, pos: int, off: int, w: int)
    requires
        0 <= pos <= data.len(),
        0 <= off,
        0 <= w,
        pos + off + w <= data.len(),
    ensures
        le_word(data.skip(pos), off, w) == le_word(data, pos + off, w),
    decreases w,
{
    if w > 0 {
        assert(data.skip(pos)[off] == data[pos + off]);
        lemma_le_word_skip(data, pos, off + 1, w - 1);
    }
}

} // verus!
