//! Conversion between the two audio formats that meet in the bridge: signed
//! 16-bit little-endian samples (slin), which `slmodemd` speaks, and G.711
//! mu-law (ulaw), one byte per sample, which Asterisk speaks.

use vstd::arithmetic::power2::{lemma2_to64, pow2};
use vstd::prelude::*;

verus! {

/// Added to a magnitude before its segment is looked up, so that every
/// segment starts at a power of two.
pub const ULAW_BIAS: i32 = 132;

/// The largest magnitude that mu-law tells apart from larger ones.
pub const ULAW_CLIP: i32 = 32635;

/// Segment `segment` of mu-law is twice as coarse as the one before it.
pub open spec fn segment_scale(segment: int) -> int {
    if segment <= 0 {
        1
    } else if segment == 1 {
        2
    } else if segment == 2 {
        4
    } else if segment == 3 {
        8
    } else if segment == 4 {
        16
    } else if segment == 5 {
        32
    } else if segment == 6 {
        64
    } else {
        128
    }
}

/// The segment that a biased magnitude falls in: segment `e` runs from
/// `128 * 2^e` up to, and not including, `256 * 2^e`.
pub open spec fn segment_of(biased: int) -> int {
    if biased < 256 {
        0
    } else if biased < 512 {
        1
    } else if biased < 1024 {
        2
    } else if biased < 2048 {
        3
    } else if biased < 4096 {
        4
    } else if biased < 8192 {
        5
    } else if biased < 16384 {
        6
    } else {
        7
    }
}

/// The magnitude of a sample, clipped and biased.
pub open spec fn biased_magnitude(sample: int) -> int {
    let magnitude = if sample < 0 {
        -sample
    } else {
        sample
    };
    if magnitude > ULAW_CLIP {
        ULAW_CLIP + ULAW_BIAS
    } else {
        magnitude + ULAW_BIAS
    }
}

/// Which of the sixteen equal steps of its segment a biased magnitude is in.
pub open spec fn step_of(biased: int) -> int {
    if biased < 256 {
        biased / 8 - 16
    } else if biased < 512 {
        biased / 16 - 16
    } else if biased < 1024 {
        biased / 32 - 16
    } else if biased < 2048 {
        biased / 64 - 16
    } else if biased < 4096 {
        biased / 128 - 16
    } else if biased < 8192 {
        biased / 256 - 16
    } else if biased < 16384 {
        biased / 512 - 16
    } else {
        biased / 1024 - 16
    }
}

/// The mu-law code of a sample: sign, segment and one of sixteen equal steps
/// within the segment, all bits inverted.
pub open spec fn encode_sample(sample: int) -> int {
    let biased = biased_magnitude(sample);
    let sign: int = if sample < 0 {
        128
    } else {
        0
    };
    255 - (sign + 16 * segment_of(biased) + step_of(biased))
}

/// The magnitude that a mu-law code stands for: the middle of its step.
pub open spec fn decoded_magnitude(code: int) -> int {
    let bits = (255 - code) % 128;
    (8 * (bits % 16) + ULAW_BIAS) * segment_scale(bits / 16) - ULAW_BIAS
}

/// The sample that a mu-law code stands for.
pub open spec fn decode_sample(code: int) -> int {
    if code < 128 {
        -decoded_magnitude(code)
    } else {
        decoded_magnitude(code)
    }
}

/// The sample that two little-endian bytes hold, in two's complement.
pub open spec fn sample_of_bytes(low: u8, high: u8) -> int {
    if high < 128 {
        low + 256 * high
    } else {
        low + 256 * high - 65536
    }
}

/// The sixteen bits of a sample as an unsigned number.
pub open spec fn sample_bits(sample: int) -> int {
    if sample < 0 {
        sample + 65536
    } else {
        sample
    }
}

/// Sample `i` of a slin buffer.
pub open spec fn sample_at(slin: Seq<u8>, i: int) -> int {
    sample_of_bytes(slin[2 * i], slin[2 * i + 1])
}

/// A slin buffer in mu-law: one code for each whole sample.
pub open spec fn ulaw_of(slin: Seq<u8>) -> Seq<u8> {
    Seq::new((slin.len() / 2) as nat, |i: int| encode_sample(sample_at(slin, i)) as u8)
}

/// Byte `i` of the slin buffer that mu-law codes stand for.
pub open spec fn slin_byte(ulaw: Seq<u8>, i: int) -> int {
    let bits = sample_bits(decode_sample(ulaw[i / 2] as int));
    if i % 2 == 0 {
        bits % 256
    } else {
        bits / 256
    }
}

/// Mu-law codes as a slin buffer: two bytes for each code, low byte first.
pub open spec fn slin_of(ulaw: Seq<u8>) -> Seq<u8> {
    Seq::new((2 * ulaw.len()) as nat, |i: int| slin_byte(ulaw, i) as u8)
}

/// The steps of a segment cover it: a biased magnitude lies between the lower
/// edge of its step and that of the next.
proof fn step_bounds(biased: int)
    requires
        ULAW_BIAS <= biased < 32768,
    ensures
        0 <= segment_of(biased) <= 7,
        0 <= step_of(biased) <= 15,
        step_of(biased) == biased / (8 * segment_scale(segment_of(biased))) - 16,
        ({
            let scale = segment_scale(segment_of(biased));
            8 * scale * (16 + step_of(biased)) <= biased < 8 * scale * (17 + step_of(biased))
        }),
{
    let scale = segment_scale(segment_of(biased));
    let step = step_of(biased);
    assert(step == biased / (8 * scale) - 16);
    assert(8 * scale * (16 + step) <= biased < 8 * scale * (17 + step)) by (nonlinear_arith)
        requires
            scale > 0,
            step == biased / (8 * scale) - 16,
    ;
}

/// The bytes that a residual holds: one or none.
pub open spec fn held(residual: Option<u8>) -> Seq<u8> {
    match residual {
        Some(byte) => seq![byte],
        None => Seq::empty(),
    }
}

/// Every sample has a code that fits in a byte.
pub proof fn code_is_a_byte(sample: int)
    requires
        -32768 <= sample <= 32767,
    ensures
        0 <= encode_sample(sample) <= 255,
        sample < 0 <==> encode_sample(sample) < 128,
{
    step_bounds(biased_magnitude(sample));
}

/// Every code stands for a 16-bit sample.
pub proof fn decoded_is_a_sample(code: u8)
    ensures
        0 <= decoded_magnitude(code as int) <= 32124,
        -32124 <= decode_sample(code as int) <= 32124,
{
}

/// The mu-law code of one sample.
pub fn linear_to_ulaw(sample: i16) -> (code: u8)
    ensures
        code == encode_sample(sample as int),
{
    proof {
        code_is_a_byte(sample as int);
    }
    let value: i32 = sample as i32;
    let magnitude: i32 = if value < 0 {
        -value
    } else {
        value
    };
    let biased: i32 = if magnitude > ULAW_CLIP {
        ULAW_CLIP + ULAW_BIAS
    } else {
        magnitude + ULAW_BIAS
    };
    let mut segment: i32 = 0;
    let mut scale: i32 = 1;
    while biased >= 256 * scale
        invariant
            0 <= segment <= 7,
            scale == segment_scale(segment as int),
            128 * scale <= biased < 32768,
        decreases 7 - segment,
    {
        segment = segment + 1;
        scale = scale * 2;
    }
    assert(segment == segment_of(biased as int));
    proof {
        step_bounds(biased as int);
    }
    let step: i32 = biased / (8 * scale) - 16;
    let sign: i32 = if value < 0 {
        128
    } else {
        0
    };
    (255 - (sign + 16 * segment + step)) as u8
}

/// The sample that a mu-law code stands for.
pub fn ulaw_to_linear(code: u8) -> (sample: i16)
    ensures
        sample == decode_sample(code as int),
{
    proof {
        decoded_is_a_sample(code);
    }
    let bits: i32 = (255 - code as i32) % 128;
    let mut scale: i32 = 1;
    let mut segment: i32 = 0;
    while segment < bits / 16
        invariant
            0 <= bits < 128,
            0 <= segment <= bits / 16,
            scale == segment_scale(segment as int),
        decreases bits / 16 - segment,
    {
        segment = segment + 1;
        scale = scale * 2;
    }
    let magnitude: i32 = (8 * (bits % 16) + ULAW_BIAS) * scale - ULAW_BIAS;
    if code < 128 {
        (-magnitude) as i16
    } else {
        magnitude as i16
    }
}

/// Takes the next chunk of a slin byte stream and gives back the whole samples
/// that are now available. A byte that is left over, because the chunk ended
/// in the middle of a sample, is kept in `residual` and starts the next buffer.
pub fn align_slin_buffer(residual: &mut Option<u8>, chunk: &[u8]) -> (slin: Vec<u8>)
    ensures
        slin@.len() % 2 == 0,
        slin@ + held(*final(residual)) == held(*old(residual)) + chunk@,
        match *old(residual) {
            Some(byte) => {
                &&& *final(residual) is Some <==> chunk@.len() % 2 == 0
                &&& slin@.len() > 0 ==> slin@[0] == byte
                &&& forall|i: int| 0 < i < slin@.len() ==> slin@[i] == chunk@[i - 1]
            },
            None => {
                &&& *final(residual) is Some <==> chunk@.len() % 2 == 1
                &&& forall|i: int| 0 <= i < slin@.len() ==> slin@[i] == chunk@[i]
            },
        },
        *final(residual) matches Some(byte) ==> byte == (if chunk@.len() > 0 {
            chunk@.last()
        } else {
            (*old(residual))->0
        }),
{
    let mut slin: Vec<u8> = Vec::new();
    let ghost before = held(*residual);
    if let Some(byte) = *residual {
        slin.push(byte);
    }
    let mut i: usize = 0;
    while i < chunk.len()
        invariant
            i <= chunk.len(),
            slin@ == before + chunk@.take(i as int),
        decreases chunk.len() - i,
    {
        slin.push(chunk[i]);
        i = i + 1;
    }
    assert(chunk@.take(i as int) == chunk@);
    let ghost whole = slin@;
    assert(whole =~= before + chunk@);
    *residual = None;
    if slin.len() % 2 == 1 {
        *residual = slin.pop();
        assert(whole == slin@ + held(*residual));
    }
    slin
}

/// Converts slin to mu-law, one code for each whole sample.
pub fn encode_ulaw(slin: &[u8]) -> (ulaw: Vec<u8>)
    ensures
        ulaw@ == ulaw_of(slin@),
{
    let mut ulaw: Vec<u8> = Vec::new();
    let samples: usize = slin.len() / 2;
    let mut i: usize = 0;
    while i < samples
        invariant
            i <= samples,
            samples == slin.len() / 2,
            ulaw@ == ulaw_of(slin@).take(i as int),
        decreases samples - i,
    {
        let low: u8 = slin[2 * i];
        let high: u8 = slin[2 * i + 1];
        let bits: i32 = low as i32 + 256 * high as i32;
        let sample: i16 = if high < 128 {
            bits as i16
        } else {
            (bits - 65536) as i16
        };
        assert(sample == sample_at(slin@, i as int));
        proof {
            code_is_a_byte(sample as int);
        }
        ulaw.push(linear_to_ulaw(sample));
        i = i + 1;
    }
    assert(ulaw@ == ulaw_of(slin@));
    ulaw
}

/// Converts mu-law to slin, two bytes for each code.
pub fn decode_ulaw(ulaw: &[u8]) -> (slin: Vec<u8>)
    ensures
        slin@ == slin_of(ulaw@),
{
    let mut slin: Vec<u8> = Vec::new();
    let mut i: usize = 0;
    while i < ulaw.len()
        invariant
            i <= ulaw.len(),
            slin@ == slin_of(ulaw@).take(2 * i),
        decreases ulaw.len() - i,
    {
        let sample: i16 = ulaw_to_linear(ulaw[i]);
        let bits: i32 = if sample < 0 {
            sample as i32 + 65536
        } else {
            sample as i32
        };
        assert((2 * i) / 2 == i && (2 * i + 1) / 2 == i);
        assert(bits % 256 == slin_byte(ulaw@, 2 * i));
        assert(bits / 256 == slin_byte(ulaw@, 2 * i + 1));
        slin.push((bits % 256) as u8);
        slin.push((bits / 256) as u8);
        i = i + 1;
    }
    assert(slin@ == slin_of(ulaw@));
    slin
}

/// Within each sign the codes are in the order of the samples that they stand
/// for: of two codes for positive samples the smaller stands for the larger
/// sample, and of two codes for negative samples for the more negative one. No
/// two codes of one sign stand for the same sample.
pub proof fn decoding_is_monotone(a: u8, b: u8)
    requires
        a < b,
    ensures
        a >= 128 ==> decode_sample(a as int) > decode_sample(b as int),
        b < 128 ==> decode_sample(a as int) < decode_sample(b as int),
    decreases b - a,
{
    if a >= 128 || b < 128 {
        let bits = (255 - b as int) % 128;
        let step = bits % 16;
        let segment = bits / 16;
        let scale = segment_scale(segment);
        let next = (255 - (b - 1)) % 128;
        assert(next == bits + 1);
        assert(decoded_magnitude(b - 1) > decoded_magnitude(b as int)) by {
            if step < 15 {
                assert(next / 16 == segment && next % 16 == step + 1);
                assert((8 * (step + 1) + 132) * scale > (8 * step + 132) * scale) by (nonlinear_arith)
                    requires
                        scale > 0,
                ;
            } else {
                assert(next / 16 == segment + 1 && next % 16 == 0);
                assert(segment_scale(segment + 1) == 2 * scale);
                assert(132 * (2 * scale) > (8 * step + 132) * scale) by (nonlinear_arith)
                    requires
                        scale > 0,
                        step == 15,
                ;
            }
        }
        if a < b - 1 {
            decoding_is_monotone(a, (b - 1) as u8);
        }
    }
}

/// The sixteen codes from 255 down stand for the multiples of eight from zero
/// up. Sixteen codes further down, the sample is twice as far from -132: each
/// segment is twice as coarse as the one before it. The codes below 128 stand
/// for the same samples with the other sign.
pub proof fn segments_double(code: u8)
    requires
        code >= 128,
    ensures
        code >= 240 ==> decode_sample(code as int) == 8 * (255 - code),
        code < 240 ==> decode_sample(code as int) + 132 == 2 * (decode_sample(code + 16) + 132),
        decode_sample(code - 128) == -decode_sample(code as int),
{
    let bits = (255 - code as int) % 128;
    assert((255 - (code - 128)) % 128 == bits);
    if code < 240 {
        let closer = (255 - (code + 16)) % 128;
        assert(closer == bits - 16);
        assert(closer % 16 == bits % 16 && closer / 16 == bits / 16 - 1);
        let factor = 8 * (bits % 16) + 132;
        let scale = segment_scale(closer / 16);
        assert(segment_scale(bits / 16) == 2 * scale);
        assert(factor * (2 * scale) == 2 * (factor * scale)) by (nonlinear_arith);
    } else {
        assert(bits == 255 - code && bits % 16 == bits && bits / 16 == 0);
        assert(segment_scale(bits / 16) == 1);
        assert((8 * bits + 132) * 1 == 8 * bits + 132);
    }
}

/// A sample lies in the step around what its code stands for. The steps of a
/// segment, which the three middle bits of the code tell, are eight times a
/// power of two wide. Samples too far from zero have the code that is furthest
/// out. The sign of the sample is that of the code.
pub proof fn sample_lies_in_the_step_of_its_code(sample: int)
    requires
        -32768 <= sample <= 32767,
    ensures
        ({
            let code = encode_sample(sample);
            let half = 4 * pow2(((255 - code) % 128 / 16) as nat);
            let magnitude = if sample < 0 {
                -sample
            } else {
                sample
            };
            let decoded = if code < 128 {
                -decode_sample(code)
            } else {
                decode_sample(code)
            };
            &&& 0 <= code <= 255
            &&& sample < 0 <==> code < 128
            &&& magnitude <= 32635 ==> decoded - half <= magnitude < decoded + half
            &&& magnitude > 32635 ==> code == (if sample < 0 {
                0int
            } else {
                128
            })
        }),
{
    lemma2_to64();
    let biased = biased_magnitude(sample);
    let segment = segment_of(biased);
    let scale = segment_scale(segment);
    let step = step_of(biased);
    let code = encode_sample(sample);
    step_bounds(biased);
    code_is_a_byte(sample);
    assert((255 - code) % 128 == 16 * segment + step);
    assert((16 * segment + step) % 16 == step);
    assert((16 * segment + step) / 16 == segment);
    assert(pow2(segment as nat) == scale);
    assert(decoded_magnitude(code) + ULAW_BIAS == (8 * step + ULAW_BIAS) * scale);
    assert((8 * step + 132) * scale == 8 * scale * (16 + step) + 4 * scale) by (nonlinear_arith);
    assert(8 * scale * (17 + step) == 8 * scale * (16 + step) + 8 * scale) by (nonlinear_arith);
}

/// Encoding keeps the order of samples: within each sign, a sample further
/// from zero never has a code that is closer to zero. The code of a sample with
/// the other sign differs in the sign alone.
pub proof fn encoding_is_monotone(a: int, b: int)
    requires
        0 <= a <= b <= 32767,
    ensures
        encode_sample(a) >= encode_sample(b) >= 128,
        a > 0 ==> encode_sample(-a) == encode_sample(a) - 128,
{
    step_bounds(biased_magnitude(a));
    step_bounds(biased_magnitude(b));
}

/// Encoding gives one code for each whole sample, and decoding two bytes for
/// each code.
pub proof fn formats_differ_by_a_factor_of_two(slin: Seq<u8>, ulaw: Seq<u8>)
    ensures
        2 * ulaw_of(slin).len() == slin.len() - slin.len() % 2,
        slin_of(ulaw).len() == 2 * ulaw.len(),
{
}

/// Samples stand in slin in two's complement, low byte first, and their codes
/// follow in the same order.
pub proof fn slin_is_little_endian(slin: Seq<u8>, ulaw: Seq<u8>, i: int)
    ensures
        0 <= i < slin.len() / 2 ==> {
            let bits = slin[2 * i] + 256 * slin[2 * i + 1];
            ulaw_of(slin)[i] == encode_sample(
                if bits < 32768 {
                    bits
                } else {
                    bits - 65536
                },
            )
        },
        0 <= i < ulaw.len() ==> {
            let bits = slin_of(ulaw)[2 * i] + 256 * slin_of(ulaw)[2 * i + 1];
            decode_sample(ulaw[i] as int) == (if bits < 32768 {
                bits
            } else {
                bits - 65536
            })
        },
{
    if 0 <= i < slin.len() / 2 {
        code_is_a_byte(sample_at(slin, i));
    }
    if 0 <= i < ulaw.len() {
        decoded_is_a_sample(ulaw[i]);
        assert((2 * i) / 2 == i && (2 * i + 1) / 2 == i);
        assert((2 * i) % 2 == 0 && (2 * i + 1) % 2 == 1);
        let bits = sample_bits(decode_sample(ulaw[i] as int));
        assert(slin_of(ulaw)[2 * i] == bits % 256);
        assert(slin_of(ulaw)[2 * i + 1] == bits / 256);
    }
}

/// Encoding undoes decoding: a code that is decoded and encoded again comes
/// back. The one exception is 127, the second of the two codes for zero, which
/// comes back as the first, 255.
pub proof fn encode_undoes_decode(code: u8)
    requires
        code != 127,
    ensures
        encode_sample(decode_sample(code as int)) == code,
{
    let bits = (255 - code as int) % 128;
    let step = bits % 16;
    let scale = segment_scale(bits / 16);
    let magnitude = decoded_magnitude(code as int);
    decoded_is_a_sample(code);
    assert(biased_magnitude(decode_sample(code as int)) == magnitude + ULAW_BIAS);
    let biased = magnitude + ULAW_BIAS;
    assert(biased == (8 * step + ULAW_BIAS) * scale);
    assert(segment_of(biased) == bits / 16);
    step_bounds(biased);
    assert(step_of(biased) == step) by (nonlinear_arith)
        requires
            step_of(biased) == biased / (8 * scale) - 16,
            biased == (8 * step + 132) * scale,
            scale > 0,
    ;
}

/// Converting mu-law to slin and back changes nothing, as long as no code is
/// 127, the second of the two codes for zero.
pub proof fn ulaw_survives_the_round_trip(ulaw: Seq<u8>)
    requires
        forall|i: int| 0 <= i < ulaw.len() ==> ulaw[i] != 127,
    ensures
        ulaw_of(slin_of(ulaw)) == ulaw,
{
    let slin = slin_of(ulaw);
    assert forall|i: int| 0 <= i < ulaw.len() implies ulaw_of(slin)[i] == ulaw[i] by {
        let sample = decode_sample(ulaw[i] as int);
        decoded_is_a_sample(ulaw[i]);
        assert((2 * i) / 2 == i && (2 * i + 1) / 2 == i);
        assert(slin[2 * i] == sample_bits(sample) % 256);
        assert(slin[2 * i + 1] == sample_bits(sample) / 256);
        assert(sample_at(slin, i) == sample);
        encode_undoes_decode(ulaw[i]);
    }
    assert(ulaw_of(slin) =~= ulaw);
}

/// Decoding an encoded sample gives the sample back up to half a step of its
/// segment, with its sign, for every sample that is not clipped.
pub proof fn decode_approximates_the_sample(sample: int)
    requires
        -ULAW_CLIP <= sample <= ULAW_CLIP,
    ensures
        ({
            let scale = segment_scale(segment_of(biased_magnitude(sample)));
            let decoded = decode_sample(encode_sample(sample));
            &&& -4 * scale <= decoded - sample <= 4 * scale
            &&& sample <= 0 ==> decoded <= 0
            &&& sample >= 0 ==> decoded >= 0
        }),
{
    let biased = biased_magnitude(sample);
    let segment = segment_of(biased);
    let scale = segment_scale(segment);
    let step = step_of(biased);
    let code = encode_sample(sample);
    step_bounds(biased);
    code_is_a_byte(sample);
    assert((255 - code) % 128 == 16 * segment + step);
    assert((16 * segment + step) % 16 == step);
    assert((16 * segment + step) / 16 == segment);
    decoded_is_a_sample(code as u8);
    assert(decoded_magnitude(code) + ULAW_BIAS == (8 * step + ULAW_BIAS) * scale);
    assert((8 * step + 132) * scale == 8 * scale * (16 + step) + 4 * scale) by (nonlinear_arith);
    assert(8 * scale * (17 + step) == 8 * scale * (16 + step) + 8 * scale) by (nonlinear_arith);
}

/// Silence stays silence, however long: zero bytes become the code 255
/// throughout, and codes of 255 become zero bytes.
pub proof fn silence_is_kept(bytes: Seq<u8>)
    ensures
        (forall|i: int| 0 <= i < bytes.len() ==> bytes[i] == 0) ==> (forall|i: int|
            0 <= i < ulaw_of(bytes).len() ==> ulaw_of(bytes)[i] == 255),
        (forall|i: int| 0 <= i < bytes.len() ==> bytes[i] == 255) ==> (forall|i: int|
            0 <= i < slin_of(bytes).len() ==> slin_of(bytes)[i] == 0),
{
    assert(decode_sample(255) == 0);
    encode_undoes_decode(255);
    if forall|i: int| 0 <= i < bytes.len() ==> bytes[i] == 0 {
        assert forall|i: int| 0 <= i < ulaw_of(bytes).len() implies ulaw_of(bytes)[i] == 255 by {
            assert(sample_at(bytes, i) == 0);
        }
    }
    if forall|i: int| 0 <= i < bytes.len() ==> bytes[i] == 255 {
        assert forall|i: int| 0 <= i < slin_of(bytes).len() implies slin_of(bytes)[i] == 0 by {
            assert(bytes[i / 2] == 255);
            assert(slin_byte(bytes, i) == 0);
        }
    }
}

/// A stream may be encoded piece by piece: cutting it between two samples does
/// not change the codes.
pub proof fn encoding_is_piecewise(first: Seq<u8>, second: Seq<u8>)
    requires
        first.len() % 2 == 0,
    ensures
        ulaw_of(first + second) == ulaw_of(first) + ulaw_of(second),
{
    let whole = first + second;
    let half = first.len() / 2;
    assert forall|i: int| 0 <= i < whole.len() / 2 implies ulaw_of(whole)[i] == (ulaw_of(first)
        + ulaw_of(second))[i] by {
        if i < half {
            assert(sample_at(whole, i) == sample_at(first, i));
        } else {
            assert(sample_at(whole, i) == sample_at(second, i - half));
        }
    }
    assert(ulaw_of(whole) =~= ulaw_of(first) + ulaw_of(second));
}

/// A stream may be decoded piece by piece, cut anywhere.
pub proof fn decoding_is_piecewise(first: Seq<u8>, second: Seq<u8>)
    ensures
        slin_of(first + second) == slin_of(first) + slin_of(second),
{
    let whole = first + second;
    assert forall|i: int| 0 <= i < 2 * whole.len() implies slin_of(whole)[i] == (slin_of(first)
        + slin_of(second))[i] by {
        if i < 2 * first.len() {
            assert(slin_byte(whole, i) == slin_byte(first, i));
        } else {
            let j = i - 2 * first.len();
            assert(j / 2 == i / 2 - first.len());
            assert(slin_byte(whole, i) == slin_byte(second, j));
        }
    }
    assert(slin_of(whole) =~= slin_of(first) + slin_of(second));
}

} // verus!
