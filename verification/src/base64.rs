//! Base64 (standard alphabet) decoding, as the HTTP CONNECT listener
//! needs it for Basic proxy credentials: `=` ends the input, and any
//! byte outside the alphabet rejects it.

use vstd::prelude::*;

verus! {

/// Two to the power `n`.
pub open spec fn two_pow(n: nat) -> int
    decreases n,
{
    if n == 0 {
        1
    } else {
        2 * two_pow((n - 1) as nat)
    }
}

/// Position of a byte in the standard base64 alphabet
/// (`A-Z a-z 0-9 + /`), or -1 when it is not in it.
pub open spec fn b64_val(b: u8) -> int {
    if 65 <= b <= 90 {
        b - 65
    } else if 97 <= b <= 122 {
        b - 97 + 26
    } else if 48 <= b <= 57 {
        b - 48 + 52
    } else if b == 43 {
        62
    } else if b == 47 {
        63
    } else {
        -1
    }
}

/// The alphabet byte for a 6-bit value.
pub open spec fn b64_digit(v: int) -> u8 {
    if 0 <= v < 26 {
        (65 + v) as u8
    } else if 26 <= v < 52 {
        (97 + v - 26) as u8
    } else if 52 <= v < 62 {
        (48 + v - 52) as u8
    } else if v == 62 {
        43
    } else {
        47
    }
}

pub proof fn lemma_b64_digit_val(v: int)
    requires
        0 <= v < 64,
    ensures
        b64_val(b64_digit(v)) == v,
        b64_digit(v) != 61,
{
}

/// One pass of the 6-bit accumulator decoder, from position `i` with
/// `bits` bits of carry in `buffer` and `out` already produced:
/// the end of the input or a `=` yields what was produced; a byte
/// outside the alphabet rejects; otherwise its 6 bits enter the
/// accumulator and a full byte is emitted as soon as one is complete.
pub open spec fn spec_b64_step(
    input: Seq<u8>,
    i: int,
    buffer: int,
    bits: nat,
    out: Seq<u8>,
) -> Option<Seq<u8>>
    decreases input.len() - i,
{
    if i < 0 || i >= input.len() {
        Some(out)
    } else if input[i] == 61 {
        Some(out)
    } else if b64_val(input[i]) < 0 {
        None
    } else {
        let buffer2 = buffer * 64 + b64_val(input[i]);
        let bits2 = bits + 6;
        if bits2 >= 8 {
            let bits3 = (bits2 - 8) as nat;
            spec_b64_step(
                input,
                i + 1,
                buffer2 % two_pow(bits3),
                bits3,
                out.push((buffer2 / two_pow(bits3)) as u8),
            )
        } else {
            spec_b64_step(input, i + 1, buffer2, bits2, out)
        }
    }
}

/// The bytes decoded from a base64 input, when it is well-formed.
pub open spec fn spec_b64_decode(input: Seq<u8>) -> Option<Seq<u8>> {
    spec_b64_step(input, 0, 0, 0, Seq::empty())
}

fn b64_value(b: u8) -> (r: i8)
    ensures
        r == b64_val(b),
{
    if 65 <= b && b <= 90 {
        (b - 65) as i8
    } else if 97 <= b && b <= 122 {
        (b - 97 + 26) as i8
    } else if 48 <= b && b <= 57 {
        (b - 48 + 52) as i8
    } else if b == 43 {
        62
    } else if b == 47 {
        63
    } else {
        -1
    }
}

/// Decodes standard base64: `=` terminates, whitespace and any other
/// byte outside the alphabet reject the input.
pub fn base64_decode(input: &[u8]) -> (r: Option<Vec<u8>>)
    ensures
        spec_b64_decode(input@) == (match r {
            Some(v) => Some(v@),
            None => None::<Seq<u8>>,
        }),
{
    let mut out: Vec<u8> = Vec::new();
    let mut buffer: u32 = 0;
    let mut bits: u32 = 0;
    let mut i: usize = 0;
    proof {
        reveal_with_fuel(two_pow, 14);
    }
    while i < input.len()
        invariant
            i <= input@.len(),
            bits == 0 || bits == 2 || bits == 4 || bits == 6,
            buffer < two_pow(bits as nat),
            spec_b64_decode(input@) == spec_b64_step(
                input@,
                i as int,
                buffer as int,
                bits as nat,
                out@,
            ),
        decreases input@.len() - i,
    {
        proof {
            reveal_with_fuel(two_pow, 14);
        }
        let b = input[i];
        if b == 61 {
            return Some(out);
        }
        let v = b64_value(b);
        if v < 0 {
            return None;
        }
        proof {
            assert(buffer * 64 + 63 < two_pow(bits as nat) * 64);
            assert(two_pow(bits as nat) * 64 <= 4096);
        }
        buffer = buffer * 64 + (v as u32);
        bits = bits + 6;
        if bits >= 8 {
            bits = bits - 8;
            let divisor: u32 = if bits == 0 {
                1
            } else if bits == 2 {
                4
            } else {
                16
            };
            proof {
                assert(divisor == two_pow(bits as nat));
                assert(buffer < 256 * divisor);
                assert(buffer / divisor < 256) by (nonlinear_arith)
                    requires
                        buffer < 256 * divisor,
                        divisor >= 1,
                ;
            }
            out.push((buffer / divisor) as u8);
            buffer = buffer % divisor;
        }
        i += 1;
    }
    Some(out)
}

/// Standard base64 encoding with `=` padding, three input bytes to
/// four alphabet bytes.
pub open spec fn spec_b64_encode(bytes: Seq<u8>) -> Seq<u8>
    decreases bytes.len(),
{
    if bytes.len() == 0 {
        Seq::empty()
    } else if bytes.len() == 1 {
        let b0 = bytes[0] as int;
        seq![b64_digit(b0 / 4), b64_digit((b0 % 4) * 16), 61u8, 61u8]
    } else if bytes.len() == 2 {
        let b0 = bytes[0] as int;
        let b1 = bytes[1] as int;
        seq![
            b64_digit(b0 / 4),
            b64_digit((b0 % 4) * 16 + b1 / 16),
            b64_digit((b1 % 16) * 4),
            61u8,
        ]
    } else {
        let b0 = bytes[0] as int;
        let b1 = bytes[1] as int;
        let b2 = bytes[2] as int;
        seq![
            b64_digit(b0 / 4),
            b64_digit((b0 % 4) * 16 + b1 / 16),
            b64_digit((b1 % 16) * 4 + b2 / 64),
            b64_digit(b2 % 64),
        ] + spec_b64_encode(bytes.skip(3))
    }
}

proof fn lemma_b64_chunk(input: Seq<u8>, i: int, out: Seq<u8>, bytes: Seq<u8>)
    requires
        0 <= i <= input.len(),
        input.subrange(i, input.len() as int) == spec_b64_encode(bytes),
    ensures
        spec_b64_step(input, i, 0, 0, out) == Some(out + bytes),
    decreases bytes.len(),
{
    reveal_with_fuel(two_pow, 14);
    let n = input.len() as int;
    let enc = spec_b64_encode(bytes);
    assert(n - i == enc.len());
    assert forall|k: int| 0 <= k < enc.len() implies input[i + k] == enc[k] by {
        assert(input.subrange(i, n)[k] == input[i + k]);
    }
    if bytes.len() == 0 {
        assert(i == n);
        assert(out + bytes =~= out);
    } else {
        let b0 = bytes[0] as int;
        lemma_b64_digit_val(b0 / 4);
        assert(input[i + 0] == enc[0]);
        if bytes.len() >= 3 {
            let tail = spec_b64_encode(bytes.skip(3));
            assert(enc[0] == b64_digit(b0 / 4));
            assert(enc[1] == b64_digit((b0 % 4) * 16 + (bytes[1] as int) / 16));
            assert(enc[2] == b64_digit(((bytes[1] as int) % 16) * 4 + (bytes[2] as int) / 64));
            assert(enc[3] == b64_digit((bytes[2] as int) % 64));
        }
        assert(b64_val(input[i]) == b0 / 4);
        // The first alphabet byte enters the accumulator whole.
        assert(spec_b64_step(input, i, 0, 0, out) == spec_b64_step(input, i + 1, b0 / 4, 6, out));
        if bytes.len() == 1 {
            lemma_b64_digit_val((b0 % 4) * 16);
            assert(b64_val(input[i + 1]) == (b0 % 4) * 16);
            let buf2 = (b0 / 4) * 64 + (b0 % 4) * 16;
            assert(buf2 == 16 * b0);
            assert(buf2 / 16 == b0 && buf2 % 16 == 0) by (nonlinear_arith)
                requires
                    buf2 == 16 * b0,
                    0 <= b0,
            ;
            assert(spec_b64_step(input, i + 1, b0 / 4, 6, out) == spec_b64_step(
                input,
                i + 2,
                0,
                4,
                out.push(bytes[0]),
            ));
            // The padding byte ends the input with one byte produced.
            assert(input[i + 2] == 61);
            assert(spec_b64_step(input, i + 2, 0, 4, out.push(bytes[0])) == Some(
                out.push(bytes[0]),
            ));
            assert(out.push(bytes[0]) =~= out + bytes);
        } else {
            let b1 = bytes[1] as int;
            lemma_b64_digit_val((b0 % 4) * 16 + b1 / 16);
            assert(b64_val(input[i + 1]) == (b0 % 4) * 16 + b1 / 16);
            let buf2 = (b0 / 4) * 64 + ((b0 % 4) * 16 + b1 / 16);
            assert(buf2 == 16 * b0 + b1 / 16);
            assert(0 <= b1 / 16 < 16);
            assert(buf2 / 16 == b0 && buf2 % 16 == b1 / 16) by (nonlinear_arith)
                requires
                    buf2 == 16 * b0 + b1 / 16,
                    0 <= b0,
                    0 <= b1 / 16 < 16,
            ;
            // The second alphabet byte completes the first input byte;
            // the accumulator keeps the second one's top four bits.
            assert(spec_b64_step(input, i + 1, b0 / 4, 6, out) == spec_b64_step(
                input,
                i + 2,
                b1 / 16,
                4,
                out.push(bytes[0]),
            ));
            if bytes.len() == 2 {
                lemma_b64_digit_val((b1 % 16) * 4);
                assert(b64_val(input[i + 2]) == (b1 % 16) * 4);
                let buf3 = (b1 / 16) * 64 + (b1 % 16) * 4;
                assert(buf3 == 4 * b1);
                assert(buf3 / 4 == b1 && buf3 % 4 == 0) by (nonlinear_arith)
                    requires
                        buf3 == 4 * b1,
                        0 <= b1,
                ;
                assert(spec_b64_step(input, i + 2, b1 / 16, 4, out.push(bytes[0]))
                    == spec_b64_step(input, i + 3, 0, 2, out.push(bytes[0]).push(bytes[1])));
                assert(input[i + 3] == 61);
                assert(spec_b64_step(input, i + 3, 0, 2, out.push(bytes[0]).push(bytes[1]))
                    == Some(out.push(bytes[0]).push(bytes[1])));
                assert(out.push(bytes[0]).push(bytes[1]) =~= out + bytes);
            } else {
                let b2 = bytes[2] as int;
                lemma_b64_digit_val((b1 % 16) * 4 + b2 / 64);
                assert(b64_val(input[i + 2]) == (b1 % 16) * 4 + b2 / 64);
                let buf3 = (b1 / 16) * 64 + ((b1 % 16) * 4 + b2 / 64);
                assert(buf3 == 4 * b1 + b2 / 64);
                assert(0 <= b2 / 64 < 4);
                assert(buf3 / 4 == b1 && buf3 % 4 == b2 / 64) by (nonlinear_arith)
                    requires
                        buf3 == 4 * b1 + b2 / 64,
                        0 <= b1,
                        0 <= b2 / 64 < 4,
                ;
                assert(spec_b64_step(input, i + 2, b1 / 16, 4, out.push(bytes[0]))
                    == spec_b64_step(
                    input,
                    i + 3,
                    b2 / 64,
                    2,
                    out.push(bytes[0]).push(bytes[1]),
                ));
                lemma_b64_digit_val(b2 % 64);
                assert(b64_val(input[i + 3]) == b2 % 64);
                let buf4 = (b2 / 64) * 64 + b2 % 64;
                assert(buf4 == b2);
                // The fourth alphabet byte completes the three-byte
                // group and empties the accumulator.
                let out3 = out.push(bytes[0]).push(bytes[1]).push(bytes[2]);
                assert(spec_b64_step(input, i + 3, b2 / 64, 2, out.push(bytes[0]).push(bytes[1]))
                    == spec_b64_step(input, i + 4, 0, 0, out3));
                let tail = spec_b64_encode(bytes.skip(3));
                assert(enc.len() == 4 + tail.len());
                assert forall|k: int|
                    0 <= k < tail.len() implies input.subrange(i + 4, n)[k] == tail[k] by {
                    assert(input.subrange(i + 4, n)[k] == input[i + 4 + k]);
                    assert(enc[4 + k] == tail[k]);
                }
                assert(input.subrange(i + 4, n) =~= tail);
                lemma_b64_chunk(input, i + 4, out3, bytes.skip(3));
                assert(out3 + bytes.skip(3) =~= out + bytes);
            }
        }
    }
}

/// Round trip: decoding a standard base64 encoding yields exactly the
/// bytes that were encoded.
pub proof fn lemma_b64_decode_encode(bytes: Seq<u8>)
    ensures
        spec_b64_decode(spec_b64_encode(bytes)) == Some(bytes),
{
    let enc = spec_b64_encode(bytes);
    assert(enc.subrange(0, enc.len() as int) =~= enc);
    lemma_b64_chunk(enc, 0, Seq::empty(), bytes);
    assert(Seq::<u8>::empty() + bytes =~= bytes);
}

} // verus!
