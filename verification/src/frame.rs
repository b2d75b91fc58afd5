//! The wire framing of the presence protocol: a frame is a 4-byte
//! little-endian opcode, a 4-byte little-endian payload length, and that many
//! bytes of UTF-8 payload text.
use vstd::prelude::*;
use vstd::arithmetic::div_mod::{lemma_fundamental_div_mod, lemma_div_nonincreasing};
use crate::errors::ClientError;

verus! {

/// Little-endian value of a four-byte sequence.
pub open spec fn le32_val(b: Seq<u8>) -> int
    recommends
        b.len() == 4,
{
    b[0] + 0x100 * b[1] + 0x1_0000 * b[2] + 0x100_0000 * b[3]
}

/// The four little-endian bytes of a 32-bit value.
pub open spec fn u32_le(n: u32) -> Seq<u8> {
    seq![
        (n % 0x100) as u8,
        ((n / 0x100) % 0x100) as u8,
        ((n / 0x1_0000) % 0x100) as u8,
        ((n / 0x100_0000) % 0x100) as u8,
    ]
}

/// Reading the four little-endian bytes of a value back gives the value.
pub proof fn lemma_le32_inverse(n: u32)
    ensures
        le32_val(u32_le(n)) == n,
{
    lemma_fundamental_div_mod(n as int, 0x100);
    lemma_fundamental_div_mod(n as int / 0x100, 0x100);
    lemma_fundamental_div_mod(n as int / 0x1_0000, 0x100);
    assert(n as int / 0x100 / 0x100 == n as int / 0x1_0000) by (nonlinear_arith);
    assert(n as int / 0x1_0000 / 0x100 == n as int / 0x100_0000) by (nonlinear_arith);
    assert(n as int / 0x100_0000 < 0x100) by (nonlinear_arith)
        requires n <= u32::MAX;
    lemma_div_nonincreasing(n as int, 0x100_0000);
}

/// The bytes of one frame: opcode, payload length, payload.
pub open spec fn frame_bytes(opcode: u32, payload: Seq<u8>) -> Seq<u8>
    recommends
        payload.len() <= u32::MAX,
{
    u32_le(opcode) + u32_le(payload.len() as u32) + payload
}

/// Whether a byte sequence is valid UTF-8. Only `is_utf8` gives this name a
/// value, via `core::str::from_utf8`.
pub uninterp spec fn utf8_valid(s: Seq<u8>) -> bool;

/// Relies on `core::str::from_utf8`, which succeeds exactly on valid UTF-8.
#[verifier::external_body]
pub fn is_utf8(v: &Vec<u8>) -> (r: bool)
    ensures
        r == utf8_valid(v@),
{
    core::str::from_utf8(v.as_slice()).is_ok()
}

/// What `recv` returns when the readable bytes of the connection are `b`:
/// a short header is a protocol error, a payload cut short is an I/O error,
/// a payload that is not UTF-8 is a protocol error.
pub open spec fn decoded_frame(b: Seq<u8>) -> Result<(u32, Seq<u8>), ClientError> {
    if b.len() < 8 {
        Err(ClientError::ProtocolError)
    } else {
        let plen = le32_val(b.subrange(4, 8));
        if b.len() < 8 + plen {
            Err(ClientError::IOError)
        } else if !utf8_valid(b.subrange(8, 8 + plen)) {
            Err(ClientError::ProtocolError)
        } else {
            Ok((le32_val(b.subrange(0, 4)) as u32, b.subrange(8, 8 + plen)))
        }
    }
}

fn encode_u32_le(n: u32) -> (r: Vec<u8>)
    ensures
        r@ == u32_le(n),
{
    let mut v: Vec<u8> = Vec::new();
    v.push((n % 0x100) as u8);
    v.push(((n / 0x100) % 0x100) as u8);
    v.push(((n / 0x1_0000) % 0x100) as u8);
    v.push(((n / 0x100_0000) % 0x100) as u8);
    assert(v@ =~= u32_le(n));
    v
}

/// Builds the frame for one opcode and payload.
pub fn encode_frame(opcode: u32, payload: &Vec<u8>) -> (r: Vec<u8>)
    requires
        payload@.len() <= u32::MAX,
    ensures
        r@ == frame_bytes(opcode, payload@),
{
    let mut out = encode_u32_le(opcode);
    let mut len_bytes = encode_u32_le(payload.len() as u32);
    out.append(&mut len_bytes);
    let mut i: usize = 0;
    while i < payload.len()
        invariant
            i <= payload@.len(),
            payload@.len() <= u32::MAX,
            out@ == u32_le(opcode) + u32_le(payload@.len() as u32) + payload@.subrange(0, i as int),
        decreases payload@.len() - i,
    {
        out.push(payload[i]);
        assert(out@ =~= u32_le(opcode) + u32_le(payload@.len() as u32) + payload@.subrange(
            0,
            i as int + 1,
        ));
        i = i + 1;
    }
    assert(payload@.subrange(0, payload@.len() as int) =~= payload@);
    out
}

/// Reads one 4-byte little-endian field from the bytes a single read yielded;
/// fewer than four bytes is a protocol error.
pub fn get_number(bytes: &Vec<u8>) -> (r: Result<u32, ClientError>)
    ensures
        bytes@.len() < 4 ==> r == Err::<u32, ClientError>(ClientError::ProtocolError),
        bytes@.len() >= 4 ==> (r matches Ok(n) && n == le32_val(bytes@.subrange(0, 4))),
{
    if bytes.len() < 4 {
        Err(ClientError::ProtocolError)
    } else {
        let n: u32 = bytes[0] as u32 + 0x100 * (bytes[1] as u32) + 0x1_0000 * (bytes[2] as u32)
            + 0x100_0000 * (bytes[3] as u32);
        Ok(n)
    }
}

/// A frame assembled by `encode_frame` decodes back to the same opcode and
/// payload, for any UTF-8 payload the length field can carry.
pub proof fn lemma_frame_round_trip(opcode: u32, payload: Seq<u8>)
    requires
        payload.len() <= u32::MAX,
        utf8_valid(payload),
    ensures
        decoded_frame(frame_bytes(opcode, payload)) == Ok::<(u32, Seq<u8>), ClientError>(
            (opcode, payload),
        ),
{
    let f = frame_bytes(opcode, payload);
    assert(f.subrange(0, 4) =~= u32_le(opcode));
    assert(f.subrange(4, 8) =~= u32_le(payload.len() as u32));
    lemma_le32_inverse(opcode);
    lemma_le32_inverse(payload.len() as u32);
    assert(f.subrange(8, 8 + payload.len() as int) =~= payload);
}

} // verus!
