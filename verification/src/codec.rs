//! The wire framing codec.
//!
//! One frame carries one encrypted serialized message: an 8-byte big-endian
//! length of the encrypted payload, written in the clear, followed by the
//! payload cut into 1024-byte chunks. Every full chunk is sent verbatim;
//! when the payload length is not an exact multiple of 1024, a final chunk
//! is sent with the remaining bytes at its start and zero padding behind
//! them. The receiver reads the length, reads the chunks, keeps only the
//! first `length` payload bytes, applies the session keystream and splits
//! the result into code and content.

use vstd::prelude::*;
use crate::cipher::KEYSTREAM_LIMIT;
use crate::cipher::SessionCipher;
use crate::cipher::lemma_xor_keystream_involutive;
use crate::cipher::xor_keystream;
use crate::message::Message;
use crate::message::code_of;
use crate::message::content_of;
use crate::message::lemma_serialize_round_trip;
use crate::message::serialize_spec;

verus! {

/// The fixed transmission unit: payloads travel in 1024-byte chunks.
pub const CHUNK_SIZE: u64 = 1024;

/// The 8-byte big-endian encoding of a frame length.
pub open spec fn be64_bytes(n: u64) -> Seq<u8> {
    seq![
        (n >> 56) as u8,
        (n >> 48) as u8,
        (n >> 40) as u8,
        (n >> 32) as u8,
        (n >> 24) as u8,
        (n >> 16) as u8,
        (n >> 8) as u8,
        n as u8,
    ]
}

/// The value encoded by 8 big-endian bytes.
pub open spec fn be64_value(b: Seq<u8>) -> u64 {
    (((b[0] as u64) << 56) | ((b[1] as u64) << 48) | ((b[2] as u64) << 40) | ((b[3] as u64) << 32)
        | ((b[4] as u64) << 24) | ((b[5] as u64) << 16) | ((b[6] as u64) << 8) | (b[7] as u64))
}

/// Reading back an 8-byte big-endian length gives the value written.
pub proof fn lemma_be64_round_trip(n: u64)
    ensures
        be64_value(be64_bytes(n)) == n,
{
    let b0 = (n >> 56) as u8;
    let b1 = (n >> 48) as u8;
    let b2 = (n >> 40) as u8;
    let b3 = (n >> 32) as u8;
    let b4 = (n >> 24) as u8;
    let b5 = (n >> 16) as u8;
    let b6 = (n >> 8) as u8;
    let b7 = n as u8;
    assert((((b0 as u64) << 56) | ((b1 as u64) << 48) | ((b2 as u64) << 40) | ((b3 as u64) << 32)
        | ((b4 as u64) << 24) | ((b5 as u64) << 16) | ((b6 as u64) << 8) | (b7 as u64)) == n)
        by (bit_vector)
        requires
            b0 == (n >> 56) as u8,
            b1 == (n >> 48) as u8,
            b2 == (n >> 40) as u8,
            b3 == (n >> 32) as u8,
            b4 == (n >> 24) as u8,
            b5 == (n >> 16) as u8,
            b6 == (n >> 8) as u8,
            b7 == n as u8,
    ;
}

/// How many padding zeros the final chunk carries for a payload of `n`
/// bytes: none when `n` is an exact multiple of the chunk size, otherwise
/// enough to complete the last chunk.
pub open spec fn pad_len(n: int) -> int {
    if n % 1024 == 0 {
        0
    } else {
        1024 - n % 1024
    }
}

/// `n` zero bytes.
pub open spec fn zeros(n: int) -> Seq<u8> {
    Seq::new(n as nat, |i: int| 0u8)
}

/// The complete wire form of a frame around an (already encrypted) payload:
/// big-endian length, payload, padding to a whole number of chunks.
pub open spec fn frame_spec(payload: Seq<u8>) -> Seq<u8> {
    be64_bytes(payload.len() as u64) + payload + zeros(pad_len(payload.len() as int))
}

/// Frames a payload: length prefix, payload bytes, zero padding up to a
/// whole number of chunks.
pub fn encode_frame(payload: Vec<u8>) -> (r: Vec<u8>)
    ensures
        r@ == frame_spec(payload@),
{
    let len64: u64 = payload.len() as u64;
    let mut r: Vec<u8> = Vec::new();
    r.push((len64 >> 56) as u8);
    r.push((len64 >> 48) as u8);
    r.push((len64 >> 40) as u8);
    r.push((len64 >> 32) as u8);
    r.push((len64 >> 24) as u8);
    r.push((len64 >> 16) as u8);
    r.push((len64 >> 8) as u8);
    r.push(len64 as u8);
    proof {
        assert(r@ =~= be64_bytes(len64));
    }
    let mut i: usize = 0;
    while i < payload.len()
        invariant
            i <= payload@.len(),
            len64 == payload@.len() as u64,
            r@ == be64_bytes(len64) + payload@.take(i as int),
        decreases payload@.len() - i,
    {
        r.push(payload[i]);
        proof {
            assert(r@ =~= be64_bytes(len64) + payload@.take(i as int + 1));
        }
        i = i + 1;
    }
    proof {
        assert(payload@.take(payload@.len() as int) =~= payload@);
    }
    let rem: usize = payload.len() % 1024;
    if rem != 0 {
        let pad: usize = 1024 - rem;
        let mut j: usize = 0;
        while j < pad
            invariant
                j <= pad,
                len64 == payload@.len() as u64,
                pad as int == pad_len(payload@.len() as int),
                r@ == be64_bytes(len64) + payload@ + zeros(j as int),
            decreases pad - j,
        {
            r.push(0u8);
            proof {
                assert(r@ =~= be64_bytes(len64) + payload@ + zeros(j as int + 1));
            }
            j = j + 1;
        }
    }
    proof {
        assert(r@ =~= frame_spec(payload@));
    }
    r
}

/// Decodes an 8-byte big-endian length prefix.
pub fn read_be64(b: &[u8; 8]) -> (r: u64)
    ensures
        r == be64_value(b@),
{
    ((b[0] as u64) << 56) | ((b[1] as u64) << 48) | ((b[2] as u64) << 40) | ((b[3] as u64) << 32)
        | ((b[4] as u64) << 24) | ((b[5] as u64) << 16) | ((b[6] as u64) << 8) | (b[7] as u64)
}

/// How many payload-plus-padding bytes follow the length prefix of a frame
/// whose declared payload length is `len`; `None` when that total cannot be
/// represented.
pub fn body_len(len: u64) -> (r: Option<u64>)
    ensures
        (r matches Some(v) ==> v == len + pad_len(len as int)),
        (r is None) <==> len + pad_len(len as int) > u64::MAX,
{
    let rem: u64 = len % 1024;
    if rem == 0 {
        Some(len)
    } else {
        let pad: u64 = 1024 - rem;
        if len <= u64::MAX - pad {
            Some(len + pad)
        } else {
            None
        }
    }
}

/// Serializes a message, encrypts the whole serialized payload with the
/// session keystream (never the length prefix), and frames it. The cipher
/// advances over the payload but the checkpoint stays put: the caller
/// commits after the frame is fully written, or rolls back on a write
/// failure.
pub fn encode_message(cipher: &mut SessionCipher, m: &Message) -> (r: Vec<u8>)
    requires
        old(cipher).wf(),
        old(cipher).pos + m.wire().len() <= KEYSTREAM_LIMIT,
    ensures
        r@ == frame_spec(
            xor_keystream(m.wire(), old(cipher).key@, old(cipher).nonce@, old(cipher).pos as int),
        ),
        final(cipher).key == old(cipher).key,
        final(cipher).nonce == old(cipher).nonce,
        final(cipher).committed == old(cipher).committed,
        final(cipher).pos == old(cipher).pos + m.wire().len(),
        final(cipher).wf(),
{
    let mut payload = m.as_bytes();
    cipher.apply(&mut payload);
    encode_frame(payload)
}

/// Recovers a message from the body of a frame: keeps the first `len` bytes
/// (drops the padding), applies the session keystream to them, and splits
/// the plaintext into code and content. Completing a receive confirms the
/// keystream advance, so the cipher is committed at its new position.
pub fn decode_message(cipher: &mut SessionCipher, len: u64, body: &[u8]) -> (m: Message)
    requires
        old(cipher).wf(),
        1 <= len,
        len as int <= usize::MAX as int,
        body@.len() == len + pad_len(len as int),
        old(cipher).pos + len <= KEYSTREAM_LIMIT,
    ensures
        ({
            let plain = xor_keystream(
                body@.take(len as int),
                old(cipher).key@,
                old(cipher).nonce@,
                old(cipher).pos as int,
            );
            m.code == code_of(plain) && m.content@ == content_of(plain)
        }),
        final(cipher).key == old(cipher).key,
        final(cipher).nonce == old(cipher).nonce,
        final(cipher).pos == old(cipher).pos + len,
        final(cipher).committed == final(cipher).pos,
        final(cipher).wf(),
{
    let take: usize = len as usize;
    let mut payload: Vec<u8> = Vec::new();
    let mut i: usize = 0;
    while i < take
        invariant
            i <= take,
            take <= body@.len(),
            payload@ == body@.take(i as int),
        decreases take - i,
    {
        payload.push(body[i]);
        proof {
            assert(payload@ =~= body@.take(i as int + 1));
        }
        i = i + 1;
    }
    cipher.apply(&mut payload);
    cipher.commit();
    Message::from_bytes(payload.as_slice())
}

/// One side frames, the other side unframes: for any message, any session
/// key and nonce, and any matching keystream position, the length read back
/// from the frame is the payload length, and stripping the prefix and the
/// padding and applying the same keystream recovers the code and the
/// content exactly.
pub proof fn lemma_transport_round_trip(
    code: u8,
    content: Seq<u8>,
    key: Seq<u8>,
    nonce: Seq<u8>,
    pos: u64,
)
    requires
        pos + 1 + content.len() <= KEYSTREAM_LIMIT,
    ensures
        ({
            let plain = serialize_spec(code, content);
            let sent = frame_spec(xor_keystream(plain, key, nonce, pos as int));
            let len = plain.len() as u64;
            &&& be64_value(sent.take(8)) == len
            &&& sent.len() == 8 + len + pad_len(len as int)
            &&& code_of(
                xor_keystream(sent.skip(8).take(len as int), key, nonce, pos as int),
            ) == code
            &&& content_of(
                xor_keystream(sent.skip(8).take(len as int), key, nonce, pos as int),
            ) == content
        }),
{
    let plain = serialize_spec(code, content);
    let enc = xor_keystream(plain, key, nonce, pos as int);
    let sent = frame_spec(enc);
    let len = plain.len() as u64;
    assert(plain.len() == 1 + content.len());
    assert(sent.take(8) =~= be64_bytes(len));
    lemma_be64_round_trip(len);
    assert(sent.skip(8).take(len as int) =~= enc);
    lemma_xor_keystream_involutive(plain, key, nonce, pos as int);
    lemma_serialize_round_trip(code, content);
}

/// A send that failed mid-write and was rolled back leaves the cipher
/// exactly where it stood before the attempt, so replaying the same message
/// produces byte-for-byte the same frame, and a peer that never saw the
/// failed bytes recovers the message from the replay.
pub proof fn lemma_rollback_replay(
    code: u8,
    content: Seq<u8>,
    before: SessionCipher,
    failed: SessionCipher,
    replayed: SessionCipher,
)
    requires
        before.wf(),
        before.pos == before.committed,
        before.pos + 1 + content.len() <= KEYSTREAM_LIMIT,
        failed.key == before.key,
        failed.nonce == before.nonce,
        failed.committed == before.committed,
        failed.pos == before.pos + 1 + content.len(),
        replayed.key == failed.key,
        replayed.nonce == failed.nonce,
        replayed.pos == failed.committed,
        replayed.committed == failed.committed,
    ensures
        replayed == before,
        ({
            let plain = serialize_spec(code, content);
            let resent = frame_spec(
                xor_keystream(plain, replayed.key@, replayed.nonce@, replayed.pos as int),
            );
            let len = plain.len() as u64;
            &&& code_of(
                xor_keystream(
                    resent.skip(8).take(len as int),
                    before.key@,
                    before.nonce@,
                    before.pos as int,
                ),
            ) == code
            &&& content_of(
                xor_keystream(
                    resent.skip(8).take(len as int),
                    before.key@,
                    before.nonce@,
                    before.pos as int,
                ),
            ) == content
        }),
{
    lemma_transport_round_trip(code, content, before.key@, before.nonce@, before.pos);
}

} // verus!
