//! The session cipher and its commit/rollback discipline.
//!
//! A session cipher is a ChaCha20 keystream position over a fixed key and
//! nonce, together with a checkpoint: the position as of the last confirmed
//! successful framed operation. A failed send reverts to the checkpoint, so
//! the same message can be replayed without permanent keystream drift; a
//! successful send or receive moves the checkpoint forward.
//!
//! The keystream itself is named, not restated: `keystream_byte` stands for
//! the byte the ChaCha20 cipher produces at a given absolute position, which
//! is a function of the key, the nonce and the position alone.

use vstd::prelude::*;
use chacha20::cipher::KeyIvInit;
use chacha20::cipher::StreamCipher;
use chacha20::cipher::StreamCipherSeek;

verus! {

/// How many keystream bytes one key/nonce pair offers. The cipher's 32-bit
/// block counter covers 2^32 - 1 whole 64-byte blocks before it would
/// overflow, and past that the cipher refuses to run.
pub const KEYSTREAM_LIMIT: u64 = 0x3F_FFFF_FFC0;

/// The byte at absolute position `i` of the ChaCha20 keystream for `key` and
/// `nonce`. Named, not defined: the stream is a function of the key, the
/// nonce and the position alone, and nothing here depends on its value.
pub uninterp spec fn keystream_byte(key: Seq<u8>, nonce: Seq<u8>, i: int) -> u8;

/// `data` XORed with the keystream starting at absolute position `pos`.
/// One application encrypts; a second application at the same position
/// decrypts.
pub open spec fn xor_keystream(data: Seq<u8>, key: Seq<u8>, nonce: Seq<u8>, pos: int) -> Seq<u8> {
    Seq::new(data.len(), |i: int| data[i] ^ keystream_byte(key, nonce, pos + i))
}

/// Applying the keystream twice at the same position gives the data back:
/// the cipher carries no directionality, and a receiver whose position
/// matches the sender's recovers the plaintext exactly.
pub proof fn lemma_xor_keystream_involutive(data: Seq<u8>, key: Seq<u8>, nonce: Seq<u8>, pos: int)
    ensures
        xor_keystream(xor_keystream(data, key, nonce, pos), key, nonce, pos) == data,
{
    let twice = xor_keystream(xor_keystream(data, key, nonce, pos), key, nonce, pos);
    assert forall|i: int| 0 <= i < data.len() implies twice[i] == data[i] by {
        let d = data[i];
        let k = keystream_byte(key, nonce, pos + i);
        assert((d ^ k) ^ k == d) by (bit_vector);
    }
    assert(twice =~= data);
}

/// Relies on chacha20::ChaCha20 (`new`, `seek` and `apply_keystream` of the
/// cipher crate): the keystream is a deterministic function of key, nonce
/// and absolute byte position, and `apply_keystream` XORs it into the buffer
/// in place. Within `KEYSTREAM_LIMIT` neither call panics.
#[verifier::external_body]
fn chacha20_xor_at(key: &[u8; 32], nonce: &[u8; 12], pos: u64, data: &mut Vec<u8>)
    requires
        pos + old(data)@.len() <= KEYSTREAM_LIMIT,
    ensures
        final(data)@.len() == old(data)@.len(),
        forall|i: int|
            0 <= i < old(data)@.len() ==> final(data)@[i] == old(data)@[i] ^ keystream_byte(
                key@,
                nonce@,
                pos + i,
            ),
{
    let mut cipher = chacha20::ChaCha20::new(key.into(), nonce.into());
    cipher.seek(pos);
    cipher.apply_keystream(data.as_mut_slice());
}

/// Session cipher state: a key and nonce, the current keystream position,
/// and the position at the last confirmed-good checkpoint.
pub struct SessionCipher {
    pub key: [u8; 32],
    pub nonce: [u8; 12],
    pub pos: u64,
    pub committed: u64,
}

impl SessionCipher {
    /// Well-formed: the checkpoint never runs ahead of the current position,
    /// and both stay within the keystream the cipher can produce.
    pub open spec fn wf(&self) -> bool {
        self.committed <= self.pos <= KEYSTREAM_LIMIT
    }

    /// A fresh cipher over `key` and `nonce`, at keystream position zero,
    /// with the checkpoint at zero.
    pub fn new(key: [u8; 32], nonce: [u8; 12]) -> (c: SessionCipher)
        ensures
            c.key == key,
            c.nonce == nonce,
            c.pos == 0,
            c.committed == 0,
            c.wf(),
    {
        SessionCipher { key, nonce, pos: 0, committed: 0 }
    }

    /// XORs the keystream into `data` in place and advances the current
    /// position, leaving the checkpoint where it was.
    pub fn apply(&mut self, data: &mut Vec<u8>)
        requires
            old(self).wf(),
            old(self).pos + old(data)@.len() <= KEYSTREAM_LIMIT,
        ensures
            final(self).key == old(self).key,
            final(self).nonce == old(self).nonce,
            final(self).committed == old(self).committed,
            final(self).pos == old(self).pos + old(data)@.len(),
            final(self).wf(),
            final(data)@ == xor_keystream(
                old(data)@,
                old(self).key@,
                old(self).nonce@,
                old(self).pos as int,
            ),
    {
        chacha20_xor_at(&self.key, &self.nonce, self.pos, data);
        proof {
            assert(data@ =~= xor_keystream(
                old(data)@,
                self.key@,
                self.nonce@,
                self.pos as int,
            ));
        }
        self.pos = self.pos + data.len() as u64;
    }

    /// Confirms the current position as good: after a framed operation
    /// completes, the checkpoint moves up to the current position.
    pub fn commit(&mut self)
        ensures
            final(self).key == old(self).key,
            final(self).nonce == old(self).nonce,
            final(self).pos == old(self).pos,
            final(self).committed == old(self).pos,
    {
        self.committed = self.pos;
    }

    /// Discards the keystream consumed since the checkpoint: after a failed
    /// send, the current position falls back to the last confirmed one.
    pub fn rollback(&mut self)
        ensures
            final(self).key == old(self).key,
            final(self).nonce == old(self).nonce,
            final(self).pos == old(self).committed,
            final(self).committed == old(self).committed,
    {
        self.pos = self.committed;
    }
}

} // verus!
