//! The handshake state machines of both roles.
//!
//! Each role is a sequence of steps; a step takes the bytes just read off
//! the transport, makes its decisions, and hands back the state for the
//! next step together with the bytes to write. The caller only moves bytes:
//! every comparison, every key and nonce derivation, and every cipher
//! advance happens here.
//!
//! The KEM calls stand behind trusted wrappers whose secrets are opaque, so
//! each step that consumes secrets exists in two layers: a driver that makes
//! the KEM call, and a fully specified core that takes the secrets as
//! arguments and is verified for every value of them.

use vstd::prelude::*;
use crate::ProtocolError;
use crate::derive_nonce;
use crate::kem;
use crate::protocol_tag;
use crate::spec_derive_nonce;
use crate::cipher::KEYSTREAM_LIMIT;
use crate::cipher::SessionCipher;
use crate::cipher::keystream_byte;
use crate::cipher::xor_keystream;

verus! {

/// The 19-byte liveness challenge in the clear: the protocol tag followed
/// by 16 random bytes.
pub open spec fn challenge_plain(rand: Seq<u8>) -> Seq<u8> {
    protocol_tag() + rand
}

/// Relies on rand::random: 16 bytes from the thread RNG. Nothing is
/// promised of their values.
#[verifier::external_body]
fn random_bytes16() -> (r: [u8; 16])
{
    rand::random::<[u8; 16]>()
}

/// Appends all of `src` to `dst`.
fn extend_bytes(dst: &mut Vec<u8>, src: &[u8])
    ensures
        final(dst)@ == old(dst)@ + src@,
{
    let mut i: usize = 0;
    while i < src.len()
        invariant
            i <= src@.len(),
            dst@ == old(dst)@ + src@.take(i as int),
        decreases src@.len() - i,
    {
        dst.push(src[i]);
        proof {
            assert(dst@ =~= old(dst)@ + src@.take(i as int + 1));
        }
        i = i + 1;
    }
    proof {
        assert(dst@ =~= old(dst)@ + src@);
    }
}

/// Byte-for-byte equality of two slices.
fn bytes_eq(a: &[u8], b: &[u8]) -> (r: bool)
    ensures
        r == (a@ == b@),
{
    if a.len() != b.len() {
        return false;
    }
    let mut i: usize = 0;
    while i < a.len()
        invariant
            i <= a@.len(),
            a@.len() == b@.len(),
            forall|j: int| 0 <= j < i ==> a@[j] == b@[j],
        decreases a@.len() - i,
    {
        if a[i] != b[i] {
            return false;
        }
        i = i + 1;
    }
    proof {
        assert(a@ =~= b@);
    }
    true
}

/// The initiator after sending its hello: it holds its ephemeral
/// decapsulation key and awaits the two KEM ciphertexts.
pub struct InitiatorHello {
    pub dk: Vec<u8>,
}

impl InitiatorHello {
    /// Well-formed: the decapsulation key has its fixed encoded size.
    pub open spec fn wf(&self) -> bool {
        self.dk@.len() == 3168
    }
}

/// Starts the initiator role: generates the ephemeral KEM key pair and
/// builds the hello bytes, the 3-byte protocol tag followed by the
/// 1568-byte encapsulation key.
pub fn initiator_hello() -> (r: (InitiatorHello, Vec<u8>))
    ensures
        r.0.wf(),
        r.1@.len() == 1571,
        r.1@.take(3) == protocol_tag(),
{
    let (dk, ek) = kem::create_keypair();
    let mut out: Vec<u8> = Vec::new();
    out.push(2u8);
    out.push(2u8);
    out.push(8u8);
    proof {
        assert(out@ =~= protocol_tag());
    }
    extend_bytes(&mut out, ek.as_slice());
    proof {
        assert(out@.take(3) =~= protocol_tag());
    }
    (InitiatorHello { dk }, out)
}

/// The initiator after sending its encrypted challenge: it remembers the
/// exact ciphertext it sent and awaits the echo.
pub struct InitiatorPending {
    pub cipher: SessionCipher,
    pub sent: Vec<u8>,
}

impl InitiatorPending {
    /// Well-formed: the handshake cipher has consumed exactly the 19
    /// challenge bytes and nothing is committed yet.
    pub open spec fn wf(&self) -> bool {
        &&& self.cipher.wf()
        &&& self.cipher.pos == 19
        &&& self.cipher.committed == 0
        &&& self.sent@.len() == 19
    }
}

/// The fully specified core of the initiator's key establishment: derives
/// the nonce from the second secret, builds the session cipher over the
/// first secret, and encrypts the 19-byte liveness challenge with it. The
/// bytes to send are exactly the remembered ciphertext.
pub fn initiator_session(secret_a: [u8; 32], secret_b: [u8; 32], rand: [u8; 16]) -> (r: (
    InitiatorPending,
    Vec<u8>,
))
    ensures
        r.0.wf(),
        r.0.cipher.key == secret_a,
        r.0.cipher.nonce@ == spec_derive_nonce(secret_b@),
        r.0.sent@ == xor_keystream(
            challenge_plain(rand@),
            secret_a@,
            spec_derive_nonce(secret_b@),
            0,
        ),
        r.1@ == r.0.sent@,
{
    let nonce = derive_nonce(&secret_b);
    let mut cipher = SessionCipher::new(secret_a, nonce);
    let mut chal: Vec<u8> = Vec::new();
    chal.push(2u8);
    chal.push(2u8);
    chal.push(8u8);
    proof {
        assert(chal@ =~= protocol_tag());
    }
    extend_bytes(&mut chal, rand.as_slice());
    proof {
        assert(chal@ =~= challenge_plain(rand@));
    }
    cipher.apply(&mut chal);
    let mut out: Vec<u8> = Vec::new();
    extend_bytes(&mut out, chal.as_slice());
    proof {
        assert(out@ =~= chal@);
    }
    (InitiatorPending { cipher, sent: chal }, out)
}

/// Decapsulates the two ciphertexts the responder sent, then runs the
/// verified core over the recovered secrets and a fresh random challenge.
/// A failed decapsulation would be fatal to the handshake, with no
/// challenge sent; this KEM provider's decapsulation is infallible, so the
/// step always succeeds.
pub fn initiator_derive(st: InitiatorHello, ct_a: &[u8; 1568], ct_b: &[u8; 1568]) -> (r: Result<
    (InitiatorPending, Vec<u8>),
    ProtocolError,
>)
    requires
        st.wf(),
    ensures
        r is Ok,
        r matches Ok(p) ==> p.0.wf() && p.1@ == p.0.sent@,
        r matches Err(e) ==> e == ProtocolError::ProtocolIntegrity,
{
    let secret_a = match kem::decapsulate(ct_a, st.dk.as_slice()) {
        Some(s) => s,
        None => {
            return Err(ProtocolError::ProtocolIntegrity);
        },
    };
    let secret_b = match kem::decapsulate(ct_b, st.dk.as_slice()) {
        Some(s) => s,
        None => {
            return Err(ProtocolError::ProtocolIntegrity);
        },
    };
    let rand = random_bytes16();
    Ok(initiator_session(secret_a, secret_b, rand))
}

/// The initiator after a verified echo: the liveness check passed and the
/// session key and nonce are established.
pub struct InitiatorAuthed {
    pub cipher: SessionCipher,
}

impl InitiatorAuthed {
    /// Well-formed: the handshake cipher is within its keystream.
    pub open spec fn wf(&self) -> bool {
        self.cipher.wf()
    }
}

/// Checks the responder's echo against the ciphertext the initiator sent:
/// the handshake goes on exactly when they match byte for byte, and any
/// mismatch is a fatal integrity failure.
pub fn initiator_check_echo(st: InitiatorPending, echo: &[u8]) -> (r: Result<
    InitiatorAuthed,
    ProtocolError,
>)
    requires
        st.wf(),
    ensures
        (r is Ok) <==> echo@ == st.sent@,
        r matches Ok(a) ==> a.cipher == st.cipher && a.wf(),
        r matches Err(e) ==> e == ProtocolError::ProtocolIntegrity,
{
    if bytes_eq(echo, st.sent.as_slice()) {
        Ok(InitiatorAuthed { cipher: st.cipher })
    } else {
        Err(ProtocolError::ProtocolIntegrity)
    }
}

impl InitiatorAuthed {
    /// Completes the handshake on either path: the live session cipher is a
    /// fresh instance over the established key and nonce, at keystream
    /// position zero.
    pub fn finish(self) -> (c: SessionCipher)
        ensures
            c.key == self.cipher.key,
            c.nonce == self.cipher.nonce,
            c.pos == 0,
            c.committed == 0,
            c.wf(),
    {
        SessionCipher::new(self.cipher.key, self.cipher.nonce)
    }

    /// Encrypts the 32-byte password with the current, already advanced
    /// handshake cipher. The caller sends the result, reads the responder's
    /// reply (which the initiator discards), and then calls `finish`.
    pub fn encrypt_password(&mut self, password: &[u8; 32]) -> (r: Vec<u8>)
        requires
            old(self).wf(),
            old(self).cipher.pos + 32 <= KEYSTREAM_LIMIT,
        ensures
            r@ == xor_keystream(
                password@,
                old(self).cipher.key@,
                old(self).cipher.nonce@,
                old(self).cipher.pos as int,
            ),
            final(self).cipher.key == old(self).cipher.key,
            final(self).cipher.nonce == old(self).cipher.nonce,
            final(self).cipher.pos == old(self).cipher.pos + 32,
            final(self).cipher.committed == old(self).cipher.committed,
            final(self).wf(),
    {
        let mut buf: Vec<u8> = Vec::new();
        extend_bytes(&mut buf, password.as_slice());
        proof {
            assert(buf@ =~= password@);
        }
        self.cipher.apply(&mut buf);
        buf
    }
}

/// The responder after sending its two ciphertexts: its session cipher is
/// established and it awaits the initiator's encrypted challenge.
pub struct ResponderPending {
    pub cipher: SessionCipher,
}

impl ResponderPending {
    /// Well-formed: the cipher is fresh, nothing consumed or committed.
    pub open spec fn wf(&self) -> bool {
        &&& self.cipher.wf()
        &&& self.cipher.pos == 0
        &&& self.cipher.committed == 0
    }
}

/// The fully specified core of the responder's key establishment: the same
/// derivation as the initiator's, from the two secrets it encapsulated.
pub fn responder_session(secret_a: [u8; 32], nonce_secret: [u8; 32]) -> (st: ResponderPending)
    ensures
        st.wf(),
        st.cipher.key == secret_a,
        st.cipher.nonce@ == spec_derive_nonce(nonce_secret@),
{
    let nonce = derive_nonce(&nonce_secret);
    ResponderPending { cipher: SessionCipher::new(secret_a, nonce) }
}

/// Handles one candidate's hello: checks the protocol tag, encapsulates two
/// independent secrets against the initiator's encapsulation key, and hands
/// back the state awaiting the challenge together with the two ciphertexts
/// to send (the session-key one first, then the nonce one). A wrong tag
/// rejects the candidate; this KEM provider's encapsulation always
/// succeeds, so the right tag is accepted.
pub fn responder_accept(tag: &[u8; 3], ek_bytes: &[u8; 1568]) -> (r: Result<
    (ResponderPending, Vec<u8>),
    ProtocolError,
>)
    ensures
        (r is Ok) <==> tag@ == protocol_tag(),
        r matches Ok(p) ==> p.0.wf() && p.1@.len() == 3136,
        r matches Err(e) ==> e == ProtocolError::ProtocolIntegrity,
{
    if !(tag[0] == 2 && tag[1] == 2 && tag[2] == 8) {
        proof {
            if tag@ == protocol_tag() {
                assert(tag@[0] == 2 && tag@[1] == 2 && tag@[2] == 8);
            }
        }
        return Err(ProtocolError::ProtocolIntegrity);
    }
    proof {
        assert(tag@ =~= protocol_tag());
    }
    let (ct_a, secret_a) = match kem::encapsulate(ek_bytes) {
        Some(p) => p,
        None => {
            return Err(ProtocolError::ProtocolIntegrity);
        },
    };
    let (ct_b, secret_b) = match kem::encapsulate(ek_bytes) {
        Some(p) => p,
        None => {
            return Err(ProtocolError::ProtocolIntegrity);
        },
    };
    let mut out: Vec<u8> = Vec::new();
    extend_bytes(&mut out, ct_a.as_slice());
    extend_bytes(&mut out, ct_b.as_slice());
    Ok((responder_session(secret_a, secret_b), out))
}

/// The responder after verifying the challenge: the initiator has proven
/// liveness and the roles agree on the session key and nonce.
pub struct ResponderAuthed {
    pub cipher: SessionCipher,
}

impl ResponderAuthed {
    /// Well-formed: the cipher is within its keystream.
    pub open spec fn wf(&self) -> bool {
        self.cipher.wf()
    }
}

/// Verifies the initiator's 19-byte encrypted challenge: decrypts a working
/// copy, accepts exactly when the decrypted prefix is the protocol tag, and
/// echoes the unmodified ciphertext back. Anything else rejects the
/// candidate.
pub fn responder_check_challenge(st: ResponderPending, challenge: &[u8]) -> (r: Result<
    (ResponderAuthed, Vec<u8>),
    ProtocolError,
>)
    requires
        st.cipher.wf(),
        st.cipher.pos + 19 <= KEYSTREAM_LIMIT,
        challenge@.len() == 19,
    ensures
        ({
            let plain = xor_keystream(
                challenge@,
                st.cipher.key@,
                st.cipher.nonce@,
                st.cipher.pos as int,
            );
            &&& ((r is Ok) <==> plain.take(3) == protocol_tag())
            &&& (r matches Ok(p) ==> p.0.cipher.key == st.cipher.key
                && p.0.cipher.nonce == st.cipher.nonce
                && p.0.cipher.pos == st.cipher.pos + 19
                && p.0.cipher.committed == st.cipher.committed
                && p.0.wf()
                && p.1@ == challenge@)
            &&& (r matches Err(e) ==> e == ProtocolError::ProtocolIntegrity)
        }),
{
    let ghost plain = xor_keystream(
        challenge@,
        st.cipher.key@,
        st.cipher.nonce@,
        st.cipher.pos as int,
    );
    let mut work: Vec<u8> = Vec::new();
    extend_bytes(&mut work, challenge);
    proof {
        assert(work@ =~= challenge@);
    }
    let mut cipher = st.cipher;
    cipher.apply(&mut work);
    if work[0] == 2 && work[1] == 2 && work[2] == 8 {
        proof {
            assert(plain.take(3) =~= protocol_tag());
        }
        let mut echo: Vec<u8> = Vec::new();
        extend_bytes(&mut echo, challenge);
        proof {
            assert(echo@ =~= challenge@);
        }
        Ok((ResponderAuthed { cipher }, echo))
    } else {
        proof {
            if plain.take(3) == protocol_tag() {
                assert(plain[0] == plain.take(3)[0]);
                assert(plain[1] == plain.take(3)[1]);
                assert(plain[2] == plain.take(3)[2]);
            }
        }
        Err(ProtocolError::ProtocolIntegrity)
    }
}

impl ResponderAuthed {
    /// Completes the no-password handshake: the live session cipher is a
    /// fresh instance over the established key and nonce.
    pub fn finish(self) -> (c: SessionCipher)
        ensures
            c.key == self.cipher.key,
            c.nonce == self.cipher.nonce,
            c.pos == 0,
            c.committed == 0,
            c.wf(),
    {
        SessionCipher::new(self.cipher.key, self.cipher.nonce)
    }

    /// Verifies the password: decrypts the 32 received bytes with the
    /// current, already advanced handshake cipher and accepts exactly when
    /// they match the expected password. On a match, the decrypted bytes go
    /// back to the initiator as confirmation and the live session cipher is
    /// a fresh instance over the established key and nonce — the same nonce
    /// on both roles, so password-authenticated sessions interoperate.
    pub fn check_password(self, pw_buf: &[u8; 32], expected: &[u8; 32]) -> (r: Result<
        (Vec<u8>, SessionCipher),
        ProtocolError,
    >)
        requires
            self.cipher.wf(),
            self.cipher.pos + 32 <= KEYSTREAM_LIMIT,
        ensures
            ({
                let plain = xor_keystream(
                    pw_buf@,
                    self.cipher.key@,
                    self.cipher.nonce@,
                    self.cipher.pos as int,
                );
                &&& ((r is Ok) <==> plain == expected@)
                &&& (r matches Ok(p) ==> p.0@ == plain
                    && p.1.key == self.cipher.key
                    && p.1.nonce == self.cipher.nonce
                    && p.1.pos == 0
                    && p.1.committed == 0
                    && p.1.wf())
                &&& (r matches Err(e) ==> e == ProtocolError::Authentication)
            }),
    {
        let key = self.cipher.key;
        let nonce = self.cipher.nonce;
        let mut cipher = self.cipher;
        let mut work: Vec<u8> = Vec::new();
        extend_bytes(&mut work, pw_buf.as_slice());
        proof {
            assert(work@ =~= pw_buf@);
        }
        cipher.apply(&mut work);
        if bytes_eq(work.as_slice(), expected.as_slice()) {
            Ok((work, SessionCipher::new(key, nonce)))
        } else {
            Err(ProtocolError::Authentication)
        }
    }
}

/// Corrupting the first byte of the initiator's encrypted challenge in
/// transit makes the responder reject the handshake: whatever the
/// corruption, the decrypted prefix can no longer be the protocol tag.
pub proof fn lemma_tamper_rejected(key: Seq<u8>, nonce: Seq<u8>, rand: Seq<u8>, tampered: Seq<u8>)
    requires
        rand.len() == 16,
        tampered.len() == 19,
        tampered[0] != xor_keystream(challenge_plain(rand), key, nonce, 0)[0],
    ensures
        xor_keystream(tampered, key, nonce, 0).take(3) != protocol_tag(),
{
    let k0 = keystream_byte(key, nonce, 0);
    let t0 = tampered[0];
    assert(challenge_plain(rand)[0] == 2);
    assert(xor_keystream(challenge_plain(rand), key, nonce, 0)[0] == (2u8 ^ k0));
    assert(xor_keystream(tampered, key, nonce, 0)[0] == (t0 ^ k0));
    assert(t0 != (2u8 ^ k0) ==> (t0 ^ k0) != 2u8) by (bit_vector);
    assert(xor_keystream(tampered, key, nonce, 0).take(3)[0] == (t0 ^ k0));
}

/// Both roles finish the handshake — on the plain path and on the password
/// path alike — with the same live session cipher: a fresh instance over
/// the session key and the nonce derived from the second shared secret. So
/// the two ends' keystreams agree from position zero on, and with the
/// framing round trip every message one end sends the other recovers.
pub proof fn lemma_session_symmetry(
    ci: SessionCipher,
    cr: SessionCipher,
    secret_a: [u8; 32],
    secret_b: [u8; 32],
    code: u8,
    content: Seq<u8>,
)
    requires
        ci.key == secret_a,
        ci.nonce@ == spec_derive_nonce(secret_b@),
        ci.pos == 0,
        ci.committed == 0,
        cr.key == secret_a,
        cr.nonce@ == spec_derive_nonce(secret_b@),
        cr.pos == 0,
        cr.committed == 0,
        1 + content.len() <= KEYSTREAM_LIMIT,
    ensures
        ci.key@ == cr.key@,
        ci.nonce@ == cr.nonce@,
        ci.pos == cr.pos,
        ci.committed == cr.committed,
        ({
            let plain = crate::message::serialize_spec(code, content);
            let sent = crate::codec::frame_spec(xor_keystream(plain, ci.key@, ci.nonce@, 0));
            let received = xor_keystream(
                sent.skip(8).take(plain.len() as int),
                cr.key@,
                cr.nonce@,
                0,
            );
            crate::message::code_of(received) == code && crate::message::content_of(received)
                == content
        }),
{
    crate::codec::lemma_transport_round_trip(code, content, ci.key@, ci.nonce@, 0);
}

} // verus!
