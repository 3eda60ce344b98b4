//! Point-to-point secure transport core.
//!
//! The library establishes a shared session key over an unauthenticated byte
//! stream with a post-quantum key-encapsulation mechanism, derives a symmetric
//! stream-cipher session from it, optionally authenticates the session with a
//! pre-shared 32-byte password, and exchanges length-framed application
//! messages protected by the session cipher.
//!
//! All protocol decisions live here and are verified: the wire framing codec,
//! the session-cipher lifecycle (construction, keystream advancement,
//! rollback on failure), and the handshake state machines of both roles.
//! The byte-stream transport itself is left to the caller, which writes the
//! buffers these functions hand out and reads the buffers they ask for.

use vstd::prelude::*;

use crate::cipher::SessionCipher;

pub mod cipher;
pub mod codec;
pub mod handshake;
pub mod kem;
pub mod message;

verus! {

/// The 3-byte tag that identifies the protocol version on the wire.
pub open spec fn protocol_tag() -> Seq<u8> {
    seq![2u8, 2u8, 8u8]
}

/// The protocol tag as a concrete buffer, for writing and comparing.
pub fn tag_bytes() -> (r: [u8; 3])
    ensures
        r@ == protocol_tag(),
{
    let r = [2u8, 2u8, 8u8];
    proof {
        assert(r@ =~= protocol_tag());
    }
    r
}

/// The fixed byte-selection permutation that folds a 32-byte shared secret
/// into a 96-bit cipher nonce. Both roles must use it identically.
pub open spec fn spec_derive_nonce(data: Seq<u8>) -> Seq<u8> {
    seq![
        data[15],
        data[19],
        data[1],
        data[10],
        data[23],
        data[30],
        data[26],
        data[27],
        data[4],
        data[31],
        data[8],
        data[5],
    ]
}

/// Derives the 96-bit session nonce from a 32-byte shared secret by the fixed
/// byte-selection permutation.
pub fn derive_nonce(data: &[u8; 32]) -> (r: [u8; 12])
    ensures
        r@ == spec_derive_nonce(data@),
{
    let r = [
        data[15],
        data[19],
        data[1],
        data[10],
        data[23],
        data[30],
        data[26],
        data[27],
        data[4],
        data[31],
        data[8],
        data[5],
    ];
    proof {
        assert(r@ =~= spec_derive_nonce(data@));
    }
    r
}

/// The session cipher used when no handshake runs: all-zero key and nonce,
/// at keystream position zero, identical on both ends by construction.
pub fn default_chacha20_cipher() -> (c: SessionCipher)
    ensures
        c.pos == 0,
        c.committed == 0,
        c.wf(),
        forall|i: int| 0 <= i < 32 ==> c.key@[i] == 0,
        forall|i: int| 0 <= i < 12 ==> c.nonce@[i] == 0,
{
    let c = SessionCipher::new([0u8; 32], [0u8; 12]);
    c
}

/// Why an operation failed: an underlying transport failure, a fatal
/// handshake-integrity failure (bad tag, failed decapsulation, wrong echo),
/// a password mismatch, or a missed deadline.
#[derive(Clone, Copy, Debug, PartialEq, Eq, Structural)]
pub enum ProtocolError {
    Transport,
    ProtocolIntegrity,
    Authentication,
    TimedOut,
}

/// What the accept loop does when one handshake attempt fails: abort the
/// whole listen call, or discard the candidate and keep accepting.
#[derive(Clone, Copy, Debug, PartialEq, Eq, Structural)]
pub enum FailPolicy {
    AbortOnFailure,
    SkipAndContinue,
}

impl FailPolicy {
    /// True when one failed handshake attempt must abort the accept loop.
    pub fn aborts(&self) -> (r: bool)
        ensures
            r == (*self is AbortOnFailure),
    {
        matches!(self, FailPolicy::AbortOnFailure)
    }
}

} // verus!
