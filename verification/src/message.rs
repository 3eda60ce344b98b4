//! The application message and its serialized form.
//!
//! A message is a one-byte code and arbitrary content bytes. Its serialized
//! form is the code byte followed by the content bytes, with no separator:
//! the content boundary is implicit from the total length alone.

use vstd::prelude::*;

verus! {

/// The serialized form of a message: the code byte, then the content bytes.
pub open spec fn serialize_spec(code: u8, content: Seq<u8>) -> Seq<u8> {
    seq![code] + content
}

/// The code encoded in a serialized message (its first byte).
pub open spec fn code_of(bytes: Seq<u8>) -> u8 {
    bytes[0]
}

/// The content encoded in a serialized message (everything after the code).
pub open spec fn content_of(bytes: Seq<u8>) -> Seq<u8> {
    bytes.skip(1)
}

/// Serialization loses nothing: the code and the content bytes come back
/// exactly, for any code (0 and 255 included) and any content (empty
/// included).
pub proof fn lemma_serialize_round_trip(code: u8, content: Seq<u8>)
    ensures
        serialize_spec(code, content).len() == 1 + content.len(),
        code_of(serialize_spec(code, content)) == code,
        content_of(serialize_spec(code, content)) == content,
{
    assert(content_of(serialize_spec(code, content)) =~= content);
}

/// An application message: a one-byte code and variable-length content.
#[derive(Clone)]
pub struct Message {
    pub content: Vec<u8>,
    pub code: u8,
}

impl Message {
    /// The serialized form of this message.
    pub open spec fn wire(self) -> Seq<u8> {
        serialize_spec(self.code, self.content@)
    }

    /// Builds a message from its content bytes and code.
    pub fn new(content: Vec<u8>, code: u8) -> (m: Message)
        ensures
            m.content@ == content@,
            m.code == code,
    {
        Message { content, code }
    }

    /// The content bytes, borrowed.
    pub fn get_content(&self) -> (r: &[u8])
        ensures
            r@ == self.content@,
    {
        self.content.as_slice()
    }

    /// The content bytes, as an owned copy.
    pub fn get_content_vec(&self) -> (r: Vec<u8>)
        ensures
            r@ == self.content@,
    {
        let mut r: Vec<u8> = Vec::new();
        let mut i: usize = 0;
        while i < self.content.len()
            invariant
                i <= self.content.len(),
                r@ == self.content@.take(i as int),
            decreases self.content.len() - i,
        {
            r.push(self.content[i]);
            i = i + 1;
        }
        proof {
            assert(r@ =~= self.content@);
        }
        r
    }

    /// The message code.
    pub fn get_code(&self) -> (r: u8)
        ensures
            r == self.code,
    {
        self.code
    }

    /// Serializes the message: code byte, then content bytes.
    pub fn as_bytes(&self) -> (r: Vec<u8>)
        ensures
            r@ == self.wire(),
    {
        let mut r: Vec<u8> = Vec::new();
        r.push(self.code);
        let mut i: usize = 0;
        while i < self.content.len()
            invariant
                i <= self.content.len(),
                r@ == seq![self.code] + self.content@.take(i as int),
            decreases self.content.len() - i,
        {
            r.push(self.content[i]);
            i = i + 1;
        }
        proof {
            assert(r@ =~= self.wire());
        }
        r
    }

    /// Serializes the message, consuming it.
    pub fn as_bytes_once(self) -> (r: Vec<u8>)
        ensures
            r@ == self.wire(),
    {
        self.as_bytes()
    }

    /// Deserializes a message: byte 0 is the code, the rest is the content.
    pub fn from_bytes(bytes: &[u8]) -> (m: Message)
        requires
            bytes@.len() >= 1,
        ensures
            m.code == code_of(bytes@),
            m.content@ == content_of(bytes@),
    {
        let code = bytes[0];
        let mut content: Vec<u8> = Vec::new();
        let mut i: usize = 1;
        while i < bytes.len()
            invariant
                1 <= i <= bytes@.len(),
                content@ == bytes@.subrange(1, i as int),
            decreases bytes@.len() - i,
        {
            content.push(bytes[i]);
            i = i + 1;
        }
        proof {
            assert(content@ =~= content_of(bytes@));
        }
        Message { content, code }
    }
}

} // verus!
