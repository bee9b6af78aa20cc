use vstd::prelude::*;
use vstd::utf8::{encode_utf8, valid_utf8};
use vstd::utf8::{encode_utf8_decode_utf8, encode_utf8_valid_utf8};
use crate::error::Error;
use crate::layout::lemma_le_bytes_one;
use crate::packets::PacketBody;
use crate::serialization::{Serializable, SliceCursor};

verus! {

/// The longest text, in bytes of UTF-8, that the length byte in front of it
/// can announce.
pub const MAX_TEXT_LEN: usize = 255;

/// The greeting a client opens a connection with: one string, written as a
/// length byte and that many bytes of UTF-8.
#[derive(Debug, Clone, PartialEq, Eq)]
pub struct Magic {
    pub magic: String,
}

impl View for Magic {
    type V = Seq<char>;

    open spec fn view(&self) -> Seq<char> {
        self.magic@
    }
}

/// A string made of the given bytes, where they are UTF-8.
///
/// This hands the bytes to `String::from_utf8` of the standard library and
/// believes of it what its documentation says: it fails exactly where the
/// bytes are not valid UTF-8, and the string it returns is made of the very
/// bytes it was given.
#[verifier::external_body]
fn string_from_utf8(bytes: Vec<u8>) -> (text: Option<String>)
    ensures
        text is Some <==> valid_utf8(bytes@),
        text matches Some(s) ==> encode_utf8(s@) == bytes@,
{
    match String::from_utf8(bytes) {
        Ok(s) => Some(s),
        Err(_) => None,
    }
}

impl PacketBody for Magic {
    const TAG: u8 = 1;

    open spec fn tag() -> u8 {
        1
    }

    proof fn lemma_tag() {
    }

    open spec fn encodable(&self) -> bool {
        encode_utf8(self.magic@).len() <= MAX_TEXT_LEN
    }

    open spec fn body(&self) -> Seq<u8> {
        seq![encode_utf8(self.magic@).len() as u8] + encode_utf8(self.magic@)
    }

    open spec fn body_span(input: Seq<u8>) -> Result<nat, Error> {
        if input.len() < 1 {
            Err(Error::TruncatedInput)
        } else if input.len() < 1 + input[0] {
            Err(Error::TruncatedInput)
        } else if !valid_utf8(input.subrange(1, 1 + input[0])) {
            Err(Error::InvalidUtf8)
        } else {
            Ok((1 + input[0]) as nat)
        }
    }

    proof fn lemma_body_span(&self) {
        let text = encode_utf8(self.magic@);
        let body = self.body();
        encode_utf8_valid_utf8(self.magic@);
        assert(body[0] == text.len() as u8);
        assert(body.subrange(1, 1 + body[0]) =~= text);
    }

    proof fn lemma_body_injective(&self, other: &Self) {
        let mine = encode_utf8(self.magic@);
        let theirs = encode_utf8(other.magic@);
        assert(mine =~= self.body().skip(1));
        assert(theirs =~= other.body().skip(1));
        encode_utf8_decode_utf8(self.magic@);
        encode_utf8_decode_utf8(other.magic@);
    }

    fn write_body(&self, cursor: &mut SliceCursor) -> (r: Result<(), Error>) {
        let text = self.magic.as_str().as_bytes();
        if text.len() > MAX_TEXT_LEN {
            return Err(Error::LengthOverflow);
        }
        if cursor.remaining() < 1 + text.len() {
            return Err(Error::BufferOverflow);
        }
        let len: u8 = text.len() as u8;
        proof {
            lemma_le_bytes_one(len);
        }
        cursor.write(&len)?;
        cursor.write_bytes(text)?;
        assert(cursor@.bytes =~= old(cursor)@.wrote(self.body()).bytes);
        Ok(())
    }

    fn from_body(cursor: &mut SliceCursor) -> (r: Result<Self, Error>) {
        let start = cursor.pos();
        let ghost input = cursor@.ahead();
        let len: u8 = cursor.read()?;
        proof {
            lemma_le_bytes_one(len);
            assert(len.wire() == seq![len]);
            assert(input.take(1)[0] == input[0]);
        }
        let text = match cursor.read_bytes(len as usize) {
            Ok(text) => text,
            Err(e) => {
                cursor.pos = start;
                return Err(e);
            },
        };
        assert(text@ =~= input.subrange(1, 1 + len));
        match string_from_utf8(text) {
            Some(magic) => {
                let value = Magic { magic };
                assert(value.body() =~= input.take(1 + len));
                Ok(value)
            },
            None => {
                cursor.pos = start;
                Err(Error::InvalidUtf8)
            },
        }
    }
}

} // verus!
