use vstd::prelude::*;
use crate::error::Error;
use crate::packets::PacketBody;
use crate::serialization::SliceCursor;

verus! {

/// The body of a packet kind whose fields this crate does not take apart:
/// the bytes as they travel, under the tag `TAG`.
///
/// Such a body has no length of its own. It is everything the message holds
/// behind the tag, so reading one takes the input to its end.
#[derive(Debug, Clone, PartialEq, Eq)]
pub struct RawBody<const TAG: u8> {
    pub bytes: Vec<u8>,
}

impl<const TAG: u8> View for RawBody<TAG> {
    type V = Seq<u8>;

    open spec fn view(&self) -> Seq<u8> {
        self.bytes@
    }
}

impl<const TAG: u8> PacketBody for RawBody<TAG> {
    const TAG: u8 = TAG;

    open spec fn tag() -> u8 {
        TAG
    }

    proof fn lemma_tag() {
    }

    open spec fn encodable(&self) -> bool {
        true
    }

    open spec fn body(&self) -> Seq<u8> {
        self.bytes@
    }

    open spec fn body_span(input: Seq<u8>) -> Result<nat, Error> {
        Ok(input.len())
    }

    proof fn lemma_body_span(&self) {
    }

    proof fn lemma_body_injective(&self, other: &Self) {
    }

    fn write_body(&self, cursor: &mut SliceCursor) -> (r: Result<(), Error>) {
        cursor.write_bytes(self.bytes.as_slice())?;
        Ok(())
    }

    fn from_body(cursor: &mut SliceCursor) -> (r: Result<Self, Error>) {
        let ghost input = cursor@.ahead();
        let bytes = cursor.read_bytes(cursor.remaining())?;
        let value = RawBody { bytes };
        assert(value.body() =~= input.take(value.body().len() as int));
        Ok(value)
    }
}

} // verus!
