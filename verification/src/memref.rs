//! The answers of a service that lends a buffer of shared memory: the
//! handle of the buffer, a byte read from it, and the confirmation of a
//! write.

use crate::codec::Deserialize;
use crate::error::TipcError;
use crate::handle::Handle;
use vstd::prelude::*;

verus! {

/// The answer to the request for the buffer: the handle of the buffer,
/// which comes beside a message without bytes.
#[derive(Debug)]
pub struct MemrefResponse {
    pub handle: Handle,
}

impl Deserialize for MemrefResponse {
    const MAX_SERIALIZED_SIZE: usize = 0;

    /// No byte and exactly one handle must have come; the handle is taken,
    /// and its place is left empty. Anything else is `InvalidData` and
    /// takes nothing.
    open spec fn decodes(
        bytes: Seq<u8>,
        handles: Seq<Option<Handle>>,
        r: Result<Self, TipcError>,
        handles_left: Seq<Option<Handle>>,
    ) -> bool {
        if bytes.len() == 0 && handles.len() == 1 && handles[0] is Some {
            &&& r matches Ok(response)
            &&& Some(response.handle) == handles[0]
            &&& handles_left == seq![None::<Handle>]
        } else {
            &&& r matches Err(e)
            &&& e == TipcError::InvalidData
            &&& handles_left == handles
        }
    }

    fn deserialize(bytes: &[u8], handles: &mut Vec<Option<Handle>>) -> (r: Result<Self, TipcError>) {
        if bytes.len() != 0 || handles.len() != 1 || handles[0].is_none() {
            return Err(TipcError::InvalidData);
        }
        let mut taken: Option<Handle> = None;
        std::mem::swap(&mut taken, &mut handles[0]);
        assert(handles@ =~= seq![None::<Handle>]);
        match taken {
            Some(handle) => Ok(MemrefResponse { handle }),
            None => Err(TipcError::InvalidData),
        }
    }
}

/// The answer to the request to read: the byte that was read.
#[derive(Clone, Copy, Debug, PartialEq, Eq, Structural)]
pub struct ReadResponse {
    pub value: u8,
}

impl Deserialize for ReadResponse {
    const MAX_SERIALIZED_SIZE: usize = 1;

    /// The one byte of the message is the value; a message without bytes,
    /// or with more than one, is `InvalidData`.
    open spec fn decodes(
        bytes: Seq<u8>,
        handles: Seq<Option<Handle>>,
        r: Result<Self, TipcError>,
        handles_left: Seq<Option<Handle>>,
    ) -> bool {
        &&& handles_left == handles
        &&& r == if bytes.len() == 1 {
            Ok::<Self, TipcError>(ReadResponse { value: bytes[0] })
        } else {
            Err::<Self, TipcError>(TipcError::InvalidData)
        }
    }

    fn deserialize(bytes: &[u8], handles: &mut Vec<Option<Handle>>) -> (r: Result<Self, TipcError>) {
        if bytes.len() != 1 {
            return Err(TipcError::InvalidData);
        }
        Ok(ReadResponse { value: bytes[0] })
    }
}

/// The answer to the request to write, which says nothing more: a message
/// without bytes. A message with bytes is `InvalidData`.
#[derive(Clone, Copy, Debug, PartialEq, Eq, Structural)]
pub struct WriteResponse;

impl Deserialize for WriteResponse {
    const MAX_SERIALIZED_SIZE: usize = 0;

    open spec fn decodes(
        bytes: Seq<u8>,
        handles: Seq<Option<Handle>>,
        r: Result<Self, TipcError>,
        handles_left: Seq<Option<Handle>>,
    ) -> bool {
        &&& handles_left == handles
        &&& r == if bytes.len() == 0 {
            Ok::<Self, TipcError>(WriteResponse)
        } else {
            Err::<Self, TipcError>(TipcError::InvalidData)
        }
    }

    fn deserialize(bytes: &[u8], handles: &mut Vec<Option<Handle>>) -> (r: Result<Self, TipcError>) {
        if bytes.len() != 0 {
            return Err(TipcError::InvalidData);
        }
        Ok(WriteResponse)
    }
}


/// The answers that carry no bytes are never longer than no bytes, and the
/// answer to a read is never longer than its one byte: those are the
/// declared maxima of the types, and longer bytes are refused with
/// `InvalidData`, with the handles left as they were.
pub proof fn lemma_response_max_sizes()
    ensures
        <MemrefResponse as Deserialize>::MAX_SERIALIZED_SIZE == 0,
        <ReadResponse as Deserialize>::MAX_SERIALIZED_SIZE == 1,
        <WriteResponse as Deserialize>::MAX_SERIALIZED_SIZE == 0,
        forall|
            bytes: Seq<u8>,
            handles: Seq<Option<Handle>>,
            r: Result<MemrefResponse, TipcError>,
            left: Seq<Option<Handle>>,
        |
            bytes.len() > 0 && #[trigger] MemrefResponse::decodes(bytes, handles, r, left) ==> (r
                matches Err(e) && e == TipcError::InvalidData) && left == handles,
        forall|
            bytes: Seq<u8>,
            handles: Seq<Option<Handle>>,
            r: Result<ReadResponse, TipcError>,
            left: Seq<Option<Handle>>,
        |
            bytes.len() > 1 && #[trigger] ReadResponse::decodes(bytes, handles, r, left) ==> r
                == Err::<ReadResponse, TipcError>(TipcError::InvalidData) && left == handles,
        forall|
            bytes: Seq<u8>,
            handles: Seq<Option<Handle>>,
            r: Result<WriteResponse, TipcError>,
            left: Seq<Option<Handle>>,
        |
            bytes.len() > 0 && #[trigger] WriteResponse::decodes(bytes, handles, r, left) ==> r
                == Err::<WriteResponse, TipcError>(TipcError::InvalidData) && left == handles,
{
}

} // verus!
