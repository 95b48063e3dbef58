//! Conversion between typed messages and the flat bytes that travel over a
//! connection, with the handles that travel beside them.

use crate::error::TipcError;
use crate::handle::Handle;
use vstd::prelude::*;

verus! {

/// Collects the bytes of one outgoing message.
pub struct Serializer {
    bytes: Vec<u8>,
}

impl View for Serializer {
    type V = Seq<u8>;

    closed spec fn view(&self) -> Seq<u8> {
        self.bytes@
    }
}

impl Serializer {
    /// A serializer that holds nothing yet.
    pub fn new() -> (r: Self)
        ensures
            r@ == Seq::<u8>::empty(),
    {
        Serializer { bytes: Vec::new() }
    }

    /// Appends `bytes`.
    pub fn serialize_bytes(&mut self, bytes: &[u8]) -> (r: Result<(), TipcError>)
        ensures
            r is Ok,
            final(self)@ == old(self)@ + bytes@,
    {
        self.bytes.extend_from_slice(bytes);
        Ok(())
    }

    /// Appends one byte.
    pub fn serialize_u8(&mut self, byte: u8) -> (r: Result<(), TipcError>)
        ensures
            r is Ok,
            final(self)@ == old(self)@.push(byte),
    {
        self.bytes.push(byte);
        Ok(())
    }

    /// The bytes collected so far.
    pub fn into_bytes(self) -> (r: Vec<u8>)
        ensures
            r@ == self@,
    {
        self.bytes
    }
}

/// A value that can be written as the bytes of a message.
pub trait Serialize {
    /// Whether `bytes` may stand for the value. A type that does not say
    /// which bytes do leaves them open.
    open spec fn writes(&self, bytes: Seq<u8>) -> bool {
        true
    }

    /// Whether the value is known to be written without failure. A type
    /// that does not say so promises nothing.
    open spec fn serializable(&self) -> bool {
        false
    }

    /// Appends the bytes of the value to `serializer`.
    fn serialize(&self, serializer: &mut Serializer) -> (r: Result<(), TipcError>)
        ensures
            r is Ok ==> exists|bytes: Seq<u8>|
                #[trigger] self.writes(bytes) && final(serializer)@ == old(serializer)@ + bytes,
            self.serializable() ==> r is Ok,
    ;
}

/// A value that can be rebuilt from the bytes of a message and the handles
/// received with it.
pub trait Deserialize: Sized {
    /// No serialized value of the type is longer than this.
    const MAX_SERIALIZED_SIZE: usize;

    /// What `deserialize` may return for the given bytes and handles, and
    /// the handles it leaves behind. A type that does not say so allows
    /// everything.
    open spec fn decodes(
        bytes: Seq<u8>,
        handles: Seq<Option<Handle>>,
        r: Result<Self, TipcError>,
        handles_left: Seq<Option<Handle>>,
    ) -> bool {
        true
    }

    /// Rebuilds a value, taking the handles it needs out of `handles`.
    /// Bytes beyond the largest serialized size of the type are no value
    /// of the type: they are `InvalidData`, and no handle is taken.
    fn deserialize(bytes: &[u8], handles: &mut Vec<Option<Handle>>) -> (r: Result<Self, TipcError>)
        ensures
            Self::decodes(bytes@, old(handles)@, r, final(handles)@),
            bytes@.len() > Self::MAX_SERIALIZED_SIZE ==> r == Err::<Self, TipcError>(
                TipcError::InvalidData,
            ) && final(handles)@ == old(handles)@,
    ;
}

/// What [`decode`] makes of the result of a type's own `deserialize`: every
/// failure becomes `InvalidData`.
pub open spec fn decode_outcome<M>(inner: Result<M, TipcError>) -> Result<M, TipcError> {
    match inner {
        Ok(m) => Ok(m),
        Err(_) => Err(TipcError::InvalidData),
    }
}

/// Rebuilds a message of type `M` from what was received. Bytes beyond the
/// largest serialized size of `M`, which `deserialize` refuses too, and
/// more than [`MAX_MSG_HANDLES`](crate::handle::MAX_MSG_HANDLES) handles
/// are refused with `InvalidData` before the type's own `deserialize` sees
/// them. Any failure of `deserialize` is reported as `InvalidData` too.
pub fn decode<M: Deserialize>(bytes: &[u8], handles: &mut Vec<Option<Handle>>) -> (r: Result<
    M,
    TipcError,
>)
    ensures
        bytes@.len() > M::MAX_SERIALIZED_SIZE || old(handles)@.len()
            > crate::handle::MAX_MSG_HANDLES ==> r == Err::<M, TipcError>(TipcError::InvalidData)
            && final(handles)@ == old(handles)@,
        bytes@.len() <= M::MAX_SERIALIZED_SIZE && old(handles)@.len()
            <= crate::handle::MAX_MSG_HANDLES ==> exists|inner: Result<M, TipcError>|
            #![auto]
            M::decodes(bytes@, old(handles)@, inner, final(handles)@) && r == decode_outcome(inner),
        r matches Err(e) ==> e == TipcError::InvalidData,
{
    if bytes.len() > M::MAX_SERIALIZED_SIZE || handles.len() > crate::handle::MAX_MSG_HANDLES {
        return Err(TipcError::InvalidData);
    }
    let inner = M::deserialize(bytes, handles);
    let r = match inner {
        Ok(m) => Ok(m),
        Err(_) => Err(TipcError::InvalidData),
    };
    assert(M::decodes(bytes@, old(handles)@, inner, final(handles)@) && r == decode_outcome(inner));
    r
}

} // verus!
