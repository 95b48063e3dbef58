//! The library's side of a kernel endpoint.

use crate::codec::{Serialize, Serializer};
use crate::error::TipcError;
use vstd::prelude::*;
use vstd::std_specs::cmp::PartialEqSpecImpl;

verus! {

/// Largest number of handles that one message carries.
pub const MAX_MSG_HANDLES: usize = 8;

/// The views of a queue of messages.
pub open spec fn message_views(q: Seq<Vec<u8>>) -> Seq<Seq<u8>> {
    q.map_values(|m: Vec<u8>| m@)
}

/// One endpoint of the kernel, a port or a connection, named by its
/// descriptor. Messages sent through the handle are queued in it, in order,
/// until the event loop hands them to the kernel. Whether the kernel took
/// them is not known here: the loop tells
/// [`Manager::handle_sent`](crate::manager::Manager::handle_sent), which
/// closes the connection of a send that failed.
#[derive(Debug)]
pub struct Handle {
    fd: Descriptor,
    outgoing: Vec<Vec<u8>>,
}

/// A descriptor as the kernel hands it out: never negative.
#[derive(Debug)]
struct Descriptor {
    number: i32,
}

impl Descriptor {
    #[verifier::type_invariant]
    spec fn valid(self) -> bool {
        self.number >= 0
    }
}

impl PartialEq for Handle {
    /// Two handles are equal when they name the same descriptor.
    fn eq(&self, other: &Self) -> (r: bool) {
        self.fd.number == other.fd.number
    }
}

impl PartialEqSpecImpl for Handle {
    open spec fn obeys_eq_spec() -> bool {
        true
    }

    open spec fn eq_spec(&self, other: &Self) -> bool {
        self.raw() == other.raw()
    }
}

impl Eq for Handle {

}

impl Handle {
    /// The descriptor that the handle names.
    pub closed spec fn raw(&self) -> i32 {
        self.fd.number
    }

    /// The messages sent through the handle and not yet taken, oldest first.
    pub closed spec fn queued(&self) -> Seq<Seq<u8>> {
        message_views(self.outgoing@)
    }

    /// A handle for a descriptor; a negative number names none and gives
    /// `InvalidHandle`.
    pub fn from_raw(fd: i32) -> (r: Result<Handle, TipcError>)
        ensures
            r is Ok <==> fd >= 0,
            r matches Ok(h) ==> h.raw() == fd && h.queued() == Seq::<Seq<u8>>::empty(),
            r matches Err(e) ==> e == TipcError::InvalidHandle,
    {
        if fd < 0 {
            Err(TipcError::InvalidHandle)
        } else {
            let h = Handle { fd: Descriptor { number: fd }, outgoing: Vec::new() };
            assert(h.queued() =~= Seq::<Seq<u8>>::empty());
            Ok(h)
        }
    }

    /// The descriptor that the handle names.
    pub fn as_raw_fd(&self) -> (r: i32)
        ensures
            r == self.raw(),
            r >= 0,
    {
        proof {
            use_type_invariant(&self.fd);
        }
        self.fd.number
    }

    /// Queues `msg` for the peer. If the message cannot be serialized nothing
    /// is queued and the error of the message is returned.
    pub fn send<M: Serialize>(&mut self, msg: &M) -> (r: Result<(), TipcError>)
        ensures
            final(self).raw() == old(self).raw(),
            r is Ok ==> exists|bytes: Seq<u8>|
                #[trigger] msg.writes(bytes) && final(self).queued() == old(self).queued().push(
                    bytes,
                ),
            r is Err ==> final(self).queued() == old(self).queued(),
            msg.serializable() ==> r is Ok,
    {
        let mut serializer = Serializer::new();
        match msg.serialize(&mut serializer) {
            Ok(()) => {
                let bytes = serializer.into_bytes();
                let ghost written = bytes@;
                self.outgoing.push(bytes);
                proof {
                    let appended = choose|b: Seq<u8>|
                        #[trigger] msg.writes(b) && written == Seq::<u8>::empty() + b;
                    assert(appended =~= written);
                    assert(final(self).queued() =~= old(self).queued().push(written));
                }
                Ok(())
            },
            Err(e) => Err(e),
        }
    }

    /// Takes the queued messages out of the handle, oldest first.
    pub fn take_outgoing(&mut self) -> (r: Vec<Vec<u8>>)
        ensures
            final(self).raw() == old(self).raw(),
            final(self).queued() == Seq::<Seq<u8>>::empty(),
            message_views(r@) == old(self).queued(),
    {
        let mut taken: Vec<Vec<u8>> = Vec::new();
        std::mem::swap(&mut taken, &mut self.outgoing);
        assert(final(self).queued() =~= Seq::<Seq<u8>>::empty());
        taken
    }
}

} // verus!
