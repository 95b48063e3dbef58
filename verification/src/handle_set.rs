//! The registry of the live channels of a service: its ports, and the
//! connections that its clients have open.
//!
//! A channel is found again by its cookie, a small number that the registry
//! gives out and that the kernel hands back with every event of the
//! channel. Ports have the cookies below `PORT_COUNT`; a connection keeps
//! the cookie it was given for as long as it is open.

use crate::channel::{Channel, ChannelTy};
use crate::error::TipcError;
use vstd::prelude::*;

verus! {

/// Number of connections in a run of slots.
pub open spec fn occupied<C>(slots: Seq<Option<Channel<C>>>) -> nat
    decreases slots.len(),
{
    if slots.len() == 0 {
        0
    } else {
        occupied(slots.drop_last()) + if slots.last() is Some {
            1nat
        } else {
            0nat
        }
    }
}

/// The ports and the open connections of one service.
pub struct HandleSet<C, const PORT_COUNT: usize, const MAX_CONNECTION_COUNT: usize> {
    ports: Vec<Channel<C>>,
    connections: Vec<Option<Channel<C>>>,
}

impl<C, const PORT_COUNT: usize, const MAX_CONNECTION_COUNT: usize> HandleSet<
    C,
    PORT_COUNT,
    MAX_CONNECTION_COUNT,
> {
    /// The ports, in the order of their cookies.
    pub closed spec fn ports(&self) -> Seq<Channel<C>> {
        self.ports@
    }

    /// The slots for connections; slot `s` belongs to cookie `PORT_COUNT + s`.
    pub closed spec fn slots(&self) -> Seq<Option<Channel<C>>> {
        self.connections@
    }

    /// The registry holds exactly its ports, which are ports, and no more
    /// connections than it has room for, which are connections.
    pub open spec fn wf(&self) -> bool {
        &&& self.ports().len() == PORT_COUNT
        &&& forall|i: int| 0 <= i < self.ports().len() ==> (#[trigger] self.ports()[i]).ty is Port
        &&& self.slots().len() <= MAX_CONNECTION_COUNT
        &&& forall|i: int|
            0 <= i < self.slots().len() ==> ((#[trigger] self.slots()[i]) matches Some(ch)
                ==> ch.ty is Connection)
        &&& PORT_COUNT + MAX_CONNECTION_COUNT <= usize::MAX
    }

    /// The channel that a cookie stands for, if any.
    pub open spec fn lookup(&self, cookie: int) -> Option<Channel<C>> {
        if 0 <= cookie < self.ports().len() {
            Some(self.ports()[cookie])
        } else if self.ports().len() <= cookie < self.ports().len() + self.slots().len() {
            self.slots()[cookie - self.ports().len()]
        } else {
            None
        }
    }

    /// Number of open connections.
    pub open spec fn connection_count(&self) -> nat {
        occupied(self.slots())
    }

    /// A registry for the given ports, with no connection. The ports must
    /// be `PORT_COUNT` in number (`OutOfBounds` otherwise) and all of them
    /// ports (`InvalidPort` otherwise).
    #[verifier::loop_isolation(false)]
    pub fn try_new(ports: Vec<Channel<C>>) -> (r: Result<Self, TipcError>)
        ensures
            r is Ok <==> {
                &&& ports@.len() == PORT_COUNT
                &&& PORT_COUNT + MAX_CONNECTION_COUNT <= usize::MAX
                &&& forall|i: int| 0 <= i < ports@.len() ==> (#[trigger] ports@[i]).ty is Port
            },
            r matches Ok(set) ==> {
                &&& set.wf()
                &&& set.ports() == ports@
                &&& set.slots() == Seq::<Option<Channel<C>>>::empty()
                &&& set.connection_count() == 0
            },
            r matches Err(e) ==> e == if ports@.len() != PORT_COUNT || PORT_COUNT
                + MAX_CONNECTION_COUNT > usize::MAX {
                TipcError::OutOfBounds
            } else {
                TipcError::InvalidPort
            },
    {
        if ports.len() != PORT_COUNT || PORT_COUNT > usize::MAX - MAX_CONNECTION_COUNT {
            return Err(TipcError::OutOfBounds);
        }
        let mut i: usize = 0;
        while i < ports.len()
            invariant
                i <= ports@.len(),
                forall|k: int| 0 <= k < i ==> (#[trigger] ports@[k]).ty is Port,
            decreases ports@.len() - i,
        {
            if !ports[i].is_port() {
                return Err(TipcError::InvalidPort);
            }
            i = i + 1;
        }
        Ok(HandleSet { ports, connections: Vec::new() })
    }

    /// Number of open connections.
    #[verifier::loop_isolation(false)]
    pub fn count_connections(&self) -> (r: usize)
        requires
            self.wf(),
        ensures
            r == self.connection_count(),
            r <= MAX_CONNECTION_COUNT,
    {
        let mut n: usize = 0;
        let mut i: usize = 0;
        assert(self.connections@.subrange(0, 0) =~= Seq::<Option<Channel<C>>>::empty());
        while i < self.connections.len()
            invariant
                i <= self.connections@.len(),
                self.connections@.len() <= MAX_CONNECTION_COUNT,
                n == occupied(self.connections@.subrange(0, i as int)),
                n <= i,
            decreases self.connections@.len() - i,
        {
            assert(self.connections@.subrange(0, i + 1).drop_last() =~= self.connections@.subrange(
                0,
                i as int,
            ));
            if self.connections[i].is_some() {
                n = n + 1;
            }
            i = i + 1;
        }
        assert(self.connections@.subrange(0, i as int) =~= self.connections@);
        n
    }

    /// The first slot that holds no connection.
    fn first_free(&self) -> (r: Option<usize>)
        ensures
            r matches Some(i) ==> i < self.slots().len() && self.slots()[i as int] is None,
            r is None ==> forall|k: int|
                0 <= k < self.slots().len() ==> (#[trigger] self.slots()[k]) is Some,
    {
        let mut i: usize = 0;
        while i < self.connections.len()
            invariant
                i <= self.connections@.len(),
                forall|k: int| 0 <= k < i ==> (#[trigger] self.connections@[k]) is Some,
            decreases self.connections@.len() - i,
        {
            if self.connections[i].is_none() {
                return Some(i);
            }
            i = i + 1;
        }
        None
    }

    /// Adds a connection and gives its cookie. When all
    /// `MAX_CONNECTION_COUNT` places are taken the registry is left as it
    /// was and the channel comes back with `OutOfBounds`; a channel that is
    /// no connection comes back with `InvalidData`.
    pub fn add_connection(&mut self, channel: Channel<C>) -> (r: Result<
        usize,
        (TipcError, Channel<C>),
    >)
        requires
            old(self).wf(),
        ensures
            final(self).wf(),
            final(self).ports() == old(self).ports(),
            r is Ok <==> channel.ty is Connection && old(self).connection_count()
                < MAX_CONNECTION_COUNT,
            r matches Ok(cookie) ==> {
                &&& PORT_COUNT <= cookie < PORT_COUNT + MAX_CONNECTION_COUNT
                &&& old(self).lookup(cookie as int) is None
                &&& final(self).lookup(cookie as int) == Some(channel)
                &&& forall|c: int| c != cookie ==> final(self).lookup(c) == old(self).lookup(c)
                &&& final(self).connection_count() == old(self).connection_count() + 1
            },
            r matches Err(back) ==> {
                &&& final(self).slots() == old(self).slots()
                &&& back.1 == channel
                &&& back.0 == if channel.ty is Connection {
                    TipcError::OutOfBounds
                } else {
                    TipcError::InvalidData
                }
            },
    {
        if !channel.is_connection() {
            return Err((TipcError::InvalidData, channel));
        }
        proof {
            lemma_occupied_all(self.connections@);
        }
        match self.first_free() {
            Some(i) => {
                proof {
                    lemma_occupied_update(self.connections@, i as int, Some(channel));
                }
                self.connections.set(i, Some(channel));
                return Ok(PORT_COUNT + i);
            },
            None => {},
        }
        let used = self.connections.len();
        if used < MAX_CONNECTION_COUNT {
            let ghost before = self.connections@;
            self.connections.push(Some(channel));
            proof {
                assert(self.connections@.drop_last() =~= before);
            }
            return Ok(PORT_COUNT + used);
        }
        Err((TipcError::OutOfBounds, channel))
    }

    /// The channel that a cookie stands for, if any.
    pub fn resolve(&self, cookie: usize) -> (r: Option<&Channel<C>>)
        requires
            self.wf(),
        ensures
            r is Some <==> self.lookup(cookie as int) is Some,
            r matches Some(ch) ==> Some(*ch) == self.lookup(cookie as int),
    {
        if cookie < PORT_COUNT {
            Some(&self.ports[cookie])
        } else if cookie - PORT_COUNT < self.connections.len() {
            self.connections[cookie - PORT_COUNT].as_ref()
        } else {
            None
        }
    }

    /// Takes the connection with the given cookie out of the registry, so
    /// that its handle can be closed. Ports stay: for the cookie of a port,
    /// or of no channel, nothing changes and the answer is `None`.
    pub fn close(&mut self, cookie: usize) -> (r: Option<Channel<C>>)
        requires
            old(self).wf(),
        ensures
            final(self).wf(),
            final(self).ports() == old(self).ports(),
            final(self).slots().len() == old(self).slots().len(),
            r == if cookie >= PORT_COUNT {
                old(self).lookup(cookie as int)
            } else {
                None
            },
            r is Some ==> final(self).lookup(cookie as int) is None,
            r is Some ==> final(self).connection_count() == old(self).connection_count() - 1,
            r is None ==> final(self).slots() == old(self).slots(),
            forall|c: int| c != cookie ==> final(self).lookup(c) == old(self).lookup(c),
    {
        if cookie < PORT_COUNT || cookie - PORT_COUNT >= self.connections.len() {
            return None;
        }
        let slot = cookie - PORT_COUNT;
        if self.connections[slot].is_none() {
            return None;
        }
        proof {
            lemma_occupied_update(self.connections@, slot as int, None);
        }
        let mut taken: Option<Channel<C>> = None;
        std::mem::swap(&mut taken, &mut self.connections[slot]);
        taken
    }

    /// Puts a connection back under the cookie it was taken from.
    pub(crate) fn put_back(&mut self, cookie: usize, channel: Channel<C>)
        requires
            old(self).wf(),
            channel.ty is Connection,
            PORT_COUNT <= cookie < PORT_COUNT + old(self).slots().len(),
            old(self).lookup(cookie as int) is None,
        ensures
            final(self).wf(),
            final(self).ports() == old(self).ports(),
            final(self).slots().len() == old(self).slots().len(),
            final(self).lookup(cookie as int) == Some(channel),
            forall|c: int| c != cookie ==> final(self).lookup(c) == old(self).lookup(c),
            final(self).connection_count() == old(self).connection_count() + 1,
    {
        let slot = cookie - PORT_COUNT;
        proof {
            lemma_occupied_update(self.connections@, slot as int, Some(channel));
        }
        self.connections.set(slot, Some(channel));
    }
}

/// Changing one slot changes the number of connections by what the slot
/// gains or loses.
pub proof fn lemma_occupied_update<C>(
    slots: Seq<Option<Channel<C>>>,
    i: int,
    v: Option<Channel<C>>,
)
    requires
        0 <= i < slots.len(),
    ensures
        occupied(slots.update(i, v)) + (if slots[i] is Some {
            1nat
        } else {
            0nat
        }) == occupied(slots) + (if v is Some {
            1nat
        } else {
            0nat
        }),
    decreases slots.len(),
{
    let after = slots.update(i, v);
    if i == slots.len() - 1 {
        assert(after.drop_last() =~= slots.drop_last());
    } else {
        lemma_occupied_update(slots.drop_last(), i, v);
        assert(after.drop_last() =~= slots.drop_last().update(i, v));
    }
}

/// There are at most as many connections as slots, and exactly as many
/// when no slot is free.
pub proof fn lemma_occupied_all<C>(slots: Seq<Option<Channel<C>>>)
    ensures
        occupied(slots) <= slots.len(),
        occupied(slots) == slots.len() <==> forall|i: int|
            0 <= i < slots.len() ==> (#[trigger] slots[i]) is Some,
    decreases slots.len(),
{
    if slots.len() > 0 {
        let init = slots.drop_last();
        lemma_occupied_all(init);
        if occupied(slots) == slots.len() {
            assert forall|i: int| 0 <= i < slots.len() implies (#[trigger] slots[i]) is Some by {
                if i < init.len() {
                    assert(init[i] is Some);
                }
            }
        }
        if forall|i: int| 0 <= i < slots.len() ==> (#[trigger] slots[i]) is Some {
            assert forall|i: int| 0 <= i < init.len() implies (#[trigger] init[i]) is Some by {
                assert(slots[i] is Some);
            }
        }
    }
}

} // verus!
