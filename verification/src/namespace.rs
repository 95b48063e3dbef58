//! A model of the rules of the kernel for the names of ports and for the
//! table of handles of one process.
//!
//! A value of [`PortNamespace`] is not the kernel and talks to none: it
//! holds in memory what a kernel would know of the ports that were
//! created, so that a configuration can be tried against the rules before
//! it is handed to the kernel, and a service can be exercised without one.

use crate::error::SysError;
use crate::port::{flags_allow_ns, flags_allow_ta, PortCfg, PortCfgView};
use vstd::prelude::*;
use vstd::string::*;

verus! {

/// A path must be shorter than this, in bytes.
pub const MAX_PORT_PATH_LEN: usize = 64;

/// Largest number of messages that a port queues.
pub const MAX_PORT_BUF_NUM: u32 = 64;

/// Largest size of a message of a port.
pub const MAX_PORT_BUF_SIZE: u32 = 4096;

/// Number of handles that a process can hold.
pub const MAX_USER_HANDLES: usize = 64;

/// What a place in the table of handles holds.
pub enum Slot {
    /// Nothing.
    Free,
    /// A port.
    Port(PortCfg),
    /// The end of a connection.
    Channel,
}

/// The length of a path in bytes.
pub open spec fn path_len(path: Seq<char>) -> usize {
    vstd::utf8::encode_utf8(path).len() as usize
}

/// Whether the kernel takes a configuration: the path is not empty and
/// shorter than [`MAX_PORT_PATH_LEN`], and the queue length and the message
/// size are at least one and at most their maxima.
pub open spec fn valid_port(cfg: PortCfgView) -> bool {
    &&& 0 < path_len(cfg.path) < MAX_PORT_PATH_LEN
    &&& 0 < cfg.msg_queue_len <= MAX_PORT_BUF_NUM
    &&& 0 < cfg.msg_max_size <= MAX_PORT_BUF_SIZE
}

/// The path of the port in a place of the table, if the place holds a port.
pub open spec fn port_path(slot: Slot) -> Option<Seq<char>> {
    match slot {
        Slot::Port(cfg) => Some(cfg@.path),
        _ => None,
    }
}

/// The flags of the port in a place of the table; none for a place that
/// holds no port.
pub open spec fn port_flags(slot: Slot) -> u32 {
    match slot {
        Slot::Port(cfg) => cfg@.flags,
        _ => 0,
    }
}

/// Whether a port with the path is in the table.
pub open spec fn path_in_use(table: Seq<Slot>, path: Seq<char>) -> bool {
    exists|i: int| 0 <= i < table.len() && port_path(#[trigger] table[i]) == Some(path)
}

/// No two ports of the table have the same path.
pub open spec fn distinct_paths(table: Seq<Slot>) -> bool {
    forall|a: int, b: int|
        0 <= a < b < table.len() && port_path(#[trigger] table[a]) is Some ==> port_path(table[a])
            != port_path(#[trigger] table[b])
}

/// Whether a place of the table is free.
pub open spec fn has_room(table: Seq<Slot>) -> bool {
    exists|i: int| 0 <= i < table.len() && (#[trigger] table[i]) is Free
}

/// The first free place of the table; the length of the table if no place
/// is free.
pub open spec fn first_free(table: Seq<Slot>) -> int
    decreases table.len(),
{
    if table.len() == 0 || table[0] is Free {
        0
    } else {
        1 + first_free(table.drop_first())
    }
}

/// A place before which no place is free, and which is free or the end of
/// the table, is the first free place.
pub proof fn lemma_first_free_is(table: Seq<Slot>, at: int)
    requires
        0 <= at <= table.len(),
        forall|j: int| 0 <= j < at ==> !((#[trigger] table[j]) is Free),
        at < table.len() ==> table[at] is Free,
    ensures
        first_free(table) == at,
        has_room(table) <==> at < table.len(),
    decreases table.len(),
{
    if table.len() > 0 && !(table[0] is Free) {
        let rest = table.drop_first();
        assert forall|j: int| 0 <= j < at - 1 implies !((#[trigger] rest[j]) is Free) by {
            assert(rest[j] == table[j + 1]);
        }
        lemma_first_free_is(rest, at - 1);
    }
    if has_room(table) && at == table.len() {
        let i = choose|i: int| 0 <= i < table.len() && (#[trigger] table[i]) is Free;
        assert(!(table[i] is Free));
    }
}

/// The first free place is free, no place before it is, and it is the
/// end of the table exactly when no place is free.
pub proof fn lemma_first_free(table: Seq<Slot>)
    ensures
        0 <= first_free(table) <= table.len(),
        first_free(table) < table.len() ==> table[first_free(table)] is Free,
        forall|j: int| 0 <= j < first_free(table) ==> !((#[trigger] table[j]) is Free),
        has_room(table) <==> first_free(table) < table.len(),
    decreases table.len(),
{
    if table.len() > 0 && !(table[0] is Free) {
        let rest = table.drop_first();
        lemma_first_free(rest);
        assert forall|j: int| 0 <= j < first_free(table) implies !((#[trigger] table[j]) is Free) by {
            if j > 0 {
                assert(rest[j - 1] == table[j]);
            }
        }
        if first_free(table) < table.len() {
            assert(rest[first_free(rest)] == table[first_free(table)]);
        }
    }
    lemma_first_free_is(table, first_free(table));
}

/// The answer of the kernel to the request to create a port: a
/// configuration that it does not take is `InvalidArgs`, a full table is
/// `NoResources`, a path that is taken is `AlreadyExists`; otherwise the
/// port gets the first free handle.
pub open spec fn creation(table: Seq<Slot>, cfg: PortCfgView) -> Result<int, SysError> {
    if !valid_port(cfg) {
        Err(SysError::InvalidArgs)
    } else if !has_room(table) {
        Err(SysError::NoResources)
    } else if path_in_use(table, cfg.path) {
        Err(SysError::AlreadyExists)
    } else {
        Ok(first_free(table))
    }
}

/// The ports and the handles of one process.
pub struct PortNamespace {
    slots: Vec<Slot>,
}

impl PortNamespace {
    /// The table of handles.
    pub closed spec fn table(&self) -> Seq<Slot> {
        self.slots@
    }

    /// The table has its full size.
    pub open spec fn wf(&self) -> bool {
        self.table().len() == MAX_USER_HANDLES && distinct_paths(self.table())
    }

    /// A table in which every handle is free.
    pub fn new() -> (r: Self)
        ensures
            r.wf(),
            forall|i: int| 0 <= i < r.table().len() ==> (#[trigger] r.table()[i]) is Free,
    {
        let mut slots: Vec<Slot> = Vec::new();
        let mut n: usize = 0;
        while n < MAX_USER_HANDLES
            invariant
                n <= MAX_USER_HANDLES,
                slots@.len() == n,
                forall|i: int| 0 <= i < n ==> (#[trigger] slots@[i]) is Free,
            decreases MAX_USER_HANDLES - n,
        {
            slots.push(Slot::Free);
            n = n + 1;
        }
        PortNamespace { slots }
    }

    /// The first free handle, or the size of the table if none is free.
    pub fn first_free_handle_index(&self) -> (r: usize)
        ensures
            r <= self.table().len(),
            r < self.table().len() ==> has_room(self.table()) && r == first_free(self.table()),
            r == self.table().len() ==> !has_room(self.table()),
    {
        let mut i: usize = 0;
        while i < self.slots.len()
            invariant
                i <= self.slots@.len(),
                forall|j: int| 0 <= j < i ==> !((#[trigger] self.slots@[j]) is Free),
            decreases self.slots@.len() - i,
        {
            if let Slot::Free = self.slots[i] {
                proof {
                    lemma_first_free_is(self.slots@, i as int);
                }
                return i;
            }
            i = i + 1;
        }
        proof {
            lemma_first_free_is(self.slots@, i as int);
        }
        i
    }

    /// Whether a port with the path is in the table, and where.
    fn find_port(&self, path: &str) -> (r: Option<usize>)
        ensures
            r is Some <==> path_in_use(self.table(), path@),
            r matches Some(i) ==> i < self.table().len() && port_path(self.table()[i as int]) == Some(
                path@,
            ),
    {
        let wanted = path.to_owned();
        let mut i: usize = 0;
        while i < self.slots.len()
            invariant
                i <= self.slots@.len(),
                wanted@ == path@,
                forall|j: int| 0 <= j < i ==> port_path(#[trigger] self.slots@[j]) != Some(path@),
            decreases self.slots@.len() - i,
        {
            if let Slot::Port(cfg) = &self.slots[i] {
                if cfg.path().to_owned() == wanted {
                    return Some(i);
                }
            }
            i = i + 1;
        }
        None
    }

    /// Creates the port of `cfg` and gives its handle, as [`creation`]
    /// says.
    pub fn port_create(&mut self, cfg: &PortCfg) -> (r: Result<i32, SysError>)
        requires
            old(self).wf(),
        ensures
            final(self).wf(),
            match creation(old(self).table(), cfg@) {
                Ok(at) => {
                    &&& r == Ok::<i32, SysError>(at as i32)
                    &&& 0 <= at < MAX_USER_HANDLES
                    &&& old(self).table()[at] is Free
                    &&& final(self).table()[at] matches Slot::Port(c)
                    &&& c@ == cfg@
                    &&& forall|i: int|
                        0 <= i < MAX_USER_HANDLES && i != at ==> #[trigger] final(self).table()[i]
                            == old(self).table()[i]
                },
                Err(e) => r == Err::<i32, SysError>(e) && final(self).table() == old(self).table(),
            },
    {
        let path_len = cfg.path().len();
        if path_len == 0 || path_len >= MAX_PORT_PATH_LEN || cfg.queue_len() == 0 || cfg.queue_len()
            > MAX_PORT_BUF_NUM || cfg.max_size() == 0 || cfg.max_size() > MAX_PORT_BUF_SIZE {
            return Err(SysError::InvalidArgs);
        }
        let at = self.first_free_handle_index();
        if at >= self.slots.len() {
            return Err(SysError::NoResources);
        }
        if self.find_port(cfg.path()).is_some() {
            return Err(SysError::AlreadyExists);
        }
        let copy = match cfg.try_clone() {
            Ok(copy) => copy,
            Err(_) => {
                return Err(SysError::NoResources);
            },
        };
        let ghost before = self.slots@;
        proof {
            lemma_first_free(before);
        }
        self.slots.set(at, Slot::Port(copy));
        proof {
            assert forall|a: int, b: int|
                0 <= a < b < self.slots@.len() && port_path(
                    #[trigger] self.slots@[a],
                ) is Some implies port_path(self.slots@[a]) != port_path(
                #[trigger] self.slots@[b]) by {
                if a != at && b != at {
                    assert(port_path(before[a]) != port_path(before[b]));
                } else if a == at {
                    assert(port_path(before[b]) != Some(cfg@.path));
                } else {
                    assert(port_path(before[a]) != Some(cfg@.path));
                }
            }
        }
        Ok(at as i32)
    }

    /// What a peer that asks for a connection to `path` gets: `NotFound`
    /// if no port has the path, `AccessDenied` if the port does not admit
    /// peers from the side of the peer, `NoResources` if the table is full;
    /// otherwise the first free handle.
    pub open spec fn connection(table: Seq<Slot>, path: Seq<char>, secure: bool) -> Result<
        int,
        SysError,
    > {
        if !path_in_use(table, path) {
            Err(SysError::NotFound)
        } else if !Self::admitted(table, path, secure) {
            Err(SysError::AccessDenied)
        } else if !has_room(table) {
            Err(SysError::NoResources)
        } else {
            Ok(first_free(table))
        }
    }

    /// Whether the port with the path admits a peer from the secure side
    /// (`secure`) or from the non-secure side.
    pub open spec fn admitted(table: Seq<Slot>, path: Seq<char>, secure: bool) -> bool {
        exists|i: int|
            0 <= i < table.len() && port_path(#[trigger] table[i]) == Some(path) && if secure {
                flags_allow_ta(port_flags(table[i]))
            } else {
                flags_allow_ns(port_flags(table[i]))
            }
    }

    /// Connects a peer to the port `path` and gives the handle of its end
    /// of the connection, as [`PortNamespace::connection`] says.
    pub fn connect(&mut self, path: &str, secure: bool) -> (r: Result<i32, SysError>)
        requires
            old(self).wf(),
        ensures
            final(self).wf(),
            match Self::connection(old(self).table(), path@, secure) {
                Ok(at) => {
                    &&& r == Ok::<i32, SysError>(at as i32)
                    &&& 0 <= at < MAX_USER_HANDLES
                    &&& final(self).table() == old(self).table().update(at, Slot::Channel)
                },
                Err(e) => r == Err::<i32, SysError>(e) && final(self).table() == old(self).table(),
            },
    {
        let port = match self.find_port(path) {
            Some(i) => i,
            None => {
                return Err(SysError::NotFound);
            },
        };
        let admits = match &self.slots[port] {
            Slot::Port(cfg) => cfg.admits(secure),
            _ => false,
        };
        proof {
            if Self::admitted(self.table(), path@, secure) {
                let i = choose|i: int|
                    0 <= i < self.table().len() && port_path(#[trigger] self.table()[i]) == Some(
                        path@,
                    ) && if secure {
                        flags_allow_ta(port_flags(self.table()[i]))
                    } else {
                        flags_allow_ns(port_flags(self.table()[i]))
                    };
                if i < port {
                    assert(port_path(self.table()[i]) != port_path(self.table()[port as int]));
                }
                if port < i {
                    assert(port_path(self.table()[port as int]) != port_path(self.table()[i]));
                }
            }
        }
        if !admits {
            return Err(SysError::AccessDenied);
        }
        let at = self.first_free_handle_index();
        if at >= self.slots.len() {
            return Err(SysError::NoResources);
        }
        self.slots.set(at, Slot::Channel);
        Ok(at as i32)
    }

    /// Closes a handle. A handle that is not in use is `NotFound`.
    pub fn close(&mut self, handle: i32) -> (r: Result<(), SysError>)
        requires
            old(self).wf(),
        ensures
            final(self).wf(),
            r is Ok <==> 0 <= handle < MAX_USER_HANDLES && !(old(self).table()[handle as int] is Free),
            r is Ok ==> final(self).table() == old(self).table().update(handle as int, Slot::Free),
            r matches Err(e) ==> e == SysError::NotFound && final(self).table() == old(self).table(),
    {
        if handle < 0 || handle as usize >= self.slots.len() {
            return Err(SysError::NotFound);
        }
        if let Slot::Free = self.slots[handle as usize] {
            return Err(SysError::NotFound);
        }
        self.slots.set(handle as usize, Slot::Free);
        Ok(())
    }
}

/// A port whose configuration the kernel takes and whose path is free is
/// created, as long as the table has room; a second creation with the same
/// path then fails, with `AlreadyExists` if the table still has room.
pub proof fn lemma_port_created_once(table: Seq<Slot>, cfg: PortCfg, at: int)
    requires
        valid_port(cfg@),
        !path_in_use(table, cfg@.path),
        has_room(table),
        at == first_free(table),
    ensures
        creation(table, cfg@) == Ok::<int, SysError>(at),
        has_room(table.update(at, Slot::Port(cfg))) ==> creation(
            table.update(at, Slot::Port(cfg)),
            cfg@,
        ) == Err::<int, SysError>(SysError::AlreadyExists),
        !has_room(table.update(at, Slot::Port(cfg))) ==> creation(
            table.update(at, Slot::Port(cfg)),
            cfg@,
        ) == Err::<int, SysError>(SysError::NoResources),
{
    lemma_first_free(table);
    let after = table.update(at, Slot::Port(cfg));
    assert(port_path(after[at]) == Some(cfg@.path));
}

} // verus!
