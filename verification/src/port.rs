//! Description of a service port.

use crate::error::TipcError;
use vstd::prelude::*;
use vstd::std_specs::cmp::PartialEqSpecImpl;

verus! {

/// Flag of a port that peers from the secure side may connect to.
pub const IPC_PORT_ALLOW_TA_CONNECT: u32 = 0x1;

/// Flag of a port that peers from the non-secure side may connect to.
pub const IPC_PORT_ALLOW_NS_CONNECT: u32 = 0x2;

/// Queue length of a port that was given none.
pub const DEFAULT_MSG_QUEUE_LEN: u32 = 1;

/// Largest message of a port that was given no limit.
pub const DEFAULT_MSG_MAX_SIZE: u32 = 4096;

/// Mathematical value of a [`PortCfg`].
pub struct PortCfgView {
    pub path: Seq<char>,
    pub msg_queue_len: u32,
    pub msg_max_size: u32,
    pub flags: u32,
}

/// Whether a set of port flags admits peers from the secure side.
pub open spec fn flags_allow_ta(flags: u32) -> bool {
    flags & IPC_PORT_ALLOW_TA_CONNECT != 0
}

/// Whether a set of port flags admits peers from the non-secure side.
pub open spec fn flags_allow_ns(flags: u32) -> bool {
    flags & IPC_PORT_ALLOW_NS_CONNECT != 0
}

/// The settings of a service port: its path, the number of messages it
/// queues, the largest message it takes and the peers it admits. A value is
/// built once, by chaining, and not changed afterwards.
#[derive(Debug)]
pub struct PortCfg {
    path: String,
    msg_queue_len: u32,
    msg_max_size: u32,
    flags: u32,
}

impl View for PortCfg {
    type V = PortCfgView;

    closed spec fn view(&self) -> PortCfgView {
        PortCfgView {
            path: self.path@,
            msg_queue_len: self.msg_queue_len,
            msg_max_size: self.msg_max_size,
            flags: self.flags,
        }
    }
}

impl PartialEq for PortCfg {
    fn eq(&self, other: &Self) -> (r: bool) {
        self.path == other.path && self.msg_queue_len == other.msg_queue_len && self.msg_max_size
            == other.msg_max_size && self.flags == other.flags
    }
}

impl PartialEqSpecImpl for PortCfg {
    open spec fn obeys_eq_spec() -> bool {
        true
    }

    open spec fn eq_spec(&self, other: &Self) -> bool {
        self@ == other@
    }
}

impl Eq for PortCfg {

}

impl PortCfg {
    /// A configuration for `path` with the default queue length and message
    /// size and no peers admitted. A path that holds a NUL character cannot
    /// name a port and is refused with `InvalidPort`.
    pub fn new(path: &str) -> (r: Result<Self, TipcError>)
        ensures
            r is Ok <==> !path@.contains('\0'),
            r matches Ok(cfg) ==> cfg@ == (PortCfgView {
                path: path@,
                msg_queue_len: DEFAULT_MSG_QUEUE_LEN,
                msg_max_size: DEFAULT_MSG_MAX_SIZE,
                flags: 0,
            }),
            r matches Err(e) ==> e == TipcError::InvalidPort,
    {
        if has_nul(path) {
            return Err(TipcError::InvalidPort);
        }
        Ok(
            PortCfg {
                path: path.to_owned(),
                msg_queue_len: DEFAULT_MSG_QUEUE_LEN,
                msg_max_size: DEFAULT_MSG_MAX_SIZE,
                flags: 0,
            },
        )
    }

    /// A configuration for a path that the caller already owns, with the same
    /// defaults as [`PortCfg::new`].
    pub fn new_raw(path: String) -> (r: Self)
        ensures
            r@ == (PortCfgView {
                path: path@,
                msg_queue_len: DEFAULT_MSG_QUEUE_LEN,
                msg_max_size: DEFAULT_MSG_MAX_SIZE,
                flags: 0,
            }),
    {
        PortCfg {
            path,
            msg_queue_len: DEFAULT_MSG_QUEUE_LEN,
            msg_max_size: DEFAULT_MSG_MAX_SIZE,
            flags: 0,
        }
    }

    /// The same configuration with another queue length.
    pub fn msg_queue_len(self, msg_queue_len: u32) -> (r: Self)
        ensures
            r@ == (PortCfgView { msg_queue_len, ..self@ }),
    {
        PortCfg { msg_queue_len, ..self }
    }

    /// The same configuration with another largest message size.
    pub fn msg_max_size(self, msg_max_size: u32) -> (r: Self)
        ensures
            r@ == (PortCfgView { msg_max_size, ..self@ }),
    {
        PortCfg { msg_max_size, ..self }
    }

    /// The same configuration, open to peers from the non-secure side.
    pub fn allow_ns_connect(self) -> (r: Self)
        ensures
            r@ == (PortCfgView { flags: self@.flags | IPC_PORT_ALLOW_NS_CONNECT, ..self@ }),
            flags_allow_ns(r@.flags),
            flags_allow_ta(r@.flags) == flags_allow_ta(self@.flags),
    {
        let flags = self.flags;
        assert((flags | 0x2u32) & 0x2u32 != 0 && ((flags | 0x2u32) & 0x1u32 != 0) == (flags & 0x1u32
            != 0)) by (bit_vector);
        PortCfg { flags: flags | IPC_PORT_ALLOW_NS_CONNECT, ..self }
    }

    /// The same configuration, open to peers from the secure side.
    pub fn allow_ta_connect(self) -> (r: Self)
        ensures
            r@ == (PortCfgView { flags: self@.flags | IPC_PORT_ALLOW_TA_CONNECT, ..self@ }),
            flags_allow_ta(r@.flags),
            flags_allow_ns(r@.flags) == flags_allow_ns(self@.flags),
    {
        let flags = self.flags;
        assert((flags | 0x1u32) & 0x1u32 != 0 && ((flags | 0x1u32) & 0x2u32 != 0) == (flags & 0x2u32
            != 0)) by (bit_vector);
        PortCfg { flags: flags | IPC_PORT_ALLOW_TA_CONNECT, ..self }
    }

    /// A copy of the configuration.
    pub fn try_clone(&self) -> (r: Result<Self, TipcError>)
        ensures
            r matches Ok(cfg) && cfg@ == self@,
    {
        Ok(
            PortCfg {
                path: self.path.clone(),
                msg_queue_len: self.msg_queue_len,
                msg_max_size: self.msg_max_size,
                flags: self.flags,
            },
        )
    }

    /// The path that names the port.
    pub fn path(&self) -> (r: &str)
        ensures
            r@ == self@.path,
    {
        self.path.as_str()
    }

    /// The number of messages the port queues.
    pub fn queue_len(&self) -> (r: u32)
        ensures
            r == self@.msg_queue_len,
    {
        self.msg_queue_len
    }

    /// The size of the largest message the port takes.
    pub fn max_size(&self) -> (r: u32)
        ensures
            r == self@.msg_max_size,
    {
        self.msg_max_size
    }

    /// The flags that say which peers the port admits.
    pub fn flags(&self) -> (r: u32)
        ensures
            r == self@.flags,
    {
        self.flags
    }

    /// Whether the port admits a peer from the secure side (`secure`) or from
    /// the non-secure side.
    pub fn admits(&self, secure: bool) -> (r: bool)
        ensures
            r == if secure {
                flags_allow_ta(self@.flags)
            } else {
                flags_allow_ns(self@.flags)
            },
    {
        if secure {
            self.flags & IPC_PORT_ALLOW_TA_CONNECT != 0
        } else {
            self.flags & IPC_PORT_ALLOW_NS_CONNECT != 0
        }
    }
}

/// Whether `path` holds a NUL character.
fn has_nul(path: &str) -> (r: bool)
    ensures
        r == path@.contains('\0'),
{
    broadcast use vstd::string::is_ascii_spec_bytes;

    if path.is_ascii() {
        let bytes = path.as_bytes();
        let mut i: usize = 0;
        while i < bytes.len()
            invariant
                i <= bytes@.len(),
                bytes@.len() == path@.len(),
                forall|k: int| 0 <= k < bytes@.len() ==> bytes@[k] == path@[k] as u8,
                forall|k: int| 0 <= k < bytes@.len() ==> '\0' <= #[trigger] path@[k] <= '\u{7f}',
                forall|k: int| 0 <= k < i ==> path@[k] != '\0',
            decreases bytes@.len() - i,
        {
            if bytes[i] == 0 {
                assert('\0' <= path@[i as int] <= '\u{7f}');
                assert(path@[i as int] == '\0');
                return true;
            }
            assert('\0' <= path@[i as int] <= '\u{7f}');
            i = i + 1;
        }
        false
    } else {
        let n = path.unicode_len();
        let mut i: usize = 0;
        while i < n
            invariant
                i <= n,
                n == path@.len(),
                forall|k: int| 0 <= k < i ==> path@[k] != '\0',
            decreases n - i,
        {
            if path.get_char(i) == '\0' {
                return true;
            }
            i = i + 1;
        }
        false
    }
}

} // verus!
