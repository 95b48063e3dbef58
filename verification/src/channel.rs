//! A handle together with what it stands for: a port or a connection.

use crate::error::{SysError, TipcError};
use crate::handle::Handle;
use crate::port::PortCfg;
use vstd::prelude::*;

verus! {

/// What a channel stands for.
#[derive(Debug)]
pub enum ChannelTy<C> {
    /// A service port, with the configuration it was created from.
    Port(PortCfg),
    /// A connection of a client, with the state that the service keeps for it.
    Connection(C),
}

/// A port or a connection of the service, with its handle.
#[derive(Debug)]
pub struct Channel<C> {
    pub handle: Handle,
    pub ty: ChannelTy<C>,
}

impl<C> Channel<C> {
    /// The handle of the channel.
    pub fn handle(&self) -> (r: &Handle)
        ensures
            *r == self.handle,
    {
        &self.handle
    }

    /// Whether the channel is a port.
    pub fn is_port(&self) -> (r: bool)
        ensures
            r == (self.ty is Port),
    {
        match self.ty {
            ChannelTy::Port(..) => true,
            _ => false,
        }
    }

    /// Whether the channel is a connection.
    pub fn is_connection(&self) -> (r: bool)
        ensures
            r == (self.ty is Connection),
    {
        match self.ty {
            ChannelTy::Connection(..) => true,
            _ => false,
        }
    }

    /// Whether two channels have the same descriptor.
    pub fn same_as(&self, other: &Self) -> (r: bool)
        ensures
            r == (self.handle.raw() == other.handle.raw()),
    {
        self.handle.as_raw_fd() == other.handle.as_raw_fd()
    }

    /// The channel of a port, from the configuration of the port and the
    /// answer of the kernel to the request to create it: the descriptor of
    /// the new port, or the reason of the refusal.
    pub fn try_new_port(cfg: &PortCfg, created: Result<i32, SysError>) -> (r: Result<
        Self,
        TipcError,
    >)
        ensures
            r is Ok <==> (created matches Ok(fd) && fd >= 0),
            r matches Ok(ch) ==> {
                &&& ch.handle.raw() == created->Ok_0
                &&& ch.handle.queued() == Seq::<Seq<u8>>::empty()
                &&& ch.ty matches ChannelTy::Port(c)
                &&& c@ == cfg@
            },
            r matches Err(e) ==> e == match created {
                Ok(_) => TipcError::InvalidHandle,
                Err(sys) => TipcError::SystemError(sys),
            },
    {
        match created {
            Err(sys) => Err(TipcError::SystemError(sys)),
            Ok(fd) => {
                let handle = match Handle::from_raw(fd) {
                    Ok(h) => h,
                    Err(e) => {
                        return Err(e);
                    },
                };
                let cfg = match cfg.try_clone() {
                    Ok(c) => c,
                    Err(e) => {
                        return Err(e);
                    },
                };
                Ok(Channel { handle, ty: ChannelTy::Port(cfg) })
            },
        }
    }

    /// The channel of a connection, from its handle and the state that the
    /// service keeps for it.
    pub fn try_new_connection(handle: Handle, data: C) -> (r: Result<Self, TipcError>)
        ensures
            r matches Ok(ch) && ch.handle == handle && ch.ty == ChannelTy::Connection(data),
    {
        Ok(Channel { handle, ty: ChannelTy::Connection(data) })
    }
}

} // verus!
