//! The callbacks through which a service takes part in the event loop.

use crate::codec::{decode, decode_outcome, Deserialize};
use crate::error::TipcError;
use crate::handle::{Handle, MAX_MSG_HANDLES};
use crate::port::PortCfg;
use crate::uuid::Uuid;
use vstd::prelude::*;

verus! {

/// The answer of a service to a client that wants to connect.
#[derive(Debug)]
pub enum ConnectResult<C> {
    /// The connection is accepted; the value is the state kept for it.
    Accept(C),
    /// The connection is refused and closed at once.
    CloseConnection,
}

/// The answer of a service to a message.
#[derive(Clone, Copy, Debug, PartialEq, Eq, Structural)]
pub enum MessageResult {
    /// The connection stays open.
    MaintainConnection,
    /// The connection is closed.
    CloseConnection,
}

/// A service whose messages are rebuilt from the received bytes before it
/// sees them.
pub trait Service {
    /// State that the service keeps for each connection.
    type Connection;

    /// The messages that the service receives.
    type Message: Deserialize;

    /// What `on_connect` may answer.
    open spec fn connects(
        &self,
        port: &PortCfg,
        handle: &Handle,
        peer: &Uuid,
        r: Result<ConnectResult<Self::Connection>, TipcError>,
    ) -> bool {
        true
    }

    /// What `on_message` may answer, and what it may leave in the state of
    /// the connection and in its handle.
    open spec fn handles(
        &self,
        connection: &Self::Connection,
        handle: &Handle,
        msg: &Self::Message,
        connection_after: &Self::Connection,
        handle_after: &Handle,
        r: Result<MessageResult, TipcError>,
    ) -> bool {
        true
    }

    /// Called when a client connects to `port`.
    fn on_connect(&self, port: &PortCfg, handle: &Handle, peer: &Uuid) -> (r: Result<
        ConnectResult<Self::Connection>,
        TipcError,
    >)
        ensures
            self.connects(port, handle, peer, r),
    ;

    /// Called with each message of a connection. Answers are sent through
    /// `handle`. The connection is closed when the result is
    /// `CloseConnection` or an error.
    fn on_message(
        &self,
        connection: &mut Self::Connection,
        handle: &mut Handle,
        msg: Self::Message,
    ) -> (r: Result<MessageResult, TipcError>)
        ensures
            self.handles(old(connection), old(handle), &msg, final(connection), final(handle), r),
            final(handle).raw() == old(handle).raw(),
    ;

    /// Called when the client has closed the connection.
    fn on_disconnect(&self, connection: &Self::Connection) {
    }
}

/// A service that reads its messages from the received bytes itself.
pub trait UnbufferedService {
    /// State that the service keeps for each connection.
    type Connection;

    /// What `on_connect` may answer.
    open spec fn accepts(
        &self,
        port: &PortCfg,
        handle: &Handle,
        peer: &Uuid,
        r: Result<ConnectResult<Self::Connection>, TipcError>,
    ) -> bool {
        true
    }

    /// What `on_message` may answer, and what it may leave in the state of
    /// the connection, in its handle and among the received handles.
    open spec fn serves(
        &self,
        connection: &Self::Connection,
        handle: &Handle,
        buffer: Seq<u8>,
        handles: Seq<Option<Handle>>,
        connection_after: &Self::Connection,
        handle_after: &Handle,
        handles_after: Seq<Option<Handle>>,
        r: Result<MessageResult, TipcError>,
    ) -> bool {
        true
    }

    /// The length of the longest message that the service takes. A service
    /// that does not say so leaves it open.
    open spec fn longest_message(&self) -> usize {
        arbitrary()
    }

    /// Called when a client connects to `port`.
    fn on_connect(&self, port: &PortCfg, handle: &Handle, peer: &Uuid) -> (r: Result<
        ConnectResult<Self::Connection>,
        TipcError,
    >)
        ensures
            self.accepts(port, handle, peer, r),
    ;

    /// Called with the bytes of each message of a connection and the
    /// handles received with them.
    fn on_message(
        &self,
        connection: &mut Self::Connection,
        handle: &mut Handle,
        buffer: &[u8],
        handles: &mut Vec<Option<Handle>>,
    ) -> (r: Result<MessageResult, TipcError>)
        ensures
            self.serves(
                old(connection),
                old(handle),
                buffer@,
                old(handles)@,
                final(connection),
                final(handle),
                final(handles)@,
                r,
            ),
            final(handle).raw() == old(handle).raw(),
    ;

    /// Called when the client has closed the connection.
    fn on_disconnect(&self, connection: &Self::Connection) {
    }

    /// The length of the longest message that the service takes.
    fn max_message_length(&self) -> (r: usize)
        ensures
            r == self.longest_message(),
    ;
}

/// What a service that sees rebuilt messages does with received bytes: the
/// bytes are decoded, and only a message that decodes reaches the service.
pub open spec fn served_by_decoding<S: Service>(
    service: &S,
    connection: &S::Connection,
    handle: &Handle,
    buffer: Seq<u8>,
    handles: Seq<Option<Handle>>,
    connection_after: &S::Connection,
    handle_after: &Handle,
    handles_after: Seq<Option<Handle>>,
    r: Result<MessageResult, TipcError>,
) -> bool {
    if buffer.len() > S::Message::MAX_SERIALIZED_SIZE || handles.len() > MAX_MSG_HANDLES {
        &&& r == Err::<MessageResult, TipcError>(TipcError::InvalidData)
        &&& connection_after == connection
        &&& handle_after == handle
        &&& handles_after == handles
    } else {
        exists|inner: Result<S::Message, TipcError>|
            #![auto]
            S::Message::decodes(buffer, handles, inner, handles_after) && match inner {
                Ok(msg) => service.handles(
                    connection,
                    handle,
                    &msg,
                    connection_after,
                    handle_after,
                    r,
                ),
                Err(_) => {
                    &&& r == Err::<MessageResult, TipcError>(TipcError::InvalidData)
                    &&& connection_after == connection
                    &&& handle_after == handle
                },
            }
    }
}

/// Decodes the received bytes and hands the message to the service.
pub fn deliver<S: Service>(
    service: &S,
    connection: &mut S::Connection,
    handle: &mut Handle,
    buffer: &[u8],
    handles: &mut Vec<Option<Handle>>,
) -> (r: Result<MessageResult, TipcError>)
    ensures
        served_by_decoding(
            service,
            old(connection),
            old(handle),
            buffer@,
            old(handles)@,
            final(connection),
            final(handle),
            final(handles)@,
            r,
        ),
        final(handle).raw() == old(handle).raw(),
{
    match decode::<S::Message>(buffer, handles) {
        Ok(msg) => {
            let ghost sent = msg;
            let r = service.on_message(connection, handle, msg);
            proof {
                let inner = choose|inner: Result<S::Message, TipcError>|
                    #![auto]
                    S::Message::decodes(buffer@, old(handles)@, inner, final(handles)@) && Ok::<
                        S::Message,
                        TipcError,
                    >(sent) == decode_outcome(inner);
                assert(inner == Ok::<S::Message, TipcError>(sent));
            }
            r
        },
        Err(e) => Err(TipcError::InvalidData),
    }
}


/// Every service that sees rebuilt messages is also a service that reads
/// bytes: the bytes are decoded first.
impl<V: Service> UnbufferedService for V {
    type Connection = <V as Service>::Connection;

    open spec fn accepts(
        &self,
        port: &PortCfg,
        handle: &Handle,
        peer: &Uuid,
        r: Result<ConnectResult<<V as Service>::Connection>, TipcError>,
    ) -> bool {
        self.connects(port, handle, peer, r)
    }

    open spec fn serves(
        &self,
        connection: &<V as Service>::Connection,
        handle: &Handle,
        buffer: Seq<u8>,
        handles: Seq<Option<Handle>>,
        connection_after: &<V as Service>::Connection,
        handle_after: &Handle,
        handles_after: Seq<Option<Handle>>,
        r: Result<MessageResult, TipcError>,
    ) -> bool {
        served_by_decoding(
            self,
            connection,
            handle,
            buffer,
            handles,
            connection_after,
            handle_after,
            handles_after,
            r,
        )
    }

    open spec fn longest_message(&self) -> usize {
        <V as Service>::Message::MAX_SERIALIZED_SIZE
    }

    fn on_connect(&self, port: &PortCfg, handle: &Handle, peer: &Uuid) -> (r: Result<
        ConnectResult<<V as Service>::Connection>,
        TipcError,
    >) {
        <V as Service>::on_connect(self, port, handle, peer)
    }

    fn on_message(
        &self,
        connection: &mut <V as Service>::Connection,
        handle: &mut Handle,
        buffer: &[u8],
        handles: &mut Vec<Option<Handle>>,
    ) -> (r: Result<MessageResult, TipcError>) {
        deliver(self, connection, handle, buffer, handles)
    }

    fn on_disconnect(&self, connection: &<V as Service>::Connection) {
        <V as Service>::on_disconnect(self, connection)
    }

    fn max_message_length(&self) -> (r: usize) {
        <V as Service>::Message::MAX_SERIALIZED_SIZE
    }
}

} // verus!
