//! The decisions of the event loop.
//!
//! The loop itself waits on the kernel, which this library does not do.
//! For each event it asks the manager what the kernel has to be asked
//! ([`Manager::request_for`]), asks it, and hands the answer to
//! [`Manager::handler`], which updates the registry, calls the service and
//! says what has to be sent and closed. How the sending went, and whether
//! the kernel took a new connection into its wait set, is told to
//! [`Manager::handle_sent`] and [`Manager::handle_registered`]. When a
//! step fails, [`recovery`] says whether the loop goes on.

use crate::channel::{Channel, ChannelTy};
use crate::codec::Deserialize;
use crate::dispatcher::{Dispatcher, SingleDispatcher, SingleUnbufferedDispatcher};
use crate::error::{SysError, TipcError};
use crate::handle::{message_views, Handle};
use crate::handle_set::HandleSet;
use crate::port::PortCfg;
use crate::service::{ConnectResult, MessageResult, Service, UnbufferedService};
use crate::uuid::Uuid;
use vstd::prelude::*;

verus! {

/// No event.
pub const IPC_HANDLE_POLL_NONE: u32 = 0x0;

/// A port has a connection to accept.
pub const IPC_HANDLE_POLL_READY: u32 = 0x1;

/// The handle is in an error state.
pub const IPC_HANDLE_POLL_ERROR: u32 = 0x2;

/// The peer has closed the connection.
pub const IPC_HANDLE_POLL_HUP: u32 = 0x4;

/// A connection has a message to read.
pub const IPC_HANDLE_POLL_MSG: u32 = 0x8;

/// A send that was blocked can go on.
pub const IPC_HANDLE_POLL_SEND_UNBLOCKED: u32 = 0x10;

/// An event as the kernel reports it: the cookie of the channel and the
/// flags of what happened.
#[derive(Clone, Copy, Debug, PartialEq, Eq, Structural)]
pub struct Event {
    pub cookie: usize,
    pub event: u32,
}

/// What an event asks for.
#[derive(Clone, Copy, Debug, PartialEq, Eq, Structural)]
pub enum EventKind {
    /// A client wants to connect to a port.
    Connect,
    /// A connection has a message.
    Message,
    /// A connection was closed by its client.
    Disconnect,
    /// A blocked send can go on; worth a warning, nothing else.
    SendUnblocked,
    /// Nothing happened.
    Nothing,
}

/// The kind of an event with flags `event` on a port (`is_port`) or on a
/// connection; `None` for an event that the loop does not know.
pub open spec fn classify(is_port: bool, event: u32) -> Option<EventKind> {
    if is_port && event & IPC_HANDLE_POLL_READY != 0 {
        Some(EventKind::Connect)
    } else if !is_port && event & IPC_HANDLE_POLL_MSG != 0 {
        Some(EventKind::Message)
    } else if !is_port && event & IPC_HANDLE_POLL_HUP != 0 {
        Some(EventKind::Disconnect)
    } else if event & IPC_HANDLE_POLL_SEND_UNBLOCKED != 0 {
        Some(EventKind::SendUnblocked)
    } else if event == IPC_HANDLE_POLL_NONE {
        Some(EventKind::Nothing)
    } else {
        None
    }
}

/// The kind of an event, as [`classify`] defines it.
pub fn classify_event(is_port: bool, event: u32) -> (r: Option<EventKind>)
    ensures
        r == classify(is_port, event),
{
    if is_port && event & IPC_HANDLE_POLL_READY != 0 {
        Some(EventKind::Connect)
    } else if !is_port && event & IPC_HANDLE_POLL_MSG != 0 {
        Some(EventKind::Message)
    } else if !is_port && event & IPC_HANDLE_POLL_HUP != 0 {
        Some(EventKind::Disconnect)
    } else if event & IPC_HANDLE_POLL_SEND_UNBLOCKED != 0 {
        Some(EventKind::SendUnblocked)
    } else if event == IPC_HANDLE_POLL_NONE {
        Some(EventKind::Nothing)
    } else {
        None
    }
}

/// What the loop does after a step has failed.
#[derive(Clone, Copy, Debug, PartialEq, Eq, Structural)]
pub enum Recovery {
    /// The error is expected; the loop goes on without a word.
    Ignore,
    /// The error should have been dealt with where it arose; the loop logs
    /// a warning and goes on.
    Warn,
    /// The loop ends with the error.
    Fatal,
}

/// The rule of the loop for errors: a wait that timed out and a channel
/// that the peer closed are ignored; an incomplete write, a buffer that was
/// too small and a busy endpoint are worth a warning; everything else ends
/// the loop.
pub open spec fn recovery_of(err: TipcError) -> Recovery {
    match err {
        TipcError::SystemError(SysError::TimedOut) => Recovery::Ignore,
        TipcError::SystemError(SysError::ChannelClosed) => Recovery::Ignore,
        TipcError::ChannelClosed => Recovery::Ignore,
        TipcError::IncompleteWrite { .. } => Recovery::Warn,
        TipcError::NotEnoughBuffer => Recovery::Warn,
        TipcError::Busy => Recovery::Warn,
        _ => Recovery::Fatal,
    }
}

/// What the loop does after a step has failed with `err`.
pub fn recovery(err: &TipcError) -> (r: Recovery)
    ensures
        r == recovery_of(*err),
{
    match err {
        TipcError::SystemError(SysError::TimedOut) => Recovery::Ignore,
        TipcError::SystemError(SysError::ChannelClosed) => Recovery::Ignore,
        TipcError::ChannelClosed => Recovery::Ignore,
        TipcError::IncompleteWrite { .. } => Recovery::Warn,
        TipcError::NotEnoughBuffer => Recovery::Warn,
        TipcError::Busy => Recovery::Warn,
        _ => Recovery::Fatal,
    }
}


/// A rule for errors that a service sets for its own loop: what the loop
/// does after each kind of error.
#[derive(Clone, Copy, Debug, PartialEq, Eq, Structural)]
pub struct RecoveryPolicy {
    /// After a wait that timed out.
    pub timed_out: Recovery,
    /// After a channel that the peer closed.
    pub channel_closed: Recovery,
    /// After an incomplete write.
    pub incomplete_write: Recovery,
    /// After a buffer that was too small.
    pub not_enough_buffer: Recovery,
    /// After a busy endpoint.
    pub busy: Recovery,
    /// After a connection for which the registry had no room.
    pub out_of_bounds: Recovery,
    /// After any other error.
    pub other: Recovery,
}

impl RecoveryPolicy {
    /// What the policy says of an error.
    pub open spec fn decision(self, err: TipcError) -> Recovery {
        match err {
            TipcError::SystemError(SysError::TimedOut) => self.timed_out,
            TipcError::SystemError(SysError::ChannelClosed) => self.channel_closed,
            TipcError::ChannelClosed => self.channel_closed,
            TipcError::IncompleteWrite { .. } => self.incomplete_write,
            TipcError::NotEnoughBuffer => self.not_enough_buffer,
            TipcError::Busy => self.busy,
            TipcError::OutOfBounds => self.out_of_bounds,
            _ => self.other,
        }
    }

    /// The policy that decides as [`recovery`] does.
    pub fn standard() -> (r: Self)
        ensures
            forall|err: TipcError| #[trigger] r.decision(err) == recovery_of(err),
    {
        RecoveryPolicy {
            timed_out: Recovery::Ignore,
            channel_closed: Recovery::Ignore,
            incomplete_write: Recovery::Warn,
            not_enough_buffer: Recovery::Warn,
            busy: Recovery::Warn,
            out_of_bounds: Recovery::Fatal,
            other: Recovery::Fatal,
        }
    }

    /// What the loop does after a step has failed with `err`.
    pub fn decide(&self, err: &TipcError) -> (r: Recovery)
        ensures
            r == self.decision(*err),
    {
        match err {
            TipcError::SystemError(SysError::TimedOut) => self.timed_out,
            TipcError::SystemError(SysError::ChannelClosed) => self.channel_closed,
            TipcError::ChannelClosed => self.channel_closed,
            TipcError::IncompleteWrite { .. } => self.incomplete_write,
            TipcError::NotEnoughBuffer => self.not_enough_buffer,
            TipcError::Busy => self.busy,
            TipcError::OutOfBounds => self.out_of_bounds,
            _ => self.other,
        }
    }
}

/// What the loop has to ask of the kernel before an event can be handled.
#[derive(Clone, Copy, Debug, PartialEq, Eq, Structural)]
pub enum Request {
    /// Accept the connection that waits on the port with this descriptor.
    Accept { port: i32 },
    /// Read the message that waits on the connection with this descriptor
    /// into the buffer of the manager.
    Receive { connection: i32 },
    /// Nothing.
    Nothing,
}

/// The answer of the kernel to a [`Request`].
pub enum KernelReply {
    /// Nothing was asked.
    Nothing,
    /// The descriptor of the accepted connection and the identifier of the
    /// peer, or the failure of the call.
    Accepted(Result<(i32, Uuid), TipcError>),
    /// The number of bytes that were read into the buffer of the manager
    /// and the handles that came with them, or the failure of the call.
    Received(Result<(usize, Vec<Option<Handle>>), TipcError>),
}

/// What the loop has to do after an event was handled.
pub enum Outcome {
    /// Nothing.
    Idle,
    /// A send that was blocked can go on, and the event has come up to the
    /// loop: log a warning, for a message that was sent may have been lost.
    SendUnblocked,
    /// A connection was accepted and registered: wait on descriptor `fd`
    /// with this cookie.
    Connected { cookie: usize, fd: i32 },
    /// The service refused the connection: close descriptor `fd`.
    Rejected { fd: i32 },
    /// A message was handled: send `responses` on descriptor `fd`, in
    /// order, close what is left in `unclaimed`, and, if `closed`, close the
    /// descriptor, which is no longer registered. `error` is what the
    /// service or the reading of the message failed with, if it did.
    Replied {
        fd: i32,
        responses: Vec<Vec<u8>>,
        unclaimed: Vec<Option<Handle>>,
        closed: bool,
        error: Option<TipcError>,
    },
    /// The client closed the connection, which is no longer registered:
    /// close descriptor `fd`.
    Disconnected { fd: i32 },
    /// A call to the kernel for the connection has failed with `error`.
    /// The connection is no longer registered: close descriptor `fd`. The
    /// loop goes on.
    Closed { fd: i32, error: TipcError },
}

/// Whether the answer of a service to a message keeps the connection open.
pub open spec fn keeps_open(r: Result<MessageResult, TipcError>) -> bool {
    r == Ok::<MessageResult, TipcError>(MessageResult::MaintainConnection)
}

/// The error in the answer of a service, if it is one.
pub open spec fn error_of(r: Result<MessageResult, TipcError>) -> Option<TipcError> {
    match r {
        Ok(_) => None,
        Err(e) => Some(e),
    }
}

/// Owns the registry of channels, the dispatcher and the receive buffer of
/// one event loop, and decides what each event leads to.
pub struct Manager<D: Dispatcher, const PORT_COUNT: usize, const MAX_CONNECTION_COUNT: usize> {
    dispatcher: D,
    handle_set: HandleSet<D::Connection, PORT_COUNT, MAX_CONNECTION_COUNT>,
    buffer: Vec<u8>,
}

impl<D: Dispatcher, const PORT_COUNT: usize, const MAX_CONNECTION_COUNT: usize> Manager<
    D,
    PORT_COUNT,
    MAX_CONNECTION_COUNT,
> {
    /// The dispatcher.
    pub closed spec fn dispatcher(&self) -> D {
        self.dispatcher
    }

    /// The registry of channels.
    pub closed spec fn registry(&self) -> HandleSet<D::Connection, PORT_COUNT, MAX_CONNECTION_COUNT> {
        self.handle_set
    }

    /// The receive buffer.
    pub closed spec fn buffer(&self) -> Seq<u8> {
        self.buffer@
    }

    /// The registry is well formed and holds the ports of the dispatcher,
    /// and the buffer can take the longest message of any service.
    pub open spec fn wf(&self) -> bool {
        &&& self.registry().wf()
        &&& self.buffer().len() >= self.dispatcher().longest_message()
        &&& self.dispatcher().ports().len() == PORT_COUNT
        &&& forall|i: int|
            0 <= i < PORT_COUNT ==> ((#[trigger] self.registry().ports()[i]).ty matches ChannelTy::Port(
                cfg,
            ) && cfg@ == self.dispatcher().ports()[i]@)
    }

    /// Nothing but the connections of the registry differs between the two
    /// managers.
    pub open spec fn same_frame(&self, other: &Self) -> bool {
        &&& self.dispatcher() == other.dispatcher()
        &&& self.buffer() == other.buffer()
        &&& self.registry().ports() == other.registry().ports()
    }

    /// The two managers differ in nothing that this library states.
    pub open spec fn unchanged(&self, other: &Self) -> bool {
        &&& self.same_frame(other)
        &&& self.registry().slots() == other.registry().slots()
    }

    /// Every connection but the one of `cookie` is the same in both
    /// managers.
    pub open spec fn others_untouched(&self, other: &Self, cookie: int) -> bool {
        forall|c: int| c != cookie ==> self.registry().lookup(c) == other.registry().lookup(c)
    }
}


/// The failure of the first of the ports from position `from` on that the
/// kernel did not create, if there is one: a missing answer is
/// `OutOfBounds`, a refusal is the error of the kernel, and a negative
/// descriptor is `InvalidHandle`.
pub open spec fn port_failure(created: Seq<Result<i32, SysError>>, count: nat, from: nat) -> Option<
    TipcError,
>
    decreases count - from,
{
    if from >= count {
        None
    } else if from >= created.len() {
        Some(TipcError::OutOfBounds)
    } else {
        match created[from as int] {
            Err(e) => Some(TipcError::SystemError(e)),
            Ok(fd) => if fd < 0 {
                Some(TipcError::InvalidHandle)
            } else {
                port_failure(created, count, from + 1)
            },
        }
    }
}

/// Why a manager cannot be built, if it cannot: the buffer is shorter than
/// the longest message (`NotEnoughBuffer`), a port was not created, or the
/// dispatcher does not serve exactly `port_count` ports (`OutOfBounds`).
pub open spec fn construction_failure(
    longest_message: usize,
    ports: nat,
    buffer_len: nat,
    created: Seq<Result<i32, SysError>>,
    port_count: nat,
    max_connection_count: nat,
) -> Option<TipcError> {
    if buffer_len < longest_message {
        Some(TipcError::NotEnoughBuffer)
    } else if port_failure(created, ports, 0) is Some {
        port_failure(created, ports, 0)
    } else if ports != port_count || port_count + max_connection_count > usize::MAX {
        Some(TipcError::OutOfBounds)
    } else {
        None
    }
}

impl<D: Dispatcher, const PORT_COUNT: usize, const MAX_CONNECTION_COUNT: usize> Manager<
    D,
    PORT_COUNT,
    MAX_CONNECTION_COUNT,
> {
    /// Whether a buffer of `buffer_len` bytes can take the longest message
    /// of any service of `dispatcher`: if not, no manager can be built on
    /// it, and no port needs to be created for one. The failure is
    /// `NotEnoughBuffer`.
    pub fn check_buffer(dispatcher: &D, buffer_len: usize) -> (r: Result<(), TipcError>)
        ensures
            r == if buffer_len < dispatcher.longest_message() {
                Err::<(), TipcError>(TipcError::NotEnoughBuffer)
            } else {
                Ok::<(), TipcError>(())
            },
    {
        if buffer_len < dispatcher.max_message_length() {
            Err(TipcError::NotEnoughBuffer)
        } else {
            Ok(())
        }
    }

    /// A manager for the services of `dispatcher` that receives into
    /// `buffer`. `created` holds, for each port of the dispatcher in order,
    /// the answer of the kernel to the request to create it.
    #[verifier::loop_isolation(false)]
    pub fn new_with_dispatcher(
        dispatcher: D,
        buffer: Vec<u8>,
        created: Vec<Result<i32, SysError>>,
    ) -> (r: Result<Self, TipcError>)
        ensures
            r matches Ok(m) ==> {
                &&& m.wf()
                &&& m.dispatcher() == dispatcher
                &&& m.buffer() == buffer@
                &&& m.registry().connection_count() == 0
                &&& m.registry().slots() == Seq::<Option<Channel<D::Connection>>>::empty()
                &&& forall|i: int|
                    0 <= i < PORT_COUNT ==> (#[trigger] m.registry().ports()[i]).handle.raw()
                        == created@[i]->Ok_0
            },
            match r {
                Ok(_) => None,
                Err(e) => Some(e),
            } == construction_failure(
                dispatcher.longest_message(),
                dispatcher.ports().len(),
                buffer@.len(),
                created@,
                PORT_COUNT as nat,
                MAX_CONNECTION_COUNT as nat,
            ),
    {
        match Self::check_buffer(&dispatcher, buffer.len()) {
            Ok(()) => {},
            Err(e) => {
                return Err(e);
            },
        }
        let mut ports: Vec<Channel<D::Connection>> = Vec::new();
        let configs = dispatcher.port_configurations();
        let mut i: usize = 0;
        while i < configs.len()
            invariant
                i <= configs@.len(),
                configs@ == dispatcher.ports(),
                ports@.len() == i,
                port_failure(created@, configs@.len(), 0) == port_failure(
                    created@,
                    configs@.len(),
                    i as nat,
                ),
                forall|k: int|
                    0 <= k < i ==> {
                        &&& k < created@.len()
                        &&& (#[trigger] ports@[k]).handle.raw() == created@[k]->Ok_0
                        &&& ports@[k].ty matches ChannelTy::Port(c)
                        &&& c@ == configs@[k]@
                    },
            decreases configs@.len() - i,
        {
            if i >= created.len() {
                return Err(TipcError::OutOfBounds);
            }
            match Channel::try_new_port(&configs[i], created[i]) {
                Ok(ch) => {
                    ports.push(ch);
                },
                Err(e) => {
                    return Err(e);
                },
            }
            i = i + 1;
        }
        match HandleSet::try_new(ports) {
            Ok(handle_set) => {
                let m = Manager { dispatcher, handle_set, buffer };
                Ok(m)
            },
            Err(e) => Err(e),
        }
    }
}


impl<D: Dispatcher, const PORT_COUNT: usize, const MAX_CONNECTION_COUNT: usize> Manager<
    D,
    PORT_COUNT,
    MAX_CONNECTION_COUNT,
> {
    /// What the request for an event is: for an event of no channel
    /// `InvalidData`, for an event of an unknown kind `UnknownError`,
    /// otherwise what the kind of the event needs from the kernel.
    pub open spec fn request_of(&self, event: Event) -> Result<Request, TipcError> {
        match self.registry().lookup(event.cookie as int) {
            None => Err(TipcError::InvalidData),
            Some(channel) => match classify(channel.ty is Port, event.event) {
                None => Err(TipcError::UnknownError),
                Some(EventKind::Connect) => Ok(Request::Accept { port: channel.handle.raw() }),
                Some(EventKind::Message) => Ok(
                    Request::Receive { connection: channel.handle.raw() },
                ),
                Some(_) => Ok(Request::Nothing),
            },
        }
    }

    /// What the loop has to ask of the kernel before it hands `event` to
    /// [`Manager::handler`].
    pub fn request_for(&self, event: &Event) -> (r: Result<Request, TipcError>)
        requires
            self.wf(),
        ensures
            r == self.request_of(*event),
    {
        match self.handle_set.resolve(event.cookie) {
            None => Err(TipcError::InvalidData),
            Some(channel) => match classify_event(channel.is_port(), event.event) {
                None => Err(TipcError::UnknownError),
                Some(EventKind::Connect) => Ok(
                    Request::Accept { port: channel.handle.as_raw_fd() },
                ),
                Some(EventKind::Message) => Ok(
                    Request::Receive { connection: channel.handle.as_raw_fd() },
                ),
                Some(_) => Ok(Request::Nothing),
            },
        }
    }

    /// What accepting a connection may lead to, once the service has given
    /// its answer `inner` for the new handle.
    pub open spec fn connected(
        &self,
        handle: Handle,
        inner: Result<ConnectResult<D::Connection>, TipcError>,
        after: &Self,
        r: Result<Outcome, TipcError>,
    ) -> bool {
        match inner {
            Err(e) => r == Err::<Outcome, TipcError>(e) && after.unchanged(self),
            Ok(ConnectResult::CloseConnection) => r == Ok::<Outcome, TipcError>(
                Outcome::Rejected { fd: handle.raw() },
            ) && after.unchanged(self),
            Ok(ConnectResult::Accept(data)) => if self.registry().connection_count()
                < MAX_CONNECTION_COUNT {
                &&& r matches Ok(Outcome::Connected { cookie, fd })
                &&& fd == handle.raw()
                &&& PORT_COUNT <= cookie < PORT_COUNT + MAX_CONNECTION_COUNT
                &&& self.registry().lookup(cookie as int) is None
                &&& after.registry().lookup(cookie as int) == Some(
                    Channel { handle, ty: ChannelTy::Connection(data) },
                )
                &&& after.others_untouched(self, cookie as int)
                &&& after.registry().connection_count() == self.registry().connection_count() + 1
            } else {
                r == Err::<Outcome, TipcError>(TipcError::OutOfBounds) && after.unchanged(self)
            },
        }
    }

    /// What a connect event on `cookie` leads to, given the answer of the
    /// kernel to the request to accept.
    pub open spec fn connect_step(
        &self,
        cookie: usize,
        accepted: Result<(i32, Uuid), TipcError>,
        after: &Self,
        r: Result<Outcome, TipcError>,
    ) -> bool {
        &&& after.same_frame(self)
        &&& match self.registry().lookup(cookie as int) {
            Some(Channel { ty: ChannelTy::Port(cfg), .. }) => match accepted {
                Err(e) => r == Err::<Outcome, TipcError>(e) && after.unchanged(self),
                Ok((fd, peer)) => if fd < 0 {
                    r == Err::<Outcome, TipcError>(TipcError::InvalidHandle) && after.unchanged(
                        self,
                    )
                } else {
                    exists|handle: Handle, inner: Result<ConnectResult<D::Connection>, TipcError>|
                        {
                            &&& handle.raw() == fd
                            &&& handle.queued() == Seq::<Seq<u8>>::empty()
                            &&& self.dispatcher().accepts(&cfg, &handle, &peer, inner)
                            &&& #[trigger] self.connected(handle, inner, after, r)
                        }
                },
            },
            _ => r == Err::<Outcome, TipcError>(TipcError::InvalidData) && after.unchanged(self),
        }
    }

    /// Handles a connect event of the port with the given cookie:
    /// `accepted` is the answer of the kernel to the request to accept. The
    /// service of the port decides; a connection that it accepts is
    /// registered, if there is room.
    pub fn handle_connect(&mut self, cookie: usize, accepted: Result<(i32, Uuid), TipcError>) -> (r:
        Result<Outcome, TipcError>)
        requires
            old(self).wf(),
        ensures
            final(self).wf(),
            old(self).connect_step(cookie, accepted, final(self), r),
    {
        let cfg = match self.handle_set.resolve(cookie) {
            Some(Channel { ty: ChannelTy::Port(cfg), .. }) => cfg,
            _ => {
                return Err(TipcError::InvalidData);
            },
        };
        let (fd, peer) = match accepted {
            Ok(pair) => pair,
            Err(e) => {
                return Err(e);
            },
        };
        let connection_handle = match Handle::from_raw(fd) {
            Ok(h) => h,
            Err(e) => {
                return Err(e);
            },
        };
        let inner = self.dispatcher.on_connect(cfg, &connection_handle, &peer);
        let ghost before = *self;
        let r = match inner {
            Err(e) => Err(e),
            Ok(ConnectResult::CloseConnection) => Ok(Outcome::Rejected { fd }),
            Ok(ConnectResult::Accept(data)) => {
                let channel = Channel { handle: connection_handle, ty: ChannelTy::Connection(data) };
                match self.handle_set.add_connection(channel) {
                    Ok(cookie) => Ok(Outcome::Connected { cookie, fd }),
                    Err(back) => Err(back.0),
                }
            },
        };
        assert(before.connected(connection_handle, inner, final(self), r));
        r
    }
}


impl<D: Dispatcher, const PORT_COUNT: usize, const MAX_CONNECTION_COUNT: usize> Manager<
    D,
    PORT_COUNT,
    MAX_CONNECTION_COUNT,
> {
    /// What a message may lead to, once the dispatcher has given its answer
    /// `inner` and left the state `data` and the handle `handle` for the
    /// connection: what the service sent goes out, and the connection
    /// stays, with its new state, exactly when the answer keeps it open.
    pub open spec fn served(
        &self,
        cookie: usize,
        data: D::Connection,
        handle: Handle,
        unclaimed: Seq<Option<Handle>>,
        inner: Result<MessageResult, TipcError>,
        after: &Self,
        outcome: Outcome,
    ) -> bool {
        &&& outcome matches Outcome::Replied { fd, responses, unclaimed: left, closed, error }
        &&& fd == handle.raw()
        &&& message_views(responses@) == handle.queued()
        &&& left@ == unclaimed
        &&& closed == !keeps_open(inner)
        &&& error == error_of(inner)
        &&& after.others_untouched(self, cookie as int)
        &&& if keeps_open(inner) {
            &&& after.registry().lookup(cookie as int) matches Some(channel)
            &&& channel.ty == ChannelTy::<D::Connection>::Connection(data)
            &&& channel.handle.raw() == handle.raw()
            &&& channel.handle.queued() == Seq::<Seq<u8>>::empty()
            &&& after.registry().connection_count() == self.registry().connection_count()
        } else {
            &&& after.registry().lookup(cookie as int) is None
            &&& after.registry().connection_count() == self.registry().connection_count() - 1
        }
    }

    /// The step succeeds with an outcome that [`Manager::served`] allows.
    pub open spec fn answered(
        &self,
        cookie: usize,
        data: D::Connection,
        handle: Handle,
        unclaimed: Seq<Option<Handle>>,
        inner: Result<MessageResult, TipcError>,
        after: &Self,
        r: Result<Outcome, TipcError>,
    ) -> bool {
        r matches Ok(outcome) && self.served(cookie, data, handle, unclaimed, inner, after, outcome)
    }

    /// What a message event on `cookie` leads to, given the answer of the
    /// kernel to the request to read the message. A message that could not
    /// be read, or that is said to be longer than the buffer, closes the
    /// connection without reaching any service.
    pub open spec fn message_step(
        &self,
        cookie: usize,
        received: Result<(usize, Vec<Option<Handle>>), TipcError>,
        after: &Self,
        r: Result<Outcome, TipcError>,
    ) -> bool {
        &&& after.same_frame(self)
        &&& match self.registry().lookup(cookie as int) {
            Some(Channel { handle, ty: ChannelTy::Connection(data) }) => match received {
                Ok((len, handles)) if len <= self.buffer().len() => exists|
                    data_after: D::Connection,
                    handle_after: Handle,
                    unclaimed: Seq<Option<Handle>>,
                    inner: Result<MessageResult, TipcError>,
                |
                    {
                        &&& self.dispatcher().serves(
                            &data,
                            &handle,
                            self.buffer().subrange(0, len as int),
                            handles@,
                            &data_after,
                            &handle_after,
                            unclaimed,
                            inner,
                        )
                        &&& handle_after.raw() == handle.raw()
                        &&& #[trigger] self.answered(
                            cookie,
                            data_after,
                            handle_after,
                            unclaimed,
                            inner,
                            after,
                            r,
                        )
                    },
                Ok((len, handles)) => self.answered(
                    cookie,
                    data,
                    handle,
                    handles@,
                    Err(TipcError::InvalidData),
                    after,
                    r,
                ),
                Err(e) => self.answered(cookie, data, handle, Seq::empty(), Err(e), after, r),
            },
            _ => r == Err::<Outcome, TipcError>(TipcError::InvalidData) && after.unchanged(self),
        }
    }

    /// Handles a message event of the connection with the given cookie:
    /// `received` is the answer of the kernel to the request to read the
    /// message into the buffer. The message goes to the dispatcher; what
    /// the service has sent is handed out, and the connection is closed
    /// unless the service asks to maintain it.
    pub fn handle_message(
        &mut self,
        cookie: usize,
        received: Result<(usize, Vec<Option<Handle>>), TipcError>,
    ) -> (r: Result<Outcome, TipcError>)
        requires
            old(self).wf(),
        ensures
            final(self).wf(),
            old(self).message_step(cookie, received, final(self), r),
    {
        let ghost before = *self;
        match self.handle_set.resolve(cookie) {
            Some(channel) => {
                if channel.is_port() {
                    return Err(TipcError::InvalidData);
                }
            },
            None => {
                return Err(TipcError::InvalidData);
            },
        }
        let channel = match self.handle_set.close(cookie) {
            Some(ch) => ch,
            None => {
                return Err(TipcError::InvalidData);
            },
        };
        let Channel { handle, ty } = channel;
        let mut handle = handle;
        let mut data = match ty {
            ChannelTy::Connection(data) => data,
            ChannelTy::Port(_) => {
                assert(false);
                return Err(TipcError::InvalidData);
            },
        };
        let ghost data_before = data;
        let ghost handle_before = handle;
        let mut handles: Vec<Option<Handle>> = Vec::new();
        let inner = match received {
            Ok((len, received_handles)) => {
                handles = received_handles;
                if len <= self.buffer.len() {
                    let bytes = vstd::slice::slice_subrange(self.buffer.as_slice(), 0, len);
                    self.dispatcher.on_message(&mut data, &mut handle, bytes, &mut handles)
                } else {
                    Err(TipcError::InvalidData)
                }
            },
            Err(e) => Err(e),
        };
        let ghost data_after = data;
        let ghost handle_after = handle;
        let fd = handle.as_raw_fd();
        let responses = handle.take_outgoing();
        let error = match inner {
            Ok(_) => None,
            Err(e) => Some(e),
        };
        let closed = match inner {
            Ok(MessageResult::MaintainConnection) => {
                self.handle_set.put_back(
                    cookie,
                    Channel { handle, ty: ChannelTy::Connection(data) },
                );
                false
            },
            _ => true,
        };
        let ghost left = handles@;
        let r = Ok(Outcome::Replied { fd, responses, unclaimed: handles, closed, error });
        proof {
            assert(before.answered(cookie, data_after, handle_after, left, inner, final(self), r));
        }
        r
    }

    /// What a disconnect event on `cookie` leads to: the connection leaves
    /// the registry and its descriptor is handed out to be closed.
    pub open spec fn disconnect_step(
        &self,
        cookie: usize,
        after: &Self,
        r: Result<Outcome, TipcError>,
    ) -> bool {
        &&& after.same_frame(self)
        &&& match self.registry().lookup(cookie as int) {
            Some(Channel { handle, ty: ChannelTy::Connection(_) }) => {
                &&& r == Ok::<Outcome, TipcError>(Outcome::Disconnected { fd: handle.raw() })
                &&& after.registry().lookup(cookie as int) is None
                &&& after.others_untouched(self, cookie as int)
                &&& after.registry().connection_count() == self.registry().connection_count() - 1
            },
            _ => r == Err::<Outcome, TipcError>(TipcError::InvalidData) && after.unchanged(self),
        }
    }

    /// Handles a disconnect event of the connection with the given cookie:
    /// the service is told, and the connection is taken out of the
    /// registry.
    pub fn handle_disconnect(&mut self, cookie: usize) -> (r: Result<Outcome, TipcError>)
        requires
            old(self).wf(),
        ensures
            final(self).wf(),
            old(self).disconnect_step(cookie, final(self), r),
    {
        match self.handle_set.resolve(cookie) {
            Some(Channel { handle, ty: ChannelTy::Connection(data) }) => {
                self.dispatcher.on_disconnect(data);
            },
            _ => {
                return Err(TipcError::InvalidData);
            },
        }
        match self.handle_set.close(cookie) {
            Some(channel) => Ok(Outcome::Disconnected { fd: channel.handle.as_raw_fd() }),
            None => Err(TipcError::InvalidData),
        }
    }

    /// Whether `after` is this manager without the connection of `cookie`,
    /// whose descriptor is `fd`.
    pub open spec fn dropped(&self, cookie: usize, fd: i32, after: &Self) -> bool {
        &&& self.registry().lookup(cookie as int) matches Some(
            Channel { handle, ty: ChannelTy::Connection(_) },
        )
        &&& handle.raw() == fd
        &&& after.registry().lookup(cookie as int) is None
        &&& after.others_untouched(self, cookie as int)
        &&& after.registry().connection_count() == self.registry().connection_count() - 1
    }

    /// Takes the connection of `cookie` out of the registry, if it is
    /// there, and gives its descriptor.
    fn drop_connection(&mut self, cookie: usize) -> (r: Option<i32>)
        requires
            old(self).wf(),
        ensures
            final(self).wf(),
            final(self).same_frame(old(self)),
            r is Some <==> (old(self).registry().lookup(cookie as int) matches Some(channel)
                && channel.ty is Connection),
            r matches Some(fd) ==> old(self).dropped(cookie, fd, final(self)),
            r is None ==> final(self).unchanged(old(self)),
    {
        match self.handle_set.resolve(cookie) {
            Some(channel) => {
                if channel.is_port() {
                    return None;
                }
            },
            None => {
                return None;
            },
        }
        match self.handle_set.close(cookie) {
            Some(channel) => Some(channel.handle.as_raw_fd()),
            None => None,
        }
    }

    /// What the sending of the responses of a connection leads to: after
    /// a send that failed the connection is closed and the loop goes on,
    /// whatever the failure was; a peer that does not take its answers
    /// loses its connection and nothing else. After a send that went
    /// well, or for a connection that is registered no more, nothing
    /// changes.
    pub open spec fn sent_step(
        &self,
        cookie: usize,
        sent: Result<(), TipcError>,
        after: &Self,
        r: Outcome,
    ) -> bool {
        &&& after.same_frame(self)
        &&& match (sent, self.registry().lookup(cookie as int)) {
            (Err(e), Some(Channel { handle, ty: ChannelTy::Connection(_) })) => {
                &&& r == Outcome::Closed { fd: handle.raw(), error: e }
                &&& self.dropped(cookie, handle.raw(), after)
            },
            _ => r == Outcome::Idle && after.unchanged(self),
        }
    }

    /// Takes note of how the sending of the responses of the connection
    /// with the given cookie went: `sent` is the answer of the kernel to
    /// the last send that was tried.
    pub fn handle_sent(&mut self, cookie: usize, sent: Result<(), TipcError>) -> (r: Outcome)
        requires
            old(self).wf(),
        ensures
            final(self).wf(),
            old(self).sent_step(cookie, sent, final(self), r),
    {
        match sent {
            Ok(()) => Outcome::Idle,
            Err(error) => match self.drop_connection(cookie) {
                Some(fd) => Outcome::Closed { fd, error },
                None => Outcome::Idle,
            },
        }
    }

    /// What the registration of an accepted connection with the kernel
    /// leads to: if the kernel refuses to wait on the connection, the
    /// connection leaves the registry and the failure goes to the loop,
    /// which closes the descriptor and asks [`recovery`] how to go on.
    pub open spec fn registered_step(
        &self,
        cookie: usize,
        added: Result<(), TipcError>,
        after: &Self,
        r: Result<Outcome, TipcError>,
    ) -> bool {
        &&& after.same_frame(self)
        &&& match added {
            Ok(()) => r == Ok::<Outcome, TipcError>(Outcome::Idle) && after.unchanged(self),
            Err(e) => {
                &&& r == Err::<Outcome, TipcError>(e)
                &&& match self.registry().lookup(cookie as int) {
                    Some(Channel { handle, ty: ChannelTy::Connection(_) }) => self.dropped(
                        cookie,
                        handle.raw(),
                        after,
                    ),
                    _ => after.unchanged(self),
                }
            },
        }
    }

    /// Takes note of the answer of the kernel to the request to wait on
    /// the connection that was registered under the given cookie.
    pub fn handle_registered(&mut self, cookie: usize, added: Result<(), TipcError>) -> (r: Result<
        Outcome,
        TipcError,
    >)
        requires
            old(self).wf(),
        ensures
            final(self).wf(),
            old(self).registered_step(cookie, added, final(self), r),
    {
        match added {
            Ok(()) => Ok(Outcome::Idle),
            Err(e) => {
                let _ = self.drop_connection(cookie);
                Err(e)
            },
        }
    }
}


impl<D: Dispatcher, const PORT_COUNT: usize, const MAX_CONNECTION_COUNT: usize> Manager<
    D,
    PORT_COUNT,
    MAX_CONNECTION_COUNT,
> {
    /// What an event leads to, given the answer of the kernel to the
    /// request that [`Manager::request_for`] made for it. An answer that
    /// does not fit the request is `InvalidData`. A send that was
    /// unblocked changes nothing and asks for a warning; no event at all
    /// changes nothing and asks for nothing.
    pub open spec fn event_step(
        &self,
        event: Event,
        reply: KernelReply,
        after: &Self,
        r: Result<Outcome, TipcError>,
    ) -> bool {
        match self.registry().lookup(event.cookie as int) {
            None => r == Err::<Outcome, TipcError>(TipcError::InvalidData) && after.unchanged(self),
            Some(channel) => match classify(channel.ty is Port, event.event) {
                None => r == Err::<Outcome, TipcError>(TipcError::UnknownError) && after.unchanged(
                    self,
                ),
                Some(EventKind::Connect) => match reply {
                    KernelReply::Accepted(accepted) => self.connect_step(
                        event.cookie,
                        accepted,
                        after,
                        r,
                    ),
                    _ => r == Err::<Outcome, TipcError>(TipcError::InvalidData) && after.unchanged(
                        self,
                    ),
                },
                Some(EventKind::Message) => match reply {
                    KernelReply::Received(received) => self.message_step(
                        event.cookie,
                        received,
                        after,
                        r,
                    ),
                    _ => r == Err::<Outcome, TipcError>(TipcError::InvalidData) && after.unchanged(
                        self,
                    ),
                },
                Some(EventKind::Disconnect) => self.disconnect_step(event.cookie, after, r),
                Some(EventKind::SendUnblocked) => r == Ok::<Outcome, TipcError>(
                    Outcome::SendUnblocked,
                ) && after.unchanged(self),
                Some(EventKind::Nothing) => r == Ok::<Outcome, TipcError>(Outcome::Idle)
                    && after.unchanged(self),
            },
        }
    }

    /// Handles one event. `reply` is the answer of the kernel to the
    /// request that [`Manager::request_for`] made for the event.
    pub fn handler(&mut self, event: &Event, reply: KernelReply) -> (r: Result<Outcome, TipcError>)
        requires
            old(self).wf(),
        ensures
            final(self).wf(),
            old(self).event_step(*event, reply, final(self), r),
    {
        let is_port = match self.handle_set.resolve(event.cookie) {
            None => {
                return Err(TipcError::InvalidData);
            },
            Some(channel) => channel.is_port(),
        };
        match classify_event(is_port, event.event) {
            None => Err(TipcError::UnknownError),
            Some(EventKind::Connect) => match reply {
                KernelReply::Accepted(accepted) => self.handle_connect(event.cookie, accepted),
                _ => Err(TipcError::InvalidData),
            },
            Some(EventKind::Message) => match reply {
                KernelReply::Received(received) => self.handle_message(event.cookie, received),
                _ => Err(TipcError::InvalidData),
            },
            Some(EventKind::Disconnect) => self.handle_disconnect(event.cookie),
            Some(EventKind::SendUnblocked) => Ok(Outcome::SendUnblocked),
            Some(EventKind::Nothing) => Ok(Outcome::Idle),
        }
    }

    /// The buffer into which the loop reads the next message.
    pub fn buffer_mut(&mut self) -> (r: &mut [u8])
        ensures
            r@ == old(self).buffer(),
            final(self).buffer() == final(r)@,
            final(self).dispatcher() == old(self).dispatcher(),
            final(self).registry() == old(self).registry(),
    {
        self.buffer.as_mut_slice()
    }
}

impl<S: Service, const PORT_COUNT: usize, const MAX_CONNECTION_COUNT: usize> Manager<
    SingleDispatcher<S>,
    PORT_COUNT,
    MAX_CONNECTION_COUNT,
> {
    /// A manager for one service on one port. `created` is the answer of
    /// the kernel to the request to create the port.
    pub fn new(service: S, port_cfg: PortCfg, buffer: Vec<u8>, created: Result<i32, SysError>) -> (r:
        Result<Self, TipcError>)
        ensures
            r matches Ok(m) ==> {
                &&& m.wf()
                &&& m.dispatcher().service() == service
                &&& m.dispatcher().port_list() == seq![port_cfg]
                &&& m.buffer() == buffer@
                &&& m.registry().connection_count() == 0
                &&& m.registry().ports()[0].handle.raw() == created->Ok_0
            },
            match r {
                Ok(_) => None,
                Err(e) => Some(e),
            } == construction_failure(
                S::Message::MAX_SERIALIZED_SIZE,
                1,
                buffer@.len(),
                seq![created],
                PORT_COUNT as nat,
                MAX_CONNECTION_COUNT as nat,
            ),
    {
        let dispatcher = SingleDispatcher::new(service, port_cfg);
        let mut answers: Vec<Result<i32, SysError>> = Vec::new();
        answers.push(created);
        assert(answers@ =~= seq![created]);
        Self::new_with_dispatcher(dispatcher, buffer, answers)
    }
}

impl<S: UnbufferedService, const PORT_COUNT: usize, const MAX_CONNECTION_COUNT: usize> Manager<
    SingleUnbufferedDispatcher<S>,
    PORT_COUNT,
    MAX_CONNECTION_COUNT,
> {
    /// A manager without a buffer for one service that reads its messages
    /// itself. `created` is the answer of the kernel to the request to
    /// create the port.
    pub fn new_unbuffered(service: S, port_cfg: PortCfg, created: Result<i32, SysError>) -> (r:
        Result<Self, TipcError>)
        ensures
            r matches Ok(m) ==> {
                &&& m.wf()
                &&& m.dispatcher().service() == service
                &&& m.dispatcher().port_list() == seq![port_cfg]
                &&& m.buffer() == Seq::<u8>::empty()
                &&& m.registry().connection_count() == 0
                &&& m.registry().ports()[0].handle.raw() == created->Ok_0
            },
            match r {
                Ok(_) => None,
                Err(e) => Some(e),
            } == construction_failure(
                service.longest_message(),
                1,
                0,
                seq![created],
                PORT_COUNT as nat,
                MAX_CONNECTION_COUNT as nat,
            ),
    {
        let dispatcher = SingleUnbufferedDispatcher::new(service, port_cfg);
        let mut answers: Vec<Result<i32, SysError>> = Vec::new();
        answers.push(created);
        assert(answers@ =~= seq![created]);
        Self::new_with_dispatcher(dispatcher, Vec::new(), answers)
    }
}


/// An event of one channel leaves every other connection as it was: the
/// connections of other clients that come and go do not touch the state of
/// a connection, and with it the service that the connection belongs to.
pub proof fn lemma_event_leaves_other_connections<
    D: Dispatcher,
    const PORT_COUNT: usize,
    const MAX_CONNECTION_COUNT: usize,
>(
    before: Manager<D, PORT_COUNT, MAX_CONNECTION_COUNT>,
    event: Event,
    reply: KernelReply,
    after: Manager<D, PORT_COUNT, MAX_CONNECTION_COUNT>,
    r: Result<Outcome, TipcError>,
    cookie: int,
)
    requires
        before.wf(),
        before.event_step(event, reply, &after, r),
        cookie != event.cookie,
        before.registry().lookup(cookie) is Some,
    ensures
        after.registry().lookup(cookie) == before.registry().lookup(cookie),
{
}

} // verus!
