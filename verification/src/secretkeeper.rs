//! The services of a keeper of secrets: one that agrees on keys with its
//! peer, one that keeps secrets, and one that talks to the bootloader.
//!
//! What a request means is decided outside this library: each service is
//! built around a function from a whole request to a whole response. The
//! services put requests together from fragments and cut responses into
//! fragments.

use crate::codec::{Deserialize, Serialize, Serializer};
use crate::dispatcher::ServiceDispatcher;
use crate::error::{SysError, TipcError};
use crate::fragment::{
    accumulate_step, fragmented, fragments, placeholder_more_to_come, Reassembler,
    PREFIX_MORE_TO_COME,
};
use crate::handle::Handle;
use crate::manager::Manager;
use crate::port::{flags_allow_ns, flags_allow_ta, PortCfg};
use crate::service::{ConnectResult, MessageResult, Service, UnbufferedService};
use crate::uuid::Uuid;
use vstd::prelude::*;

verus! {

/// Number of ports of the keeper.
pub const PORT_COUNT: usize = 3;

/// Largest number of connections at one time, one for each port.
pub const MAX_CONNECTION_COUNT: usize = 3;

/// Largest message.
pub const MAX_MSG_SIZE: usize = 4000;

/// The path of the port on which secrets are kept.
pub open spec fn sk_port_name() -> Seq<char> {
    "com.android.trusty.secretkeeper"@
}

/// The path of the port on which keys are agreed.
pub open spec fn ag_port_name() -> Seq<char> {
    "com.android.trusty.secretkeeper.authgraph"@
}

/// The path of the port of the bootloader.
pub open spec fn bl_port_name() -> Seq<char> {
    "com.android.trusty.secretkeeper.bootloader"@
}

/// A message whose bytes mean nothing to the transport. Bytes of no more
/// than [`MAX_MSG_SIZE`] are a message as they are; longer bytes are none.
#[derive(Debug)]
pub struct SkMessage(pub Vec<u8>);

impl Deserialize for SkMessage {
    const MAX_SERIALIZED_SIZE: usize = MAX_MSG_SIZE;

    open spec fn decodes(
        bytes: Seq<u8>,
        handles: Seq<Option<Handle>>,
        r: Result<Self, TipcError>,
        handles_left: Seq<Option<Handle>>,
    ) -> bool {
        &&& handles_left == handles
        &&& if bytes.len() > MAX_MSG_SIZE {
            r == Err::<Self, TipcError>(TipcError::InvalidData)
        } else {
            r matches Ok(m) && m.0@ == bytes
        }
    }

    fn deserialize(bytes: &[u8], handles: &mut Vec<Option<Handle>>) -> (r: Result<Self, TipcError>) {
        if bytes.len() > MAX_MSG_SIZE {
            return Err(TipcError::InvalidData);
        }
        Ok(SkMessage(vstd::slice::slice_to_vec(bytes)))
    }
}

impl Serialize for SkMessage {
    open spec fn writes(&self, bytes: Seq<u8>) -> bool {
        bytes == self.0@
    }

    open spec fn serializable(&self) -> bool {
        true
    }

    fn serialize(&self, serializer: &mut Serializer) -> (r: Result<(), TipcError>) {
        let r = serializer.serialize_bytes(self.0.as_slice());
        assert(self.writes(self.0@));
        r
    }
}

/// Cuts a response into fragments and sends them in order.
pub fn fragmented_send(handle: &mut Handle, full_rsp: Vec<u8>) -> (r: Result<(), TipcError>)
    ensures
        r is Ok,
        final(handle).raw() == old(handle).raw(),
        final(handle).queued() == old(handle).queued() + fragmented(full_rsp@, MAX_MSG_SIZE as nat),
{
    let frags = fragments(full_rsp.as_slice(), MAX_MSG_SIZE);
    let ghost all = fragmented(full_rsp@, MAX_MSG_SIZE as nat);
    let mut frags = frags;
    let mut i: usize = 0;
    let count = frags.len();
    assert(old(handle).queued() + all.subrange(0, 0) =~= old(handle).queued());
    while i < count
        invariant
            i <= count,
            count == frags@.len(),
            all.len() == count,
            forall|k: int| i <= k < count ==> (#[trigger] frags@[k])@ == all[k],
            handle.raw() == old(handle).raw(),
            handle.queued() == old(handle).queued() + all.subrange(0, i as int),
        decreases count - i,
    {
        let mut frag: Vec<u8> = Vec::new();
        std::mem::swap(&mut frag, &mut frags[i]);
        let ghost sent = frag@;
        let ghost before = handle.queued();
        let _ = handle.send(&SkMessage(frag));
        proof {
            assert(all.subrange(0, i + 1) =~= all.subrange(0, i as int).push(all[i as int]));
            assert(handle.queued() =~= old(handle).queued() + all.subrange(0, i + 1));
        }
        i = i + 1;
    }
    assert(all.subrange(0, count as int) =~= all);
    Ok(())
}

/// What a fragment of a request leads to: a fragment that is not the last
/// is answered with the placeholder that asks for more; the last one has
/// the whole request processed and the response sent in fragments. The
/// connection stays open in both cases. A fragment that cannot be taken is
/// an error, and nothing is sent.
pub open spec fn processed<T: Fn(&[u8]) -> Vec<u8>>(
    pending: Seq<u8>,
    limit: nat,
    queued: Seq<Seq<u8>>,
    msg: Seq<u8>,
    process: T,
    pending_after: Seq<u8>,
    queued_after: Seq<Seq<u8>>,
    r: Result<MessageResult, TipcError>,
) -> bool {
    let step = accumulate_step(pending, limit, msg);
    &&& pending_after == step.1
    &&& match step.0 {
        Err(e) => r == Err::<MessageResult, TipcError>(e) && queued_after == queued,
        Ok(None) => {
            &&& r == Ok::<MessageResult, TipcError>(MessageResult::MaintainConnection)
            &&& queued_after == queued.push(seq![PREFIX_MORE_TO_COME])
        },
        Ok(Some(full_req)) => {
            &&& r == Ok::<MessageResult, TipcError>(MessageResult::MaintainConnection)
            &&& exists|req: &[u8], rsp: Vec<u8>|
                {
                    &&& req@ == full_req
                    &&& #[trigger] call_ensures(process, (req,), rsp)
                    &&& queued_after == queued + fragmented(rsp@, MAX_MSG_SIZE as nat)
                }
        },
    }
}

/// Takes one fragment of a request. When the request is whole, `process`
/// gives the response, which is sent in fragments.
pub fn fragmented_process<T: Fn(&[u8]) -> Vec<u8>>(
    handle: &mut Handle,
    msg: &[u8],
    pending: &mut Reassembler,
    process: &T,
) -> (r: Result<MessageResult, TipcError>)
    requires
        forall|req: &[u8]| call_requires(*process, (req,)),
    ensures
        final(handle).raw() == old(handle).raw(),
        final(pending).limit() == old(pending).limit(),
        processed(
            old(pending).pending(),
            old(pending).limit(),
            old(handle).queued(),
            msg@,
            *process,
            final(pending).pending(),
            final(handle).queued(),
            r,
        ),
{
    match pending.accumulate(msg) {
        Err(e) => Err(e),
        Ok(Some(full_req)) => {
            let req = full_req.as_slice();
            let full_rsp = process(req);
            let ghost rsp = full_rsp;
            let _ = fragmented_send(handle, full_rsp);
            assert(req@ == full_req@ && call_ensures(*process, (req,), rsp));
            Ok(MessageResult::MaintainConnection)
        },
        Ok(None) => {
            let _ = handle.send(&SkMessage(placeholder_more_to_come()));
            Ok(MessageResult::MaintainConnection)
        },
    }
}


/// The service that agrees on keys. A request may come in fragments; each
/// connection has its own unfinished request.
pub struct AuthGraphService<F: Fn(&[u8]) -> Vec<u8>> {
    process: F,
    request_limit: usize,
}

impl<F: Fn(&[u8]) -> Vec<u8>> AuthGraphService<F> {
    #[verifier::type_invariant]
    spec fn callable(self) -> bool {
        forall|req: &[u8]| call_requires(self.process, (req,))
    }

    /// The function that answers a whole request.
    pub closed spec fn processor(&self) -> F {
        self.process
    }

    /// The longest request that is put together.
    pub closed spec fn limit(&self) -> nat {
        self.request_limit as nat
    }

    /// A service that answers whole requests with `process` and puts
    /// together requests of at most `request_limit` bytes.
    pub fn new(process: F, request_limit: usize) -> (r: Self)
        requires
            forall|req: &[u8]| call_requires(process, (req,)),
        ensures
            r.processor() == process,
            r.limit() == request_limit,
    {
        AuthGraphService { process, request_limit }
    }
}

impl<F: Fn(&[u8]) -> Vec<u8>> Service for AuthGraphService<F> {
    type Connection = Reassembler;

    type Message = SkMessage;

    /// Every connection is accepted, with no request begun.
    open spec fn connects(
        &self,
        port: &PortCfg,
        handle: &Handle,
        peer: &Uuid,
        r: Result<ConnectResult<Reassembler>, TipcError>,
    ) -> bool {
        &&& r matches Ok(ConnectResult::Accept(pending))
        &&& pending.pending() == Seq::<u8>::empty()
        &&& pending.limit() == self.limit()
    }

    open spec fn handles(
        &self,
        connection: &Reassembler,
        handle: &Handle,
        msg: &SkMessage,
        connection_after: &Reassembler,
        handle_after: &Handle,
        r: Result<MessageResult, TipcError>,
    ) -> bool {
        &&& connection_after.limit() == connection.limit()
        &&& processed(
            connection.pending(),
            connection.limit(),
            handle.queued(),
            msg.0@,
            self.processor(),
            connection_after.pending(),
            handle_after.queued(),
            r,
        )
    }

    fn on_connect(&self, port: &PortCfg, handle: &Handle, peer: &Uuid) -> (r: Result<
        ConnectResult<Reassembler>,
        TipcError,
    >) {
        Ok(ConnectResult::Accept(Reassembler::with_limit(self.request_limit)))
    }

    fn on_message(&self, connection: &mut Reassembler, handle: &mut Handle, msg: SkMessage) -> (r:
        Result<MessageResult, TipcError>) {
        proof {
            use_type_invariant(self);
        }
        fragmented_process(handle, msg.0.as_slice(), connection, &self.process)
    }

    fn on_disconnect(&self, connection: &Reassembler) {
    }
}

/// The service that keeps secrets. A request may come in fragments; each
/// connection has its own unfinished request.
pub struct SecretkeeperService<F: Fn(&[u8]) -> Vec<u8>> {
    process: F,
    request_limit: usize,
}

impl<F: Fn(&[u8]) -> Vec<u8>> SecretkeeperService<F> {
    #[verifier::type_invariant]
    spec fn callable(self) -> bool {
        forall|req: &[u8]| call_requires(self.process, (req,))
    }

    /// The function that answers a whole request.
    pub closed spec fn processor(&self) -> F {
        self.process
    }

    /// The longest request that is put together.
    pub closed spec fn limit(&self) -> nat {
        self.request_limit as nat
    }

    /// A service that answers whole requests with `process` and puts
    /// together requests of at most `request_limit` bytes.
    pub fn new(process: F, request_limit: usize) -> (r: Self)
        requires
            forall|req: &[u8]| call_requires(process, (req,)),
        ensures
            r.processor() == process,
            r.limit() == request_limit,
    {
        SecretkeeperService { process, request_limit }
    }
}

impl<F: Fn(&[u8]) -> Vec<u8>> Service for SecretkeeperService<F> {
    type Connection = Reassembler;

    type Message = SkMessage;

    /// Every connection is accepted, with no request begun.
    open spec fn connects(
        &self,
        port: &PortCfg,
        handle: &Handle,
        peer: &Uuid,
        r: Result<ConnectResult<Reassembler>, TipcError>,
    ) -> bool {
        &&& r matches Ok(ConnectResult::Accept(pending))
        &&& pending.pending() == Seq::<u8>::empty()
        &&& pending.limit() == self.limit()
    }

    open spec fn handles(
        &self,
        connection: &Reassembler,
        handle: &Handle,
        msg: &SkMessage,
        connection_after: &Reassembler,
        handle_after: &Handle,
        r: Result<MessageResult, TipcError>,
    ) -> bool {
        &&& connection_after.limit() == connection.limit()
        &&& processed(
            connection.pending(),
            connection.limit(),
            handle.queued(),
            msg.0@,
            self.processor(),
            connection_after.pending(),
            handle_after.queued(),
            r,
        )
    }

    fn on_connect(&self, port: &PortCfg, handle: &Handle, peer: &Uuid) -> (r: Result<
        ConnectResult<Reassembler>,
        TipcError,
    >) {
        Ok(ConnectResult::Accept(Reassembler::with_limit(self.request_limit)))
    }

    fn on_message(&self, connection: &mut Reassembler, handle: &mut Handle, msg: SkMessage) -> (r:
        Result<MessageResult, TipcError>) {
        proof {
            use_type_invariant(self);
        }
        fragmented_process(handle, msg.0.as_slice(), connection, &self.process)
    }

    fn on_disconnect(&self, connection: &Reassembler) {
    }
}

/// The service of the bootloader. Its requests and responses are single
/// messages.
pub struct BootloaderService<F: Fn(&[u8]) -> Vec<u8>> {
    process: F,
}

impl<F: Fn(&[u8]) -> Vec<u8>> BootloaderService<F> {
    #[verifier::type_invariant]
    spec fn callable(self) -> bool {
        forall|req: &[u8]| call_requires(self.process, (req,))
    }

    /// The function that answers a request.
    pub closed spec fn processor(&self) -> F {
        self.process
    }

    /// A service that answers requests with `process`.
    pub fn new(process: F) -> (r: Self)
        requires
            forall|req: &[u8]| call_requires(process, (req,)),
        ensures
            r.processor() == process,
    {
        BootloaderService { process }
    }
}

impl<F: Fn(&[u8]) -> Vec<u8>> Service for BootloaderService<F> {
    type Connection = ();

    type Message = SkMessage;

    /// Every connection is accepted.
    open spec fn connects(
        &self,
        port: &PortCfg,
        handle: &Handle,
        peer: &Uuid,
        r: Result<ConnectResult<()>, TipcError>,
    ) -> bool {
        r == Ok::<ConnectResult<()>, TipcError>(ConnectResult::Accept(()))
    }

    /// The response to the request is sent as one message and the
    /// connection stays open.
    open spec fn handles(
        &self,
        connection: &(),
        handle: &Handle,
        msg: &SkMessage,
        connection_after: &(),
        handle_after: &Handle,
        r: Result<MessageResult, TipcError>,
    ) -> bool {
        &&& r == Ok::<MessageResult, TipcError>(MessageResult::MaintainConnection)
        &&& exists|req: &[u8], rsp: Vec<u8>|
            {
                &&& req@ == msg.0@
                &&& #[trigger] call_ensures(self.processor(), (req,), rsp)
                &&& handle_after.queued() == handle.queued().push(rsp@)
            }
    }

    fn on_connect(&self, port: &PortCfg, handle: &Handle, peer: &Uuid) -> (r: Result<
        ConnectResult<()>,
        TipcError,
    >) {
        Ok(ConnectResult::Accept(()))
    }

    fn on_message(&self, connection: &mut (), handle: &mut Handle, msg: SkMessage) -> (r: Result<
        MessageResult,
        TipcError,
    >) {
        proof {
            use_type_invariant(self);
        }
        let req = msg.0.as_slice();
        let rsp = (self.process)(req);
        let ghost answer = rsp;
        let _ = handle.send(&SkMessage(rsp));
        assert(req@ == msg.0@ && call_ensures(self.processor(), (req,), answer));
        Ok(MessageResult::MaintainConnection)
    }

    fn on_disconnect(&self, connection: &()) {
    }
}


/// One of the three services of the keeper.
pub enum SkService<A: Fn(&[u8]) -> Vec<u8>, S: Fn(&[u8]) -> Vec<u8>, B: Fn(&[u8]) -> Vec<u8>> {
    AuthGraph(AuthGraphService<A>),
    Secretkeeper(SecretkeeperService<S>),
    Bootloader(BootloaderService<B>),
}

/// The state of a connection to one of the three services.
pub enum SkConnection {
    AuthGraph(Reassembler),
    Secretkeeper(Reassembler),
    Bootloader(()),
}

/// What a connection to one of the services becomes as a connection of the
/// three.
pub open spec fn wrapped<C>(
    inner: Result<ConnectResult<C>, TipcError>,
    wrap: spec_fn(C) -> SkConnection,
) -> Result<ConnectResult<SkConnection>, TipcError> {
    match inner {
        Ok(ConnectResult::Accept(c)) => Ok(ConnectResult::Accept(wrap(c))),
        Ok(ConnectResult::CloseConnection) => Ok(ConnectResult::CloseConnection),
        Err(e) => Err(e),
    }
}

impl<
    A: Fn(&[u8]) -> Vec<u8>,
    S: Fn(&[u8]) -> Vec<u8>,
    B: Fn(&[u8]) -> Vec<u8>,
> UnbufferedService for SkService<A, S, B> {
    type Connection = SkConnection;

    /// The service answers, and the connection is of its kind.
    open spec fn accepts(
        &self,
        port: &PortCfg,
        handle: &Handle,
        peer: &Uuid,
        r: Result<ConnectResult<SkConnection>, TipcError>,
    ) -> bool {
        match self {
            SkService::AuthGraph(s) => exists|inner: Result<ConnectResult<Reassembler>, TipcError>|
                #![auto]
                s.accepts(port, handle, peer, inner) && r == wrapped(
                    inner,
                    |c: Reassembler| SkConnection::AuthGraph(c),
                ),
            SkService::Secretkeeper(s) => exists|
                inner: Result<ConnectResult<Reassembler>, TipcError>,
            |
                #![auto]
                s.accepts(port, handle, peer, inner) && r == wrapped(
                    inner,
                    |c: Reassembler| SkConnection::Secretkeeper(c),
                ),
            SkService::Bootloader(s) => exists|inner: Result<ConnectResult<()>, TipcError>|
                #![auto]
                s.accepts(port, handle, peer, inner) && r == wrapped(
                    inner,
                    |c: ()| SkConnection::Bootloader(c),
                ),
        }
    }

    /// A connection of the kind of the service is served by the service and
    /// stays of that kind; a connection of another kind is `InvalidData`.
    open spec fn serves(
        &self,
        connection: &SkConnection,
        handle: &Handle,
        buffer: Seq<u8>,
        handles: Seq<Option<Handle>>,
        connection_after: &SkConnection,
        handle_after: &Handle,
        handles_after: Seq<Option<Handle>>,
        r: Result<MessageResult, TipcError>,
    ) -> bool {
        match (self, connection, connection_after) {
            (
                SkService::AuthGraph(s),
                SkConnection::AuthGraph(c),
                SkConnection::AuthGraph(after),
            ) => s.serves(c, handle, buffer, handles, after, handle_after, handles_after, r),
            (
                SkService::Secretkeeper(s),
                SkConnection::Secretkeeper(c),
                SkConnection::Secretkeeper(after),
            ) => s.serves(c, handle, buffer, handles, after, handle_after, handles_after, r),
            (
                SkService::Bootloader(s),
                SkConnection::Bootloader(c),
                SkConnection::Bootloader(after),
            ) => s.serves(c, handle, buffer, handles, after, handle_after, handles_after, r),
            (SkService::AuthGraph(_), SkConnection::AuthGraph(_), _) => false,
            (SkService::Secretkeeper(_), SkConnection::Secretkeeper(_), _) => false,
            (SkService::Bootloader(_), SkConnection::Bootloader(_), _) => false,
            _ => {
                &&& r == Err::<MessageResult, TipcError>(TipcError::InvalidData)
                &&& connection_after == connection
                &&& handle_after == handle
                &&& handles_after == handles
            },
        }
    }

    open spec fn longest_message(&self) -> usize {
        MAX_MSG_SIZE
    }

    fn on_connect(&self, port: &PortCfg, handle: &Handle, peer: &Uuid) -> (r: Result<
        ConnectResult<SkConnection>,
        TipcError,
    >) {
        match self {
            SkService::AuthGraph(s) => {
                let inner = UnbufferedService::on_connect(s, port, handle, peer);
                let r = match inner {
                    Ok(ConnectResult::Accept(c)) => Ok(
                        ConnectResult::Accept(SkConnection::AuthGraph(c)),
                    ),
                    Ok(ConnectResult::CloseConnection) => Ok(ConnectResult::CloseConnection),
                    Err(e) => Err(e),
                };
                assert(s.accepts(port, handle, peer, inner) && r == wrapped(
                    inner,
                    |c: Reassembler| SkConnection::AuthGraph(c),
                ));
                r
            },
            SkService::Secretkeeper(s) => {
                let inner = UnbufferedService::on_connect(s, port, handle, peer);
                let r = match inner {
                    Ok(ConnectResult::Accept(c)) => Ok(
                        ConnectResult::Accept(SkConnection::Secretkeeper(c)),
                    ),
                    Ok(ConnectResult::CloseConnection) => Ok(ConnectResult::CloseConnection),
                    Err(e) => Err(e),
                };
                assert(s.accepts(port, handle, peer, inner) && r == wrapped(
                    inner,
                    |c: Reassembler| SkConnection::Secretkeeper(c),
                ));
                r
            },
            SkService::Bootloader(s) => {
                let inner = UnbufferedService::on_connect(s, port, handle, peer);
                let r = match inner {
                    Ok(ConnectResult::Accept(c)) => Ok(
                        ConnectResult::Accept(SkConnection::Bootloader(c)),
                    ),
                    Ok(ConnectResult::CloseConnection) => Ok(ConnectResult::CloseConnection),
                    Err(e) => Err(e),
                };
                assert(s.accepts(port, handle, peer, inner) && r == wrapped(
                    inner,
                    |c: ()| SkConnection::Bootloader(c),
                ));
                r
            },
        }
    }

    fn on_message(
        &self,
        connection: &mut SkConnection,
        handle: &mut Handle,
        buffer: &[u8],
        handles: &mut Vec<Option<Handle>>,
    ) -> (r: Result<MessageResult, TipcError>) {
        match self {
            SkService::AuthGraph(s) => match connection {
                SkConnection::AuthGraph(c) => UnbufferedService::on_message(
                    s,
                    c,
                    handle,
                    buffer,
                    handles,
                ),
                _ => Err(TipcError::InvalidData),
            },
            SkService::Secretkeeper(s) => match connection {
                SkConnection::Secretkeeper(c) => UnbufferedService::on_message(
                    s,
                    c,
                    handle,
                    buffer,
                    handles,
                ),
                _ => Err(TipcError::InvalidData),
            },
            SkService::Bootloader(s) => match connection {
                SkConnection::Bootloader(c) => UnbufferedService::on_message(
                    s,
                    c,
                    handle,
                    buffer,
                    handles,
                ),
                _ => Err(TipcError::InvalidData),
            },
        }
    }

    fn on_disconnect(&self, connection: &SkConnection) {
    }

    fn max_message_length(&self) -> (r: usize) {
        MAX_MSG_SIZE
    }
}


/// Whether a port is open to peers from the secure side too.
#[derive(Clone, Copy, Debug, PartialEq, Eq, Structural)]
pub struct SecureConnections(pub bool);

/// The flags of a port of the keeper: every port is open to peers from the
/// non-secure side, and a port for secure connections to the secure side
/// too.
pub open spec fn port_flags(secure: bool) -> u32 {
    if secure {
        3
    } else {
        2
    }
}

/// The configuration of a port of the keeper. A name that cannot name a
/// port is `UnknownError`.
pub fn port_config(port_name: &str, secure: SecureConnections) -> (r: Result<PortCfg, TipcError>)
    ensures
        r is Ok <==> !port_name@.contains('\0'),
        r matches Ok(cfg) ==> {
            &&& cfg@.path == port_name@
            &&& cfg@.msg_queue_len == crate::port::DEFAULT_MSG_QUEUE_LEN
            &&& cfg@.msg_max_size == MAX_MSG_SIZE
            &&& cfg@.flags == port_flags(secure.0)
            &&& flags_allow_ns(cfg@.flags)
            &&& flags_allow_ta(cfg@.flags) == secure.0
        },
        r matches Err(e) ==> e == TipcError::UnknownError,
{
    let cfg = match PortCfg::new(port_name) {
        Ok(cfg) => cfg,
        Err(_) => {
            return Err(TipcError::UnknownError);
        },
    };
    let cfg = cfg.msg_max_size(MAX_MSG_SIZE as u32).allow_ns_connect();
    assert(0u32 | 2u32 == 2u32 && 2u32 | 1u32 == 3u32 && 2u32 & 1u32 == 0u32 && 3u32 & 1u32 == 1u32
        && 2u32 & 2u32 == 2u32 && 3u32 & 2u32 == 2u32) by (bit_vector);
    let cfg = if secure.0 {
        cfg.allow_ta_connect()
    } else {
        cfg
    };
    Ok(cfg)
}

/// Adds `service` to the dispatcher on the port `port_name`.
pub fn add_service_port<
    A: Fn(&[u8]) -> Vec<u8>,
    S: Fn(&[u8]) -> Vec<u8>,
    B: Fn(&[u8]) -> Vec<u8>,
    const COUNT: usize,
>(
    dispatcher: &mut ServiceDispatcher<SkService<A, S, B>, COUNT>,
    service: SkService<A, S, B>,
    port_name: &str,
    secure: SecureConnections,
) -> (r: Result<(), TipcError>)
    requires
        old(dispatcher).wf(),
    ensures
        final(dispatcher).wf(),
        r is Ok <==> !port_name@.contains('\0') && old(dispatcher).services().len() < COUNT,
        r is Ok ==> {
            &&& final(dispatcher).services() == old(dispatcher).services().push(service)
            &&& final(dispatcher).port_list().len() == old(dispatcher).port_list().len() + 1
            &&& forall|i: int|
                0 <= i < old(dispatcher).port_list().len() ==> final(dispatcher).port_list()[i]
                    == old(dispatcher).port_list()[i]
            &&& final(dispatcher).port_list().last()@.path == port_name@
            &&& final(dispatcher).port_list().last()@.msg_max_size == MAX_MSG_SIZE
            &&& final(dispatcher).port_list().last()@.msg_queue_len
                == crate::port::DEFAULT_MSG_QUEUE_LEN
            &&& final(dispatcher).port_list().last()@.flags == port_flags(secure.0)
        },
        r matches Err(e) ==> {
            &&& e == if port_name@.contains('\0') {
                TipcError::UnknownError
            } else {
                TipcError::OutOfBounds
            }
            &&& final(dispatcher).services() == old(dispatcher).services()
            &&& final(dispatcher).port_list() == old(dispatcher).port_list()
        },
{
    let cfg = match port_config(port_name, secure) {
        Ok(cfg) => cfg,
        Err(e) => {
            return Err(e);
        },
    };
    dispatcher.add_service(service, cfg)
}

/// The manager of the three services of the keeper, each on its port:
/// `ag` answers the requests of the service that agrees on keys, `sk`
/// those of the service that keeps secrets and `bl` those of the
/// bootloader. Requests of more than `request_limit` bytes are not put
/// together. `created` holds the answers of the kernel to the requests to
/// create the three ports, in that order.
pub fn init<A: Fn(&[u8]) -> Vec<u8>, S: Fn(&[u8]) -> Vec<u8>, B: Fn(&[u8]) -> Vec<u8>>(
    ag: A,
    sk: S,
    bl: B,
    request_limit: usize,
    created: Vec<Result<i32, SysError>>,
) -> (r: Result<
    Manager<ServiceDispatcher<SkService<A, S, B>, 3>, 3, 3>,
    TipcError,
>)
    requires
        forall|req: &[u8]| call_requires(ag, (req,)),
        forall|req: &[u8]| call_requires(sk, (req,)),
        forall|req: &[u8]| call_requires(bl, (req,)),
    ensures
        match r {
            Ok(_) => None,
            Err(e) => Some(e),
        } == crate::manager::port_failure(created@, 3, 0),
        r matches Ok(m) ==> {
            &&& m.wf()
            &&& m.buffer().len() == MAX_MSG_SIZE
            &&& m.registry().connection_count() == 0
            &&& m.dispatcher().services().len() == 3
            &&& m.dispatcher().services()[0] matches SkService::AuthGraph(s0)
            &&& s0.processor() == ag
            &&& s0.limit() == request_limit
            &&& m.dispatcher().services()[1] matches SkService::Secretkeeper(s1)
            &&& s1.processor() == sk
            &&& s1.limit() == request_limit
            &&& m.dispatcher().services()[2] matches SkService::Bootloader(s2)
            &&& s2.processor() == bl
            &&& m.dispatcher().port_list()[0]@.path == ag_port_name()
            &&& m.dispatcher().port_list()[1]@.path == sk_port_name()
            &&& m.dispatcher().port_list()[2]@.path == bl_port_name()
            &&& m.dispatcher().port_list()[0]@.flags == port_flags(false)
            &&& m.dispatcher().port_list()[1]@.flags == port_flags(false)
            &&& m.dispatcher().port_list()[2]@.flags == port_flags(true)
            &&& forall|i: int|
                0 <= i < 3 ==> (#[trigger] m.dispatcher().port_list()[i])@.msg_max_size
                    == MAX_MSG_SIZE && m.dispatcher().port_list()[i]@.msg_queue_len
                    == crate::port::DEFAULT_MSG_QUEUE_LEN
            &&& forall|i: int|
                0 <= i < 3 ==> (#[trigger] m.registry().ports()[i]).handle.raw()
                    == created@[i]->Ok_0
        },
{
    let ag_service = SkService::AuthGraph(AuthGraphService::new(ag, request_limit));
    let sk_service = SkService::Secretkeeper(SecretkeeperService::new(sk, request_limit));
    let bl_service = SkService::Bootloader(BootloaderService::new(bl));
    let mut dispatcher = match ServiceDispatcher::<SkService<A, S, B>, 3>::new() {
        Ok(d) => d,
        Err(e) => {
            return Err(e);
        },
    };
    proof {
        reveal_strlit("com.android.trusty.secretkeeper.authgraph");
        reveal_strlit("com.android.trusty.secretkeeper");
        reveal_strlit("com.android.trusty.secretkeeper.bootloader");
    }
    let added = add_service_port(
        &mut dispatcher,
        ag_service,
        "com.android.trusty.secretkeeper.authgraph",
        SecureConnections(false),
    );
    if added.is_err() {
        assert(false);
        return Err(TipcError::UnknownError);
    }
    let added = add_service_port(
        &mut dispatcher,
        sk_service,
        "com.android.trusty.secretkeeper",
        SecureConnections(false),
    );
    if added.is_err() {
        assert(false);
        return Err(TipcError::UnknownError);
    }
    let added = add_service_port(
        &mut dispatcher,
        bl_service,
        "com.android.trusty.secretkeeper.bootloader",
        SecureConnections(true),
    );
    if added.is_err() {
        assert(false);
        return Err(TipcError::UnknownError);
    }
    let mut buffer: Vec<u8> = Vec::new();
    let mut n: usize = 0;
    while n < MAX_MSG_SIZE
        invariant
            n <= MAX_MSG_SIZE,
            buffer@.len() == n,
        decreases MAX_MSG_SIZE - n,
    {
        buffer.push(0u8);
        n = n + 1;
    }
    proof {
        reveal_with_fuel(crate::dispatcher::longest_of, 4);
    }
    Manager::new_with_dispatcher(dispatcher, buffer, created)
}


/// No message of the keeper is longer than [`MAX_MSG_SIZE`] bytes: that is
/// the declared maximum of the type, and longer bytes are refused with
/// `InvalidData`, with the handles left as they were.
pub proof fn lemma_sk_message_max_size()
    ensures
        <SkMessage as Deserialize>::MAX_SERIALIZED_SIZE == MAX_MSG_SIZE,
        forall|
            bytes: Seq<u8>,
            handles: Seq<Option<Handle>>,
            r: Result<SkMessage, TipcError>,
            left: Seq<Option<Handle>>,
        |
            bytes.len() > MAX_MSG_SIZE && #[trigger] SkMessage::decodes(bytes, handles, r, left)
                ==> r == Err::<SkMessage, TipcError>(TipcError::InvalidData) && left == handles,
{
}

} // verus!
