//! Routing of connections and messages to the service that owns the port.

use crate::codec::Deserialize;
use crate::error::TipcError;
use crate::handle::Handle;
use crate::port::{PortCfg, PortCfgView};
use crate::service::{deliver, served_by_decoding, ConnectResult, MessageResult, Service, UnbufferedService};
use crate::uuid::Uuid;
use vstd::prelude::*;

verus! {

/// Routes the events of the ports of one event loop to services.
pub trait Dispatcher {
    /// State kept for each connection.
    type Connection;

    /// The ports that the dispatcher serves.
    open spec fn ports(&self) -> Seq<PortCfg> {
        arbitrary()
    }

    /// The length of the longest message that any of its services takes.
    open spec fn longest_message(&self) -> usize {
        arbitrary()
    }

    /// What `on_connect` may answer.
    open spec fn accepts(
        &self,
        port: &PortCfg,
        handle: &Handle,
        peer: &Uuid,
        r: Result<ConnectResult<Self::Connection>, TipcError>,
    ) -> bool {
        true
    }

    /// What `on_message` may answer, and what it may leave in the state of
    /// the connection, in its handle and among the received handles.
    open spec fn serves(
        &self,
        connection: &Self::Connection,
        handle: &Handle,
        buffer: Seq<u8>,
        handles: Seq<Option<Handle>>,
        connection_after: &Self::Connection,
        handle_after: &Handle,
        handles_after: Seq<Option<Handle>>,
        r: Result<MessageResult, TipcError>,
    ) -> bool {
        true
    }

    /// Called when a client connects to `port`.
    fn on_connect(&self, port: &PortCfg, handle: &Handle, peer: &Uuid) -> (r: Result<
        ConnectResult<Self::Connection>,
        TipcError,
    >)
        ensures
            self.accepts(port, handle, peer, r),
    ;

    /// Called with the bytes of each message of a connection and the
    /// handles received with them.
    fn on_message(
        &self,
        connection: &mut Self::Connection,
        handle: &mut Handle,
        buffer: &[u8],
        handles: &mut Vec<Option<Handle>>,
    ) -> (r: Result<MessageResult, TipcError>)
        ensures
            self.serves(
                old(connection),
                old(handle),
                buffer@,
                old(handles)@,
                final(connection),
                final(handle),
                final(handles)@,
                r,
            ),
            final(handle).raw() == old(handle).raw(),
    ;

    /// Called when the client has closed the connection.
    fn on_disconnect(&self, connection: &Self::Connection) {
    }

    /// The ports that the dispatcher serves.
    fn port_configurations(&self) -> (r: &[PortCfg])
        ensures
            r@ == self.ports(),
    ;

    /// The length of the longest message that any of its services takes.
    fn max_message_length(&self) -> (r: usize)
        ensures
            r == self.longest_message(),
    ;
}

/// The dispatcher of a single service on a single port.
pub struct SingleDispatcher<S: Service> {
    service: S,
    ports: Vec<PortCfg>,
}

impl<S: Service> SingleDispatcher<S> {
    /// The service.
    pub closed spec fn service(&self) -> S {
        self.service
    }

    /// The port.
    pub closed spec fn port_list(&self) -> Seq<PortCfg> {
        self.ports@
    }

    /// A dispatcher that hands every event of `port` to `service`.
    pub fn new(service: S, port: PortCfg) -> (r: Self)
        ensures
            r.service() == service,
            r.port_list() == seq![port],
    {
        let mut ports: Vec<PortCfg> = Vec::new();
        ports.push(port);
        assert(ports@ =~= seq![port]);
        SingleDispatcher { service, ports }
    }
}

impl<S: Service> Dispatcher for SingleDispatcher<S> {
    type Connection = S::Connection;

    open spec fn ports(&self) -> Seq<PortCfg> {
        self.port_list()
    }

    open spec fn longest_message(&self) -> usize {
        S::Message::MAX_SERIALIZED_SIZE
    }

    open spec fn accepts(
        &self,
        port: &PortCfg,
        handle: &Handle,
        peer: &Uuid,
        r: Result<ConnectResult<S::Connection>, TipcError>,
    ) -> bool {
        self.service().connects(port, handle, peer, r)
    }

    open spec fn serves(
        &self,
        connection: &S::Connection,
        handle: &Handle,
        buffer: Seq<u8>,
        handles: Seq<Option<Handle>>,
        connection_after: &S::Connection,
        handle_after: &Handle,
        handles_after: Seq<Option<Handle>>,
        r: Result<MessageResult, TipcError>,
    ) -> bool {
        served_by_decoding(
            &self.service(),
            connection,
            handle,
            buffer,
            handles,
            connection_after,
            handle_after,
            handles_after,
            r,
        )
    }

    fn on_connect(&self, port: &PortCfg, handle: &Handle, peer: &Uuid) -> (r: Result<
        ConnectResult<S::Connection>,
        TipcError,
    >) {
        self.service.on_connect(port, handle, peer)
    }

    fn on_message(
        &self,
        connection: &mut S::Connection,
        handle: &mut Handle,
        buffer: &[u8],
        handles: &mut Vec<Option<Handle>>,
    ) -> (r: Result<MessageResult, TipcError>) {
        deliver(&self.service, connection, handle, buffer, handles)
    }

    fn on_disconnect(&self, connection: &S::Connection) {
        self.service.on_disconnect(connection)
    }

    fn port_configurations(&self) -> (r: &[PortCfg]) {
        self.ports.as_slice()
    }

    fn max_message_length(&self) -> (r: usize) {
        S::Message::MAX_SERIALIZED_SIZE
    }
}

/// The dispatcher of a single service that reads the received bytes itself.
pub struct SingleUnbufferedDispatcher<S: UnbufferedService> {
    service: S,
    ports: Vec<PortCfg>,
}

impl<S: UnbufferedService> SingleUnbufferedDispatcher<S> {
    /// The service.
    pub closed spec fn service(&self) -> S {
        self.service
    }

    /// The port.
    pub closed spec fn port_list(&self) -> Seq<PortCfg> {
        self.ports@
    }

    /// A dispatcher that hands every event of `port` to `service`.
    pub fn new(service: S, port: PortCfg) -> (r: Self)
        ensures
            r.service() == service,
            r.port_list() == seq![port],
    {
        let mut ports: Vec<PortCfg> = Vec::new();
        ports.push(port);
        assert(ports@ =~= seq![port]);
        SingleUnbufferedDispatcher { service, ports }
    }
}

impl<S: UnbufferedService> Dispatcher for SingleUnbufferedDispatcher<S> {
    type Connection = S::Connection;

    open spec fn ports(&self) -> Seq<PortCfg> {
        self.port_list()
    }

    open spec fn longest_message(&self) -> usize {
        self.service().longest_message()
    }

    open spec fn accepts(
        &self,
        port: &PortCfg,
        handle: &Handle,
        peer: &Uuid,
        r: Result<ConnectResult<S::Connection>, TipcError>,
    ) -> bool {
        self.service().accepts(port, handle, peer, r)
    }

    open spec fn serves(
        &self,
        connection: &S::Connection,
        handle: &Handle,
        buffer: Seq<u8>,
        handles: Seq<Option<Handle>>,
        connection_after: &S::Connection,
        handle_after: &Handle,
        handles_after: Seq<Option<Handle>>,
        r: Result<MessageResult, TipcError>,
    ) -> bool {
        self.service().serves(
            connection,
            handle,
            buffer,
            handles,
            connection_after,
            handle_after,
            handles_after,
            r,
        )
    }

    fn on_connect(&self, port: &PortCfg, handle: &Handle, peer: &Uuid) -> (r: Result<
        ConnectResult<S::Connection>,
        TipcError,
    >) {
        self.service.on_connect(port, handle, peer)
    }

    fn on_message(
        &self,
        connection: &mut S::Connection,
        handle: &mut Handle,
        buffer: &[u8],
        handles: &mut Vec<Option<Handle>>,
    ) -> (r: Result<MessageResult, TipcError>) {
        self.service.on_message(connection, handle, buffer, handles)
    }

    fn on_disconnect(&self, connection: &S::Connection) {
        self.service.on_disconnect(connection)
    }

    fn port_configurations(&self) -> (r: &[PortCfg]) {
        self.ports.as_slice()
    }

    fn max_message_length(&self) -> (r: usize) {
        self.service.max_message_length()
    }
}

/// Position of the first port of `ports` that equals `port`.
pub open spec fn port_index(ports: Seq<PortCfg>, port: PortCfgView) -> Option<int> {
    if exists|i: int| 0 <= i < ports.len() && (#[trigger] ports[i])@ == port {
        Some(
            choose|i: int|
                0 <= i < ports.len() && (#[trigger] ports[i])@ == port && forall|j: int|
                    0 <= j < i ==> (#[trigger] ports[j])@ != port,
        )
    } else {
        None
    }
}

/// The largest of the message lengths of `services`; zero when there is none.
pub open spec fn longest_of<S: UnbufferedService>(services: Seq<S>) -> usize
    decreases services.len(),
{
    if services.len() == 0 {
        0
    } else {
        let rest = longest_of(services.drop_last());
        let last = services.last().longest_message();
        if last > rest {
            last
        } else {
            rest
        }
    }
}

/// The connection state of a dispatcher of several services: the position
/// of the service that accepted the connection, and the state of that
/// service for it.
pub open spec fn tagged<C>(index: usize, inner: Result<ConnectResult<C>, TipcError>) -> Result<
    ConnectResult<(usize, C)>,
    TipcError,
> {
    match inner {
        Ok(ConnectResult::Accept(c)) => Ok(ConnectResult::Accept((index, c))),
        Ok(ConnectResult::CloseConnection) => Ok(ConnectResult::CloseConnection),
        Err(e) => Err(e),
    }
}

/// A dispatcher of up to `PORT_COUNT` services, each on its own port. A
/// connection is given to the service of the port it was made to, and
/// remembers the position of that service: its messages go to the same
/// service for as long as it lives.
pub struct ServiceDispatcher<S: UnbufferedService, const PORT_COUNT: usize> {
    ports: Vec<PortCfg>,
    services: Vec<S>,
}

impl<S: UnbufferedService, const PORT_COUNT: usize> ServiceDispatcher<S, PORT_COUNT> {
    /// The ports, in the order in which they were added.
    pub closed spec fn port_list(&self) -> Seq<PortCfg> {
        self.ports@
    }

    /// The services, in the order in which they were added.
    pub closed spec fn services(&self) -> Seq<S> {
        self.services@
    }

    /// Every port has its service, and there are at most `PORT_COUNT`.
    pub open spec fn wf(&self) -> bool {
        self.port_list().len() == self.services().len() && self.services().len() <= PORT_COUNT
    }

    /// A dispatcher without services.
    pub fn new() -> (r: Result<Self, TipcError>)
        ensures
            r matches Ok(d) && d.wf() && d.port_list() == Seq::<PortCfg>::empty() && d.services()
                == Seq::<S>::empty(),
    {
        Ok(ServiceDispatcher { ports: Vec::new(), services: Vec::new() })
    }

    /// Adds `service` on `port`. A dispatcher that already has `PORT_COUNT`
    /// services stays as it is and answers `OutOfBounds`.
    pub fn add_service(&mut self, service: S, port: PortCfg) -> (r: Result<(), TipcError>)
        requires
            old(self).wf(),
        ensures
            final(self).wf(),
            r is Ok <==> old(self).services().len() < PORT_COUNT,
            r is Ok ==> final(self).port_list() == old(self).port_list().push(port),
            r is Ok ==> final(self).services() == old(self).services().push(service),
            r matches Err(e) ==> e == TipcError::OutOfBounds,
            r is Err ==> final(self).port_list() == old(self).port_list(),
            r is Err ==> final(self).services() == old(self).services(),
    {
        if self.ports.len() >= PORT_COUNT || self.services.len() >= PORT_COUNT {
            return Err(TipcError::OutOfBounds);
        }
        self.ports.push(port);
        self.services.push(service);
        Ok(())
    }

    /// Position of the first port that equals `port`.
    fn position(&self, port: &PortCfg) -> (r: Option<usize>)
        ensures
            r is Some <==> port_index(self.port_list(), port@) is Some,
            r matches Some(i) ==> port_index(self.port_list(), port@) == Some(i as int) && i
                < self.port_list().len(),
    {
        let mut i: usize = 0;
        while i < self.ports.len()
            invariant
                i <= self.ports@.len(),
                forall|j: int| 0 <= j < i ==> (#[trigger] self.ports@[j])@ != port@,
            decreases self.ports@.len() - i,
        {
            if self.ports[i] == *port {
                return Some(i);
            }
            i = i + 1;
        }
        None
    }
}

impl<S: UnbufferedService, const PORT_COUNT: usize> Dispatcher for ServiceDispatcher<
    S,
    PORT_COUNT,
> {
    type Connection = (usize, S::Connection);

    open spec fn ports(&self) -> Seq<PortCfg> {
        self.port_list()
    }

    open spec fn longest_message(&self) -> usize {
        longest_of(self.services())
    }

    /// A connection to a port that the dispatcher does not serve is
    /// `InvalidPort`; any other is answered by the service of the port, and
    /// an accepted connection carries the position of that service.
    open spec fn accepts(
        &self,
        port: &PortCfg,
        handle: &Handle,
        peer: &Uuid,
        r: Result<ConnectResult<(usize, S::Connection)>, TipcError>,
    ) -> bool {
        match port_index(self.port_list(), port@) {
            Some(i) if i < self.services().len() => exists|
                inner: Result<ConnectResult<S::Connection>, TipcError>,
            |
                #![auto]
                self.services()[i].accepts(port, handle, peer, inner) && r == tagged(
                    i as usize,
                    inner,
                ),
            _ => r == Err::<ConnectResult<(usize, S::Connection)>, TipcError>(
                TipcError::InvalidPort,
            ),
        }
    }

    /// A message goes to the service whose position the connection
    /// carries, and the connection goes on carrying it.
    open spec fn serves(
        &self,
        connection: &(usize, S::Connection),
        handle: &Handle,
        buffer: Seq<u8>,
        handles: Seq<Option<Handle>>,
        connection_after: &(usize, S::Connection),
        handle_after: &Handle,
        handles_after: Seq<Option<Handle>>,
        r: Result<MessageResult, TipcError>,
    ) -> bool {
        if connection.0 < self.services().len() {
            &&& connection_after.0 == connection.0
            &&& self.services()[connection.0 as int].serves(
                &connection.1,
                handle,
                buffer,
                handles,
                &connection_after.1,
                handle_after,
                handles_after,
                r,
            )
        } else {
            &&& r == Err::<MessageResult, TipcError>(TipcError::InvalidData)
            &&& connection_after == connection
            &&& handle_after == handle
            &&& handles_after == handles
        }
    }

    fn on_connect(&self, port: &PortCfg, handle: &Handle, peer: &Uuid) -> (r: Result<
        ConnectResult<(usize, S::Connection)>,
        TipcError,
    >) {
        let port_idx = match self.position(port) {
            Some(i) => i,
            None => {
                return Err(TipcError::InvalidPort);
            },
        };
        if port_idx >= self.services.len() {
            return Err(TipcError::InvalidPort);
        }
        let inner = self.services[port_idx].on_connect(port, handle, peer);
        let r = match inner {
            Ok(ConnectResult::Accept(c)) => Ok(ConnectResult::Accept((port_idx, c))),
            Ok(ConnectResult::CloseConnection) => Ok(ConnectResult::CloseConnection),
            Err(e) => Err(e),
        };
        assert(self.services()[port_idx as int].accepts(port, handle, peer, inner) && r == tagged(
            port_idx,
            inner,
        ));
        r
    }

    fn on_message(
        &self,
        connection: &mut (usize, S::Connection),
        handle: &mut Handle,
        buffer: &[u8],
        handles: &mut Vec<Option<Handle>>,
    ) -> (r: Result<MessageResult, TipcError>) {
        let idx = connection.0;
        if idx >= self.services.len() {
            return Err(TipcError::InvalidData);
        }
        self.services[idx].on_message(&mut connection.1, handle, buffer, handles)
    }

    fn on_disconnect(&self, connection: &(usize, S::Connection)) {
        if connection.0 < self.services.len() {
            self.services[connection.0].on_disconnect(&connection.1)
        }
    }

    fn port_configurations(&self) -> (r: &[PortCfg]) {
        self.ports.as_slice()
    }

    fn max_message_length(&self) -> (r: usize) {
        let mut longest: usize = 0;
        let mut i: usize = 0;
        assert(self.services@.subrange(0, 0) =~= Seq::<S>::empty());
        while i < self.services.len()
            invariant
                i <= self.services@.len(),
                longest == longest_of(self.services@.subrange(0, i as int)),
            decreases self.services@.len() - i,
        {
            assert(self.services@.subrange(0, i + 1).drop_last() =~= self.services@.subrange(
                0,
                i as int,
            ));
            let len = self.services[i].max_message_length();
            if len > longest {
                longest = len;
            }
            i = i + 1;
        }
        assert(self.services@.subrange(0, i as int) =~= self.services@);
        longest
    }
}

/// With ports that differ from one another, each port is found at its own
/// position: a connection made to the port of a service is given to that
/// service.
pub proof fn lemma_distinct_ports_route_home(ports: Seq<PortCfg>, i: int)
    requires
        0 <= i < ports.len(),
        forall|a: int, b: int|
            0 <= a < b < ports.len() ==> (#[trigger] ports[a])@ != (#[trigger] ports[b])@,
    ensures
        port_index(ports, ports[i]@) == Some(i),
{
    let found = port_index(ports, ports[i]@);
    assert(found is Some);
    let j = found->Some_0;
    if j < i {
        assert(ports[j]@ != ports[i]@);
    }
}


/// A connection that was accepted on the port of a service stays with that
/// service: it carries the position of the service, every message on it is
/// served by that service, and it carries the same position afterwards.
pub proof fn lemma_connection_stays_with_its_service<S: UnbufferedService, const PORT_COUNT: usize>(
    dispatcher: ServiceDispatcher<S, PORT_COUNT>,
    i: int,
    handle: Handle,
    peer: Uuid,
    connection: (usize, S::Connection),
    buffer: Seq<u8>,
    handles: Seq<Option<Handle>>,
    connection_after: (usize, S::Connection),
    handle_after: Handle,
    handles_after: Seq<Option<Handle>>,
    r: Result<MessageResult, TipcError>,
)
    requires
        dispatcher.wf(),
        0 <= i < dispatcher.port_list().len(),
        forall|a: int, b: int|
            0 <= a < b < dispatcher.port_list().len() ==> (#[trigger] dispatcher.port_list()[a])@ != (
            #[trigger] dispatcher.port_list()[b])@,
        dispatcher.accepts(
            &dispatcher.port_list()[i],
            &handle,
            &peer,
            Ok(ConnectResult::Accept(connection)),
        ),
        dispatcher.serves(
            &connection,
            &handle,
            buffer,
            handles,
            &connection_after,
            &handle_after,
            handles_after,
            r,
        ),
    ensures
        connection.0 == i,
        connection_after.0 == i,
        dispatcher.services()[i].serves(
            &connection.1,
            &handle,
            buffer,
            handles,
            &connection_after.1,
            &handle_after,
            handles_after,
            r,
        ),
{
    lemma_distinct_ports_route_home(dispatcher.port_list(), i);
}

} // verus!
