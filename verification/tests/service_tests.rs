use trusty_ipc::channel::{Channel, ChannelTy};
use trusty_ipc::codec::{Deserialize, Serialize, Serializer};
use trusty_ipc::dispatcher::{Dispatcher, ServiceDispatcher};
use trusty_ipc::error::{SysError as Error, TipcError};
use trusty_ipc::handle::Handle;
use trusty_ipc::handle_set::HandleSet;
use trusty_ipc::manager::{
    classify_event, recovery, Event, EventKind, KernelReply, Manager, Outcome, Recovery, Request,
    IPC_HANDLE_POLL_ERROR, IPC_HANDLE_POLL_HUP, IPC_HANDLE_POLL_MSG, IPC_HANDLE_POLL_NONE,
    IPC_HANDLE_POLL_READY, IPC_HANDLE_POLL_SEND_UNBLOCKED,
};
use trusty_ipc::namespace::{
    PortNamespace, MAX_PORT_BUF_NUM, MAX_PORT_BUF_SIZE, MAX_PORT_PATH_LEN, MAX_USER_HANDLES,
};
use trusty_ipc::port::PortCfg;
use trusty_ipc::service::{ConnectResult, MessageResult, Service, UnbufferedService};
use trusty_ipc::uuid::Uuid;

const SRV_PATH_BASE: &str = "com.android.ipc-unittest";

type Result<T> = std::result::Result<T, TipcError>;

/// A message without content.
struct Unit;

impl Deserialize for Unit {
    const MAX_SERIALIZED_SIZE: usize = 0;

    fn deserialize(bytes: &[u8], _handles: &mut Vec<Option<Handle>>) -> Result<Self> {
        if bytes.len() > Self::MAX_SERIALIZED_SIZE {
            return Err(TipcError::InvalidData);
        }
        Ok(Unit)
    }
}

/// A number sent in the byte order of the machine.
struct Int(i32);

impl Serialize for Int {
    fn serialize(&self, serializer: &mut Serializer) -> Result<()> {
        serializer.serialize_bytes(&self.0.to_ne_bytes())
    }
}

struct Service1;

impl Service for Service1 {
    type Connection = ();
    type Message = Unit;

    fn on_connect(
        &self,
        _port: &PortCfg,
        _handle: &Handle,
        _peer: &Uuid,
    ) -> Result<ConnectResult<Self::Connection>> {
        Ok(ConnectResult::Accept(()))
    }

    fn on_message(
        &self,
        _connection: &mut Self::Connection,
        handle: &mut Handle,
        _msg: Self::Message,
    ) -> Result<MessageResult> {
        handle.send(&Int(1))?;
        Ok(MessageResult::MaintainConnection)
    }

    fn on_disconnect(&self, _connection: &Self::Connection) {}
}

struct Service2;

impl Service for Service2 {
    type Connection = ();
    type Message = Unit;

    fn on_connect(
        &self,
        _port: &PortCfg,
        _handle: &Handle,
        _peer: &Uuid,
    ) -> Result<ConnectResult<Self::Connection>> {
        Ok(ConnectResult::Accept(()))
    }

    fn on_message(
        &self,
        _connection: &mut Self::Connection,
        handle: &mut Handle,
        _msg: Self::Message,
    ) -> Result<MessageResult> {
        handle.send(&Int(2))?;
        Ok(MessageResult::MaintainConnection)
    }

    fn on_disconnect(&self, _connection: &Self::Connection) {}
}

struct Service3;

impl UnbufferedService for Service3 {
    type Connection = ();

    fn on_connect(
        &self,
        _port: &PortCfg,
        _handle: &Handle,
        _peer: &Uuid,
    ) -> Result<ConnectResult<Self::Connection>> {
        Ok(ConnectResult::Accept(()))
    }

    fn on_message(
        &self,
        _connection: &mut Self::Connection,
        handle: &mut Handle,
        _buffer: &[u8],
        _handles: &mut Vec<Option<Handle>>,
    ) -> Result<MessageResult> {
        handle.send(&Int(3))?;
        Ok(MessageResult::MaintainConnection)
    }

    fn on_disconnect(&self, _connection: &Self::Connection) {}

    fn max_message_length(&self) -> usize {
        0
    }
}

struct WrappedService2(Service2);

impl Service for WrappedService2 {
    type Connection = <Service2 as Service>::Connection;
    type Message = <Service2 as Service>::Message;

    fn on_connect(
        &self,
        port: &PortCfg,
        handle: &Handle,
        peer: &Uuid,
    ) -> Result<ConnectResult<Self::Connection>> {
        <Service2 as Service>::on_connect(&self.0, port, handle, peer)
    }

    fn on_message(
        &self,
        connection: &mut Self::Connection,
        handle: &mut Handle,
        msg: Self::Message,
    ) -> Result<MessageResult> {
        <Service2 as Service>::on_message(&self.0, connection, handle, msg)
    }

    fn on_disconnect(&self, connection: &Self::Connection) {
        <Service2 as Service>::on_disconnect(&self.0, connection)
    }
}

struct WrappedService3(Service3);

impl UnbufferedService for WrappedService3 {
    type Connection = <Service3 as UnbufferedService>::Connection;

    fn on_connect(
        &self,
        port: &PortCfg,
        handle: &Handle,
        peer: &Uuid,
    ) -> Result<ConnectResult<Self::Connection>> {
        <Service3 as UnbufferedService>::on_connect(&self.0, port, handle, peer)
    }

    fn on_message(
        &self,
        connection: &mut Self::Connection,
        handle: &mut Handle,
        buffer: &[u8],
        handles: &mut Vec<Option<Handle>>,
    ) -> Result<MessageResult> {
        <Service3 as UnbufferedService>::on_message(&self.0, connection, handle, buffer, handles)
    }

    fn on_disconnect(&self, connection: &Self::Connection) {
        <Service3 as UnbufferedService>::on_disconnect(&self.0, connection)
    }

    fn max_message_length(&self) -> usize {
        <Service3 as UnbufferedService>::max_message_length(&self.0)
    }
}

/// The union of the services of the tests.
enum TestService {
    Service1(Service1),
    Service2(Service2),
    Service3(Service3),
    WrappedService2(WrappedService2),
    WrappedService3(WrappedService3),
}

impl UnbufferedService for TestService {
    type Connection = ();

    fn on_connect(
        &self,
        port: &PortCfg,
        handle: &Handle,
        peer: &Uuid,
    ) -> Result<ConnectResult<Self::Connection>> {
        match self {
            TestService::Service1(s) => UnbufferedService::on_connect(s, port, handle, peer),
            TestService::Service2(s) => UnbufferedService::on_connect(s, port, handle, peer),
            TestService::Service3(s) => UnbufferedService::on_connect(s, port, handle, peer),
            TestService::WrappedService2(s) => UnbufferedService::on_connect(s, port, handle, peer),
            TestService::WrappedService3(s) => UnbufferedService::on_connect(s, port, handle, peer),
        }
    }

    fn on_message(
        &self,
        c: &mut Self::Connection,
        handle: &mut Handle,
        buffer: &[u8],
        handles: &mut Vec<Option<Handle>>,
    ) -> Result<MessageResult> {
        match self {
            TestService::Service1(s) => UnbufferedService::on_message(s, c, handle, buffer, handles),
            TestService::Service2(s) => UnbufferedService::on_message(s, c, handle, buffer, handles),
            TestService::Service3(s) => UnbufferedService::on_message(s, c, handle, buffer, handles),
            TestService::WrappedService2(s) => {
                UnbufferedService::on_message(s, c, handle, buffer, handles)
            }
            TestService::WrappedService3(s) => {
                UnbufferedService::on_message(s, c, handle, buffer, handles)
            }
        }
    }

    fn on_disconnect(&self, _connection: &Self::Connection) {}

    fn max_message_length(&self) -> usize {
        match self {
            TestService::Service1(s) => UnbufferedService::max_message_length(s),
            TestService::Service2(s) => UnbufferedService::max_message_length(s),
            TestService::Service3(s) => UnbufferedService::max_message_length(s),
            TestService::WrappedService2(s) => UnbufferedService::max_message_length(s),
            TestService::WrappedService3(s) => UnbufferedService::max_message_length(s),
        }
    }
}

type TestServiceDispatcher<const N: usize> = ServiceDispatcher<TestService, N>;

fn try_new_port(kernel: &mut PortNamespace, cfg: &PortCfg) -> Result<Channel<()>> {
    let created = kernel.port_create(cfg);
    Channel::try_new_port(cfg, created)
}

#[test]
fn port_create_negative() {
    let mut kernel = PortNamespace::new();
    let path = [0u8; 0];

    assert_eq!(
        try_new_port(&mut kernel, &PortCfg::new_raw(String::from_utf8(path.to_vec()).unwrap()))
            .err(),
        Some(TipcError::SystemError(Error::InvalidArgs)),
        "empty server path",
    );

    let mut path = format!("{}.port", SRV_PATH_BASE);

    let cfg = PortCfg::new(&path).unwrap().msg_queue_len(0);
    assert_eq!(
        try_new_port(&mut kernel, &cfg).err(),
        Some(TipcError::SystemError(Error::InvalidArgs)),
        "no buffers",
    );

    let cfg = PortCfg::new(&path).unwrap().msg_max_size(0);
    assert_eq!(
        try_new_port(&mut kernel, &cfg).err(),
        Some(TipcError::SystemError(Error::InvalidArgs)),
        "zero buffer size",
    );

    let cfg = PortCfg::new(&path).unwrap().msg_queue_len(MAX_PORT_BUF_NUM * 100);
    assert_eq!(
        try_new_port(&mut kernel, &cfg).err(),
        Some(TipcError::SystemError(Error::InvalidArgs)),
        "large number of buffers",
    );

    let cfg = PortCfg::new(&path).unwrap().msg_max_size(MAX_PORT_BUF_SIZE * 100);
    assert_eq!(
        try_new_port(&mut kernel, &cfg).err(),
        Some(TipcError::SystemError(Error::InvalidArgs)),
        "large buffers size",
    );

    while path.len() < MAX_PORT_PATH_LEN + 16 {
        path.push('a');
    }

    let cfg = PortCfg::new(&path).unwrap();
    assert_eq!(
        try_new_port(&mut kernel, &cfg).err(),
        Some(TipcError::SystemError(Error::InvalidArgs)),
        "path is too long",
    );
}

#[test]
fn port_create() {
    let mut kernel = PortNamespace::new();
    let mut channels: Vec<Channel<()>> = Vec::new();

    for i in kernel.first_free_handle_index()..MAX_USER_HANDLES - 1 {
        let path = format!("{}.port.{}{}", SRV_PATH_BASE, "test", i);
        let cfg = PortCfg::new(&path).unwrap();
        let channel = try_new_port(&mut kernel, &cfg);
        assert!(channel.is_ok(), "create ports");
        channels.push(channel.unwrap());

        assert_eq!(
            try_new_port(&mut kernel, &cfg).err(),
            Some(TipcError::SystemError(Error::AlreadyExists)),
            "collide with existing port",
        );
    }

    // Creating one more port should succeed
    let path = format!("{}.port.{}{}", SRV_PATH_BASE, "test", MAX_USER_HANDLES - 1);
    let cfg = PortCfg::new(&path).unwrap();
    let channel = try_new_port(&mut kernel, &cfg);
    assert!(channel.is_ok(), "create ports");
    channels.push(channel.unwrap());

    // but creating colliding port should fail with different error code
    // because we actually exceeded max number of handles instead of
    // colliding with an existing path
    assert_eq!(
        try_new_port(&mut kernel, &cfg).err(),
        Some(TipcError::SystemError(Error::NoResources)),
        "collide with existing port",
    );

    let path = format!("{}.port.{}{}", SRV_PATH_BASE, "test", MAX_USER_HANDLES);
    let cfg = PortCfg::new(&path).unwrap();
    assert_eq!(
        try_new_port(&mut kernel, &cfg).err(),
        Some(TipcError::SystemError(Error::NoResources)),
        "max number of ports reached",
    );
}

fn create_all<D: Dispatcher>(kernel: &mut PortNamespace, dispatcher: &D) -> Vec<std::result::Result<i32, Error>> {
    dispatcher.port_configurations().iter().map(|cfg| kernel.port_create(cfg)).collect()
}

fn five_services() -> TestServiceDispatcher<5> {
    let mut dispatcher = TestServiceDispatcher::<5>::new().unwrap();

    let path1 = format!("{}.port.{}", SRV_PATH_BASE, "testService1");
    let cfg = PortCfg::new(&path1).unwrap();
    dispatcher.add_service(TestService::Service1(Service1), cfg).expect("Could not add service 1");

    let path2 = format!("{}.port.{}", SRV_PATH_BASE, "testService2");
    let cfg = PortCfg::new(&path2).unwrap();
    dispatcher.add_service(TestService::Service2(Service2), cfg).expect("Could not add service 2");

    let path = format!("{}.port.{}", SRV_PATH_BASE, "testService3");
    let cfg = PortCfg::new(&path).unwrap();
    dispatcher.add_service(TestService::Service3(Service3), cfg).expect("Could not add service 3");

    let path = format!("{}.port.{}", SRV_PATH_BASE, "testWrappedService2");
    let cfg = PortCfg::new(&path).unwrap();
    dispatcher
        .add_service(TestService::WrappedService2(WrappedService2(Service2)), cfg)
        .expect("Could not add wrapped service 2");

    let path = format!("{}.port.{}", SRV_PATH_BASE, "testWrappedService3");
    let cfg = PortCfg::new(&path).unwrap();
    dispatcher
        .add_service(TestService::WrappedService3(WrappedService3(Service3)), cfg)
        .expect("Could not add wrapped service 3");
    dispatcher
}

#[test]
fn multiple_services() {
    let mut kernel = PortNamespace::new();
    let dispatcher = five_services();

    let buffer = vec![0u8; 4096];
    let created = create_all(&mut kernel, &dispatcher);
    Manager::<_, 5, 4>::new_with_dispatcher(dispatcher, buffer, created)
        .expect("Could not create service manager");
}

#[test]
fn unbuffered_service() {
    let mut kernel = PortNamespace::new();
    let path = format!("{}.port.{}", SRV_PATH_BASE, "unbufferedService");
    let cfg = PortCfg::new(&path).unwrap();
    let created = kernel.port_create(&cfg);
    Manager::<_, 1, 4>::new_unbuffered(Service3, cfg, created)
        .expect("Could not create service manager");
}

#[test]
fn manager_creation() {
    let mut kernel = PortNamespace::new();
    let mut dispatcher = TestServiceDispatcher::<2>::new().unwrap();

    let path1 = format!("{}.port.{}", "com.android.ipc-unittest-lifetimes", "testService1");
    let cfg = PortCfg::new(&path1).unwrap();
    dispatcher.add_service(TestService::Service1(Service1), cfg).expect("Could not add service 1");

    let path2 = format!("{}.port.{}", "com.android.ipc-unittest-lifetimes", "testService2");
    let cfg = PortCfg::new(&path2).unwrap();
    dispatcher.add_service(TestService::Service2(Service2), cfg).expect("Could not add service 2");

    let buffer = vec![0u8; 4096];
    let created = create_all(&mut kernel, &dispatcher);
    Manager::<_, 2, 4>::new_with_dispatcher(dispatcher, buffer, created)
        .expect("Could not create service manager");
}

fn peer() -> Uuid {
    Uuid::new(7, 7, 7, [7; 8])
}

fn connect_to<D: Dispatcher, const P: usize, const M: usize>(
    manager: &mut Manager<D, P, M>,
    port: usize,
    fd: i32,
) -> Result<Outcome> {
    let event = Event { cookie: port, event: IPC_HANDLE_POLL_READY };
    manager.handler(&event, KernelReply::Accepted(Ok((fd, peer()))))
}

fn send_empty<D: Dispatcher, const P: usize, const M: usize>(
    manager: &mut Manager<D, P, M>,
    cookie: usize,
) -> Vec<Vec<u8>> {
    let event = Event { cookie, event: IPC_HANDLE_POLL_MSG };
    match manager.handler(&event, KernelReply::Received(Ok((0, vec![])))) {
        Ok(Outcome::Replied { responses, closed: false, .. }) => responses,
        _ => panic!("the message was not answered"),
    }
}

#[test]
fn each_port_reaches_its_own_service() {
    let mut kernel = PortNamespace::new();
    let dispatcher = five_services();
    let created = create_all(&mut kernel, &dispatcher);
    let mut manager =
        Manager::<_, 5, 4>::new_with_dispatcher(dispatcher, vec![0u8; 16], created).unwrap();
    let answers = [1i32, 2, 3, 2, 3];
    for round in 0..3 {
        let mut cookies = Vec::new();
        for port in [3usize, 0, 4, 1] {
            match connect_to(&mut manager, port, 20 + port as i32) {
                Ok(Outcome::Connected { cookie, .. }) => cookies.push((port, cookie)),
                _ => panic!("the connection was not registered"),
            }
        }
        for _ in 0..2 {
            for (port, cookie) in &cookies {
                assert_eq!(
                    send_empty(&mut manager, *cookie),
                    vec![answers[*port].to_ne_bytes().to_vec()],
                    "round {round}"
                );
            }
        }
        // Close them in another order than they were opened.
        for (port, cookie) in cookies.iter().rev() {
            let hup = Event { cookie: *cookie, event: IPC_HANDLE_POLL_HUP };
            assert!(matches!(
                manager.handler(&hup, KernelReply::Nothing),
                Ok(Outcome::Disconnected { fd }) if fd == 20 + *port as i32
            ));
        }
    }
}

#[test]
fn connection_to_an_unknown_port_is_invalid() {
    let dispatcher = five_services();
    let handle = Handle::from_raw(1).unwrap();
    let stranger = PortCfg::new("com.android.ipc-unittest.port.stranger").unwrap();
    assert_eq!(dispatcher.on_connect(&stranger, &handle, &peer()).err(), Some(TipcError::InvalidPort));
    // The same path with other settings is another port.
    let other =
        PortCfg::new("com.android.ipc-unittest.port.testService1").unwrap().allow_ta_connect();
    assert_eq!(dispatcher.on_connect(&other, &handle, &peer()).err(), Some(TipcError::InvalidPort));
    let known = PortCfg::new("com.android.ipc-unittest.port.testService2").unwrap();
    match dispatcher.on_connect(&known, &handle, &peer()) {
        Ok(ConnectResult::Accept((index, ()))) => assert_eq!(index, 1),
        _ => panic!("the connection was not accepted"),
    }
}

#[test]
fn dispatcher_takes_no_more_services_than_it_has_room_for() {
    let mut dispatcher = TestServiceDispatcher::<1>::new().unwrap();
    let cfg = PortCfg::new("a").unwrap();
    assert_eq!(dispatcher.add_service(TestService::Service1(Service1), cfg), Ok(()));
    let cfg = PortCfg::new("b").unwrap();
    assert_eq!(
        dispatcher.add_service(TestService::Service2(Service2), cfg),
        Err(TipcError::OutOfBounds)
    );
    assert_eq!(dispatcher.port_configurations().len(), 1);
    assert_eq!(dispatcher.port_configurations()[0].path(), "a");
}

#[test]
fn message_for_a_service_that_is_not_there_is_invalid() {
    let dispatcher = five_services();
    let mut handle = Handle::from_raw(1).unwrap();
    let mut connection = (5usize, ());
    let mut handles = vec![];
    assert_eq!(
        dispatcher.on_message(&mut connection, &mut handle, &[], &mut handles),
        Err(TipcError::InvalidData)
    );
}

struct Big;

impl Deserialize for Big {
    const MAX_SERIALIZED_SIZE: usize = 4097;

    fn deserialize(bytes: &[u8], _handles: &mut Vec<Option<Handle>>) -> Result<Self> {
        if bytes.len() > Self::MAX_SERIALIZED_SIZE {
            return Err(TipcError::InvalidData);
        }
        Ok(Big)
    }
}

struct BigService;

impl Service for BigService {
    type Connection = ();
    type Message = Big;

    fn on_connect(&self, _: &PortCfg, _: &Handle, _: &Uuid) -> Result<ConnectResult<()>> {
        Ok(ConnectResult::CloseConnection)
    }

    fn on_message(&self, _: &mut (), _: &mut Handle, _: Big) -> Result<MessageResult> {
        Ok(MessageResult::CloseConnection)
    }

    fn on_disconnect(&self, _: &()) {}
}

#[test]
fn manager_needs_a_buffer_for_the_longest_message() {
    let cfg = PortCfg::new("big").unwrap();
    let r = Manager::<_, 1, 1>::new(BigService, cfg, vec![0u8; 4096], Ok(1));
    assert_eq!(r.err(), Some(TipcError::NotEnoughBuffer));
    let cfg = PortCfg::new("big").unwrap();
    assert!(Manager::<_, 1, 1>::new(BigService, cfg, vec![0u8; 4097], Ok(1)).is_ok());
    // The dispatcher must serve as many ports as the manager is made for.
    let cfg = PortCfg::new("big").unwrap();
    let r = Manager::<_, 2, 1>::new(BigService, cfg, vec![0u8; 4097], Ok(1));
    assert_eq!(r.err(), Some(TipcError::OutOfBounds));
}

#[test]
fn refused_and_closed_connections_leave_no_trace() {
    let cfg = PortCfg::new("big").unwrap();
    let mut manager = Manager::<_, 1, 1>::new(BigService, cfg, vec![0u8; 4097], Ok(1)).unwrap();
    assert!(matches!(connect_to(&mut manager, 0, 5), Ok(Outcome::Rejected { fd: 5 })));
    let message = Event { cookie: 1, event: IPC_HANDLE_POLL_MSG };
    assert_eq!(manager.request_for(&message), Err(TipcError::InvalidData));
    assert_eq!(
        manager.handler(&message, KernelReply::Received(Ok((0, vec![])))).err(),
        Some(TipcError::InvalidData)
    );
}

#[test]
fn failed_accept_is_reported() {
    let mut manager = trusty_ipc::hello::init_service(Ok(0)).unwrap();
    let connect = Event { cookie: 0, event: IPC_HANDLE_POLL_READY };
    let r = manager.handler(&connect, KernelReply::Accepted(Err(TipcError::SystemError(Error::ChannelClosed))));
    assert_eq!(r.err(), Some(TipcError::SystemError(Error::ChannelClosed)));
    let r = manager.handler(&connect, KernelReply::Accepted(Ok((-2, peer()))));
    assert_eq!(r.err(), Some(TipcError::InvalidHandle));
    let r = manager.handler(&connect, KernelReply::Nothing);
    assert_eq!(r.err(), Some(TipcError::InvalidData));
}

#[test]
fn failed_receive_closes_the_connection() {
    let mut manager = trusty_ipc::hello::init_service(Ok(0)).unwrap();
    let cookie = match connect_to(&mut manager, 0, 5) {
        Ok(Outcome::Connected { cookie, fd: 5 }) => cookie,
        _ => panic!("the connection was not registered"),
    };
    let message = Event { cookie, event: IPC_HANDLE_POLL_MSG };
    match manager.handler(&message, KernelReply::Received(Err(TipcError::NotEnoughBuffer))) {
        Ok(Outcome::Replied { fd: 5, responses, closed: true, error, .. }) => {
            assert!(responses.is_empty());
            assert_eq!(error, Some(TipcError::NotEnoughBuffer));
        }
        _ => panic!("the connection was not closed"),
    }
    assert_eq!(manager.request_for(&message), Err(TipcError::InvalidData));
    // There is room for a new connection, under the cookie that became free.
    assert!(matches!(connect_to(&mut manager, 0, 6), Ok(Outcome::Connected { cookie: c, fd: 6 }) if c == cookie));
}

#[test]
fn message_said_to_be_longer_than_the_buffer_closes_the_connection() {
    let mut manager = trusty_ipc::hello::init_service(Ok(0)).unwrap();
    let cookie = match connect_to(&mut manager, 0, 5) {
        Ok(Outcome::Connected { cookie, .. }) => cookie,
        _ => panic!("the connection was not registered"),
    };
    let message = Event { cookie, event: IPC_HANDLE_POLL_MSG };
    assert!(matches!(
        manager.handler(&message, KernelReply::Received(Ok((101, vec![])))),
        Ok(Outcome::Replied { closed: true, error: Some(TipcError::InvalidData), .. })
    ));
}

#[test]
fn events_are_classified_by_channel_and_flags() {
    assert_eq!(classify_event(true, IPC_HANDLE_POLL_READY), Some(EventKind::Connect));
    assert_eq!(classify_event(false, IPC_HANDLE_POLL_READY), None);
    assert_eq!(classify_event(false, IPC_HANDLE_POLL_MSG), Some(EventKind::Message));
    assert_eq!(
        classify_event(false, IPC_HANDLE_POLL_MSG | IPC_HANDLE_POLL_HUP),
        Some(EventKind::Message)
    );
    assert_eq!(classify_event(false, IPC_HANDLE_POLL_HUP), Some(EventKind::Disconnect));
    assert_eq!(classify_event(true, IPC_HANDLE_POLL_MSG), None);
    assert_eq!(classify_event(true, IPC_HANDLE_POLL_HUP), None);
    assert_eq!(classify_event(true, IPC_HANDLE_POLL_SEND_UNBLOCKED), Some(EventKind::SendUnblocked));
    assert_eq!(classify_event(false, IPC_HANDLE_POLL_SEND_UNBLOCKED), Some(EventKind::SendUnblocked));
    assert_eq!(classify_event(true, IPC_HANDLE_POLL_NONE), Some(EventKind::Nothing));
    assert_eq!(classify_event(false, IPC_HANDLE_POLL_NONE), Some(EventKind::Nothing));
    assert_eq!(classify_event(false, IPC_HANDLE_POLL_ERROR), None);
    assert_eq!(classify_event(true, 0x20), None);
}

#[test]
fn unknown_events_and_cookies_are_errors() {
    let mut manager = trusty_ipc::hello::init_service(Ok(0)).unwrap();
    let odd = Event { cookie: 0, event: IPC_HANDLE_POLL_ERROR };
    assert_eq!(manager.request_for(&odd), Err(TipcError::UnknownError));
    assert_eq!(manager.handler(&odd, KernelReply::Nothing).err(), Some(TipcError::UnknownError));
    let dangling = Event { cookie: 9, event: IPC_HANDLE_POLL_MSG };
    assert_eq!(manager.request_for(&dangling), Err(TipcError::InvalidData));
    assert_eq!(manager.handler(&dangling, KernelReply::Nothing).err(), Some(TipcError::InvalidData));
    let unblocked = Event { cookie: 0, event: IPC_HANDLE_POLL_SEND_UNBLOCKED };
    assert_eq!(manager.request_for(&unblocked), Ok(Request::Nothing));
    assert!(matches!(
        manager.handler(&unblocked, KernelReply::Nothing),
        Ok(Outcome::SendUnblocked)
    ));
    let idle = Event { cookie: 0, event: IPC_HANDLE_POLL_NONE };
    assert_eq!(manager.request_for(&idle), Ok(Request::Nothing));
    assert!(matches!(manager.handler(&idle, KernelReply::Nothing), Ok(Outcome::Idle)));
}

#[test]
fn loop_goes_on_after_expected_errors() {
    assert_eq!(recovery(&TipcError::SystemError(Error::TimedOut)), Recovery::Ignore);
    assert_eq!(recovery(&TipcError::SystemError(Error::ChannelClosed)), Recovery::Ignore);
    assert_eq!(recovery(&TipcError::ChannelClosed), Recovery::Ignore);
    assert_eq!(recovery(&TipcError::IncompleteWrite { num_bytes_written: 3 }), Recovery::Warn);
    assert_eq!(recovery(&TipcError::NotEnoughBuffer), Recovery::Warn);
    assert_eq!(recovery(&TipcError::Busy), Recovery::Warn);
    for fatal in [
        TipcError::InvalidHandle,
        TipcError::InvalidPort,
        TipcError::AllocError,
        TipcError::OutOfBounds,
        TipcError::UnknownError,
        TipcError::InvalidData,
        TipcError::SystemError(Error::InvalidArgs),
        TipcError::SystemError(Error::NoResources),
        TipcError::SystemError(Error::NotEnoughBuffer),
    ] {
        assert_eq!(recovery(&fatal), Recovery::Fatal);
    }
}

fn connection(fd: i32, data: u32) -> Channel<u32> {
    Channel::try_new_connection(Handle::from_raw(fd).unwrap(), data).unwrap()
}

fn port(name: &str, fd: i32) -> Channel<u32> {
    Channel::try_new_port(&PortCfg::new(name).unwrap(), Ok(fd)).unwrap()
}

#[test]
fn registry_refuses_more_connections_than_it_has_room_for() {
    let mut set = HandleSet::<u32, 2, 3>::try_new(vec![port("a", 0), port("b", 1)]).unwrap();
    let mut cookies = Vec::new();
    for i in 0..3 {
        cookies.push(set.add_connection(connection(10 + i, 100 + i as u32)).ok().unwrap());
    }
    assert_eq!(cookies, vec![2, 3, 4]);
    assert_eq!(set.count_connections(), 3);
    match set.add_connection(connection(13, 103)) {
        Err((TipcError::OutOfBounds, back)) => assert_eq!(back.handle().as_raw_fd(), 13),
        _ => panic!("a fourth connection was taken"),
    }
    assert_eq!(set.count_connections(), 3);
    for (i, cookie) in cookies.iter().enumerate() {
        let channel = set.resolve(*cookie).unwrap();
        assert!(channel.is_connection());
        assert_eq!(channel.handle().as_raw_fd(), 10 + i as i32);
        assert!(matches!(channel.ty, ChannelTy::Connection(data) if data == 100 + i as u32));
    }
    // A place that becomes free is taken again.
    let closed = set.close(3).unwrap();
    assert_eq!(closed.handle().as_raw_fd(), 11);
    assert!(set.resolve(3).is_none());
    assert_eq!(set.add_connection(connection(14, 104)).ok(), Some(3));
    assert_eq!(set.resolve(2).unwrap().handle().as_raw_fd(), 10);
    assert_eq!(set.resolve(4).unwrap().handle().as_raw_fd(), 12);
}

#[test]
fn registry_keeps_its_ports() {
    let mut set = HandleSet::<u32, 2, 1>::try_new(vec![port("a", 0), port("b", 1)]).unwrap();
    assert!(set.resolve(0).unwrap().is_port());
    assert!(set.resolve(1).unwrap().is_port());
    assert!(set.resolve(2).is_none());
    assert!(set.close(0).is_none());
    assert!(set.close(7).is_none());
    assert!(set.resolve(0).is_some());
    match set.add_connection(port("c", 2)) {
        Err((TipcError::InvalidData, _)) => {}
        _ => panic!("a port was taken for a connection"),
    }
}

#[test]
fn registry_is_made_of_ports_only() {
    assert_eq!(
        HandleSet::<u32, 2, 1>::try_new(vec![port("a", 0)]).err(),
        Some(TipcError::OutOfBounds)
    );
    assert_eq!(
        HandleSet::<u32, 2, 1>::try_new(vec![port("a", 0), connection(1, 1)]).err(),
        Some(TipcError::InvalidPort)
    );
    assert!(HandleSet::<u32, 0, 1>::try_new(vec![]).is_ok());
}

#[test]
fn port_configuration_is_built_by_chaining() {
    let cfg = PortCfg::new("com.android.trusty.rust_port_test")
        .unwrap()
        .msg_queue_len(4)
        .msg_max_size(4096)
        .allow_ta_connect();
    assert_eq!(cfg.path(), "com.android.trusty.rust_port_test");
    assert_eq!(cfg.queue_len(), 4);
    assert_eq!(cfg.max_size(), 4096);
    assert_eq!(cfg.flags(), 1);
    assert!(cfg.admits(true));
    assert!(!cfg.admits(false));
    let cfg = cfg.allow_ns_connect();
    assert_eq!(cfg.flags(), 3);
    assert!(cfg.admits(false));
    let copy = cfg.try_clone().unwrap();
    assert!(copy == cfg);
    assert!(copy != copy.try_clone().unwrap().msg_queue_len(5));
    let plain = PortCfg::new("p").unwrap();
    assert_eq!((plain.queue_len(), plain.max_size(), plain.flags()), (1, 4096, 0));
    assert_eq!(PortCfg::new("p\0q").err(), Some(TipcError::InvalidPort));
    assert_eq!(PortCfg::new("\u{e9}\0").err(), Some(TipcError::InvalidPort));
    assert!(PortCfg::new("\u{e9}t\u{e9}").is_ok());
}

#[test]
fn handles_are_descriptors() {
    assert_eq!(Handle::from_raw(-1).err(), Some(TipcError::InvalidHandle));
    let handle = Handle::from_raw(0).unwrap();
    assert_eq!(handle.as_raw_fd(), 0);
    assert!(handle == Handle::from_raw(0).unwrap());
    assert!(handle != Handle::from_raw(1).unwrap());
}

#[test]
fn closed_handles_can_be_used_again() {
    let mut kernel = PortNamespace::new();
    let a = kernel.port_create(&PortCfg::new("a").unwrap()).unwrap();
    let b = kernel.port_create(&PortCfg::new("b").unwrap()).unwrap();
    assert_eq!((a, b), (0, 1));
    assert_eq!(kernel.close(a), Ok(()));
    assert_eq!(kernel.close(a), Err(Error::NotFound));
    assert_eq!(kernel.close(-1), Err(Error::NotFound));
    assert_eq!(kernel.close(64), Err(Error::NotFound));
    assert_eq!(kernel.first_free_handle_index(), 0);
    assert_eq!(kernel.port_create(&PortCfg::new("a").unwrap()), Ok(0));
    assert_eq!(kernel.port_create(&PortCfg::new("b").unwrap()), Err(Error::AlreadyExists));
}

#[test]
fn standard_policy_is_the_rule_of_the_loop() {
    let policy = trusty_ipc::manager::RecoveryPolicy::standard();
    for err in [
        TipcError::SystemError(Error::TimedOut),
        TipcError::SystemError(Error::ChannelClosed),
        TipcError::ChannelClosed,
        TipcError::IncompleteWrite { num_bytes_written: 0 },
        TipcError::NotEnoughBuffer,
        TipcError::Busy,
        TipcError::OutOfBounds,
        TipcError::InvalidData,
        TipcError::UnknownError,
        TipcError::SystemError(Error::NoResources),
    ] {
        assert_eq!(policy.decide(&err), recovery(&err));
    }
    let lenient = trusty_ipc::manager::RecoveryPolicy { out_of_bounds: Recovery::Warn, ..policy };
    assert_eq!(lenient.decide(&TipcError::OutOfBounds), Recovery::Warn);
    assert_eq!(lenient.decide(&TipcError::InvalidData), Recovery::Fatal);
}

enum SizedService {
    Small(Service1),
    Big(BigService),
}

impl UnbufferedService for SizedService {
    type Connection = ();

    fn on_connect(&self, _: &PortCfg, _: &Handle, _: &Uuid) -> Result<ConnectResult<()>> {
        Ok(ConnectResult::Accept(()))
    }

    fn on_message(
        &self,
        _: &mut (),
        _: &mut Handle,
        _: &[u8],
        _: &mut Vec<Option<Handle>>,
    ) -> Result<MessageResult> {
        Ok(MessageResult::CloseConnection)
    }

    fn max_message_length(&self) -> usize {
        match self {
            SizedService::Small(s) => UnbufferedService::max_message_length(s),
            SizedService::Big(s) => UnbufferedService::max_message_length(s),
        }
    }
}

#[test]
fn longest_message_is_the_longest_of_any_service() {
    let mut dispatcher = ServiceDispatcher::<SizedService, 3>::new().unwrap();
    assert_eq!(dispatcher.max_message_length(), 0);
    dispatcher.add_service(SizedService::Small(Service1), PortCfg::new("a").unwrap()).unwrap();
    assert_eq!(dispatcher.max_message_length(), 0);
    dispatcher.add_service(SizedService::Big(BigService), PortCfg::new("b").unwrap()).unwrap();
    assert_eq!(dispatcher.max_message_length(), 4097);
    dispatcher.add_service(SizedService::Small(Service1), PortCfg::new("c").unwrap()).unwrap();
    assert_eq!(dispatcher.max_message_length(), 4097);
    let r = Manager::<_, 3, 1>::new_with_dispatcher(dispatcher, vec![0u8; 4096], vec![Ok(0), Ok(1), Ok(2)]);
    assert_eq!(r.err(), Some(TipcError::NotEnoughBuffer));
}

#[test]
fn service_that_asks_to_close_is_closed() {
    let mut dispatcher = ServiceDispatcher::<SizedService, 1>::new().unwrap();
    dispatcher.add_service(SizedService::Small(Service1), PortCfg::new("a").unwrap()).unwrap();
    let mut manager =
        Manager::<_, 1, 2>::new_with_dispatcher(dispatcher, vec![0u8; 8], vec![Ok(0)]).unwrap();
    let first = match connect_to(&mut manager, 0, 5) {
        Ok(Outcome::Connected { cookie, .. }) => cookie,
        _ => panic!("the connection was not registered"),
    };
    let second = match connect_to(&mut manager, 0, 6) {
        Ok(Outcome::Connected { cookie, .. }) => cookie,
        _ => panic!("the connection was not registered"),
    };
    let event = Event { cookie: first, event: IPC_HANDLE_POLL_MSG };
    assert!(matches!(
        manager.handler(&event, KernelReply::Received(Ok((0, vec![])))),
        Ok(Outcome::Replied { fd: 5, closed: true, error: None, .. })
    ));
    assert_eq!(manager.request_for(&event), Err(TipcError::InvalidData));
    let other = Event { cookie: second, event: IPC_HANDLE_POLL_MSG };
    assert_eq!(manager.request_for(&other), Ok(Request::Receive { connection: 6 }));
}

#[test]
fn failed_send_closes_its_connection_and_no_other() {
    let mut dispatcher = ServiceDispatcher::<TestService, 1>::new().unwrap();
    dispatcher.add_service(TestService::Service1(Service1), PortCfg::new("a").unwrap()).unwrap();
    let mut manager =
        Manager::<_, 1, 2>::new_with_dispatcher(dispatcher, vec![0u8; 8], vec![Ok(0)]).unwrap();
    let first = match connect_to(&mut manager, 0, 5) {
        Ok(Outcome::Connected { cookie, .. }) => cookie,
        _ => panic!("the connection was not registered"),
    };
    let second = match connect_to(&mut manager, 0, 6) {
        Ok(Outcome::Connected { cookie, .. }) => cookie,
        _ => panic!("the connection was not registered"),
    };
    assert_eq!(send_empty(&mut manager, first), vec![1i32.to_ne_bytes().to_vec()]);
    // A send that went well changes nothing.
    assert!(matches!(manager.handle_sent(first, Ok(())), Outcome::Idle));
    let event = Event { cookie: first, event: IPC_HANDLE_POLL_MSG };
    assert_eq!(manager.request_for(&event), Ok(Request::Receive { connection: 5 }));
    // The peer does not read: the send fails with an error that would end the loop.
    let failure = TipcError::SystemError(Error::NotEnoughBuffer);
    assert_eq!(recovery(&failure), Recovery::Fatal);
    match manager.handle_sent(first, Err(failure)) {
        Outcome::Closed { fd, error } => {
            assert_eq!(fd, 5);
            assert_eq!(error, failure);
        }
        _ => panic!("the connection was not closed"),
    }
    assert_eq!(manager.request_for(&event), Err(TipcError::InvalidData));
    let other = Event { cookie: second, event: IPC_HANDLE_POLL_MSG };
    assert_eq!(manager.request_for(&other), Ok(Request::Receive { connection: 6 }));
    assert_eq!(send_empty(&mut manager, second), vec![1i32.to_ne_bytes().to_vec()]);
    // For a connection that is gone, and for a port, nothing changes.
    assert!(matches!(manager.handle_sent(first, Err(TipcError::Busy)), Outcome::Idle));
    assert!(matches!(manager.handle_sent(0, Err(TipcError::Busy)), Outcome::Idle));
    assert_eq!(
        manager.request_for(&Event { cookie: 0, event: IPC_HANDLE_POLL_READY }),
        Ok(Request::Accept { port: 0 })
    );
}

#[test]
fn connection_that_the_kernel_does_not_wait_on_is_given_up() {
    let mut manager = trusty_ipc::hello::init_service(Ok(0)).unwrap();
    let cookie = match connect_to(&mut manager, 0, 5) {
        Ok(Outcome::Connected { cookie, .. }) => cookie,
        _ => panic!("the connection was not registered"),
    };
    assert!(matches!(manager.handle_registered(cookie, Ok(())), Ok(Outcome::Idle)));
    let event = Event { cookie, event: IPC_HANDLE_POLL_MSG };
    assert_eq!(manager.request_for(&event), Ok(Request::Receive { connection: 5 }));
    let refused = TipcError::SystemError(Error::NoResources);
    assert_eq!(manager.handle_registered(cookie, Err(refused)).err(), Some(refused));
    assert_eq!(manager.request_for(&event), Err(TipcError::InvalidData));
    // The place is free again.
    assert!(matches!(connect_to(&mut manager, 0, 6), Ok(Outcome::Connected { fd: 6, .. })));
}

#[test]
fn buffer_is_checked_against_the_longest_message() {
    let small = SingleDispatcherFor::small();
    assert_eq!(Manager::<_, 1, 1>::check_buffer(&small, 0), Ok(()));
    let mut dispatcher = ServiceDispatcher::<SizedService, 2>::new().unwrap();
    dispatcher.add_service(SizedService::Big(BigService), PortCfg::new("b").unwrap()).unwrap();
    assert_eq!(
        Manager::<_, 2, 1>::check_buffer(&dispatcher, 4096),
        Err(TipcError::NotEnoughBuffer)
    );
    assert_eq!(Manager::<_, 2, 1>::check_buffer(&dispatcher, 4097), Ok(()));
}

struct SingleDispatcherFor;

impl SingleDispatcherFor {
    fn small() -> ServiceDispatcher<SizedService, 1> {
        let mut dispatcher = ServiceDispatcher::<SizedService, 1>::new().unwrap();
        dispatcher
            .add_service(SizedService::Small(Service1), PortCfg::new("a").unwrap())
            .unwrap();
        dispatcher
    }
}
