use trusty_ipc::codec::{decode, Deserialize, Serialize, Serializer};
use trusty_ipc::error::{SysError, TipcError};
use trusty_ipc::handle::Handle;
use trusty_ipc::hello::{
    greet, init_service, port_config, HelloWorldMessage, HelloWorldService, Tag,
    HELLO_TRUSTY_MAX_MSG_SIZE,
};
use trusty_ipc::manager::{
    Event, KernelReply, Outcome, Request, IPC_HANDLE_POLL_MSG, IPC_HANDLE_POLL_READY,
};
use trusty_ipc::namespace::PortNamespace;
use trusty_ipc::service::{MessageResult, Service};
use trusty_ipc::uuid::Uuid;

const HELLO_TRUSTY_PORT_NAME: &str = "com.android.trusty.hello";

fn serialize(msg: &HelloWorldMessage) -> Vec<u8> {
    let mut serializer = Serializer::new();
    msg.serialize(&mut serializer).unwrap();
    serializer.into_bytes()
}

#[test]
fn connection_test() {
    let mut kernel = PortNamespace::new();
    kernel.port_create(&port_config().unwrap()).unwrap();
    let _session = kernel.connect(HELLO_TRUSTY_PORT_NAME, true).unwrap();
}

#[test]
fn hello_world_test() {
    // Setting up the service and the connection to it.
    let mut kernel = PortNamespace::new();
    let port = kernel.port_create(&port_config().unwrap());
    let mut manager = init_service(port).unwrap();
    let session = kernel.connect(HELLO_TRUSTY_PORT_NAME, true).unwrap();
    let connect = Event { cookie: 0, event: IPC_HANDLE_POLL_READY };
    assert_eq!(manager.request_for(&connect), Ok(Request::Accept { port: port.unwrap() }));
    let peer = Uuid::new(0, 0, 0, [0; 8]);
    let cookie = match manager.handler(&connect, KernelReply::Accepted(Ok((session, peer)))) {
        Ok(Outcome::Connected { cookie, .. }) => cookie,
        _ => panic!("the connection was not accepted"),
    };
    // Creating the input bytes, and sending them to the service.
    let inputstring = "World";
    let test_message = HelloWorldMessage {
        tag: Tag::TagString,
        length: inputstring.len().try_into().unwrap(),
        message: inputstring.as_bytes().to_vec(),
    };
    let sent = serialize(&test_message);
    assert_eq!(sent, [&[1u8, 5][..], b"World"].concat());
    manager.buffer_mut()[..sent.len()].copy_from_slice(&sent);
    let message = Event { cookie, event: IPC_HANDLE_POLL_MSG };
    let outcome = manager.handler(&message, KernelReply::Received(Ok((sent.len(), vec![]))));
    // Receiving the response and checking that it matches "Hello, World!".
    let responses = match outcome {
        Ok(Outcome::Replied { responses, closed: false, error: None, .. }) => responses,
        _ => panic!("The message should be able to be sent."),
    };
    assert_eq!(responses.len(), 1);
    let buf = &mut [0; HELLO_TRUSTY_MAX_MSG_SIZE];
    buf[..responses[0].len()].copy_from_slice(&responses[0]);
    let mut handles = vec![];
    let response: Result<HelloWorldMessage, _> = decode(&responses[0], &mut handles);
    assert!(response.is_ok(), "The message should be able to be sent.");
    let deserializedstr = std::str::from_utf8(&buf[2..])
        .expect("Not a valid UTF-8 string!")
        .trim_matches(char::from(0));
    assert_eq!(
        deserializedstr, "Hello, World!",
        "Testing that {} would return Hello, {}!",
        inputstring, inputstring
    );
    assert_eq!(responses[0], [&[1u8, 13][..], b"Hello, World!"].concat());
}

#[test]
fn greeting_service_answers_through_its_handle() {
    let service = HelloWorldService;
    let mut handle = Handle::from_raw(3).unwrap();
    let msg = HelloWorldMessage { tag: Tag::TagString, length: 5, message: b"World".to_vec() };
    assert_eq!(service.on_message(&mut (), &mut handle, msg), Ok(MessageResult::MaintainConnection));
    assert_eq!(handle.take_outgoing(), vec![[&[1u8, 13][..], b"Hello, World!"].concat()]);
    assert!(handle.take_outgoing().is_empty());
}

#[test]
fn greeting_service_refuses_what_it_cannot_answer() {
    let service = HelloWorldService;
    let mut handle = Handle::from_raw(3).unwrap();
    let not_text = HelloWorldMessage { tag: Tag::TagString, length: 2, message: vec![0xff, 0xfe] };
    assert_eq!(service.on_message(&mut (), &mut handle, not_text), Err(TipcError::InvalidData));
    let longest = HelloWorldMessage { tag: Tag::TagString, length: 247, message: vec![b'a'; 247] };
    assert_eq!(service.on_message(&mut (), &mut handle, longest), Ok(MessageResult::MaintainConnection));
    let sent = handle.take_outgoing();
    assert_eq!(sent[0].len(), 257);
    assert_eq!(sent[0][1], 255);
    let too_long = HelloWorldMessage { tag: Tag::TagString, length: 248, message: vec![b'a'; 248] };
    assert_eq!(service.on_message(&mut (), &mut handle, too_long), Err(TipcError::InvalidData));
    assert!(handle.take_outgoing().is_empty());
}

#[test]
fn greet_wraps_the_name() {
    assert_eq!(greet(b""), b"Hello, !".to_vec());
    assert_eq!(greet(b"World"), b"Hello, World!".to_vec());
}

#[test]
fn hello_message_roundtrip() {
    let msg = HelloWorldMessage { tag: Tag::TagError, length: 3, message: vec![7, 8, 9] };
    let bytes = serialize(&msg);
    assert_eq!(bytes, vec![2, 3, 7, 8, 9]);
    let mut handles = vec![];
    let back = HelloWorldMessage::deserialize(&bytes, &mut handles).unwrap();
    assert_eq!(back.tag, Tag::TagError);
    assert_eq!(back.length, 3);
    assert_eq!(back.message, vec![7, 8, 9]);
}

#[test]
fn hello_message_with_wrong_length_is_invalid() {
    let mut handles = vec![];
    for bytes in [&[][..], &[1], &[1, 1], &[1, 0, 5], &[1, 3, 5, 6]] {
        assert_eq!(
            HelloWorldMessage::deserialize(bytes, &mut handles).err(),
            Some(TipcError::InvalidData)
        );
    }
    let empty = HelloWorldMessage::deserialize(&[9, 0], &mut handles).unwrap();
    assert_eq!(empty.tag, Tag::TagError);
    assert!(empty.message.is_empty());
}

#[test]
fn tag_of_byte() {
    assert_eq!(Tag::from(1), Tag::TagString);
    assert_eq!(Tag::from(2), Tag::TagError);
    assert_eq!(Tag::from(0), Tag::TagError);
    assert_eq!(Tag::from(255), Tag::TagError);
}

#[test]
fn message_longer_than_the_maximum_is_invalid() {
    // The bytes are well formed, but there are more of them than the type allows.
    let mut bytes = vec![1u8, 120];
    bytes.extend(std::iter::repeat(b'x').take(120));
    let mut handles = vec![];
    assert_eq!(
        HelloWorldMessage::deserialize(&bytes, &mut handles).err(),
        Some(TipcError::InvalidData)
    );
    let decoded: Result<HelloWorldMessage, TipcError> = decode(&bytes, &mut handles);
    assert_eq!(decoded.err(), Some(TipcError::InvalidData));
    // Tag, a length of 100 and 100 bytes of text: 102 bytes, two more than the maximum.
    let mut bytes = vec![1u8, 100];
    bytes.extend(std::iter::repeat(b'a').take(100));
    assert_eq!(
        HelloWorldMessage::deserialize(&bytes, &mut handles).err(),
        Some(TipcError::InvalidData)
    );
    for len in 101usize..=257 {
        let mut bytes = vec![1u8, (len - 2) as u8];
        bytes.extend(std::iter::repeat(b'a').take(len - 2));
        assert_eq!(
            HelloWorldMessage::deserialize(&bytes, &mut handles).err(),
            Some(TipcError::InvalidData)
        );
    }
    let at_limit = {
        let mut b = vec![1u8, 98];
        b.extend(std::iter::repeat(b'x').take(98));
        b
    };
    assert_eq!(at_limit.len(), HELLO_TRUSTY_MAX_MSG_SIZE);
    let decoded: Result<HelloWorldMessage, TipcError> = decode(&at_limit, &mut handles);
    assert!(decoded.is_ok());
    let message = HelloWorldMessage::deserialize(&at_limit, &mut handles).unwrap();
    assert_eq!(message.length, 98);
    assert_eq!(message.message, vec![b'x'; 98]);
}

#[test]
fn message_with_too_many_handles_is_invalid() {
    let mut handles: Vec<Option<Handle>> = (0..9).map(|fd| Handle::from_raw(fd).ok()).collect();
    let decoded: Result<HelloWorldMessage, TipcError> = decode(&[1, 0], &mut handles);
    assert_eq!(decoded.err(), Some(TipcError::InvalidData));
    assert_eq!(handles.len(), 9);
}

#[test]
fn hello_port_settings() {
    let cfg = port_config().unwrap();
    assert_eq!(cfg.path(), HELLO_TRUSTY_PORT_NAME);
    assert_eq!(cfg.max_size(), 100);
    assert_eq!(cfg.queue_len(), 1);
    assert!(cfg.admits(true));
    assert!(!cfg.admits(false));
}

#[test]
fn hello_service_needs_its_port() {
    assert_eq!(init_service(Err(SysError::AlreadyExists)).err(), Some(TipcError::UnknownError));
    assert_eq!(init_service(Ok(-1)).err(), Some(TipcError::UnknownError));
    assert!(init_service(Ok(4)).is_ok());
}

#[test]
fn malformed_message_closes_only_its_connection() {
    let mut manager = init_service(Ok(0)).unwrap();
    let connect = Event { cookie: 0, event: IPC_HANDLE_POLL_READY };
    let peer = Uuid::new(0, 0, 0, [0; 8]);
    let cookie = match manager.handler(&connect, KernelReply::Accepted(Ok((9, peer)))) {
        Ok(Outcome::Connected { cookie, .. }) => cookie,
        _ => panic!("the connection was not accepted"),
    };
    manager.buffer_mut()[..3].copy_from_slice(&[1, 9, b'x']);
    let message = Event { cookie, event: IPC_HANDLE_POLL_MSG };
    match manager.handler(&message, KernelReply::Received(Ok((3, vec![])))) {
        Ok(Outcome::Replied { fd: 9, responses, closed: true, error: Some(TipcError::InvalidData), .. }) => {
            assert!(responses.is_empty())
        }
        _ => panic!("the connection was not closed"),
    }
    assert_eq!(manager.request_for(&message), Err(TipcError::InvalidData));
    assert_eq!(manager.request_for(&connect), Ok(Request::Accept { port: 0 }));
}
