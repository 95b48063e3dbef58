//! A greeting service: it answers a name with a greeting for the name.
//!
//! A message is one byte of tag, one byte of length and as many bytes of
//! text as the length says.

use crate::codec::{Deserialize, Serialize, Serializer};
use crate::dispatcher::SingleDispatcher;
use crate::error::{SysError, TipcError};
use crate::handle::Handle;
use crate::manager::Manager;
use crate::port::{PortCfg, PortCfgView, DEFAULT_MSG_QUEUE_LEN, IPC_PORT_ALLOW_TA_CONNECT};
use crate::service::{ConnectResult, MessageResult, Service};
use crate::uuid::Uuid;
use vstd::prelude::*;
use vstd::std_specs::convert::FromSpecImpl;

verus! {

/// The length of the longest message of the service.
pub const HELLO_TRUSTY_MAX_MSG_SIZE: usize = 100;

/// Number of bytes before the text of a message.
pub const MESSAGE_OFFSET: usize = 2;

/// The tag of a message that carries text.
pub const TAG_STRING: u8 = 1;

/// The tag of a message that reports an error.
pub const TAG_ERROR: u8 = 2;

/// The path of the port of the service.
pub open spec fn port_name() -> Seq<char> {
    "com.android.trusty.hello"@
}

/// What a message carries.
#[derive(Clone, Copy, Debug, PartialEq, Eq, Structural)]
pub enum Tag {
    /// Text.
    TagString,
    /// An error.
    TagError,
}

impl From<u8> for Tag {
    fn from(item: u8) -> (r: Self) {
        if item == TAG_STRING {
            Tag::TagString
        } else {
            Tag::TagError
        }
    }
}

impl FromSpecImpl<u8> for Tag {
    open spec fn obeys_from_spec() -> bool {
        true
    }

    open spec fn from_spec(item: u8) -> Self {
        tag_of(item)
    }
}

/// The tag that a byte stands for: every byte but the tag of text stands
/// for an error.
pub open spec fn tag_of(item: u8) -> Tag {
    if item == TAG_STRING {
        Tag::TagString
    } else {
        Tag::TagError
    }
}

/// The byte that stands for a tag.
pub open spec fn tag_byte(tag: Tag) -> u8 {
    match tag {
        Tag::TagString => TAG_STRING,
        Tag::TagError => TAG_ERROR,
    }
}

/// A message of the greeting service.
#[derive(Debug)]
pub struct HelloWorldMessage {
    pub tag: Tag,
    pub length: u8,
    pub message: Vec<u8>,
}

/// Mathematical value of a [`HelloWorldMessage`].
pub struct HelloWorldMessageView {
    pub tag: Tag,
    pub length: u8,
    pub message: Seq<u8>,
}

impl View for HelloWorldMessage {
    type V = HelloWorldMessageView;

    open spec fn view(&self) -> HelloWorldMessageView {
        HelloWorldMessageView { tag: self.tag, length: self.length, message: self.message@ }
    }
}

/// The message that `bytes` stand for: they must hold the tag, the length
/// and exactly as many bytes of text as the length says, and be no more
/// than [`HELLO_TRUSTY_MAX_MSG_SIZE`] in all.
pub open spec fn parse(bytes: Seq<u8>) -> Option<HelloWorldMessageView> {
    if bytes.len() < 2 || bytes.len() > HELLO_TRUSTY_MAX_MSG_SIZE || bytes.len() - 2 != bytes[1] {
        None
    } else {
        Some(
            HelloWorldMessageView {
                tag: tag_of(bytes[0]),
                length: bytes[1],
                message: bytes.subrange(2, bytes.len() as int),
            },
        )
    }
}

/// The bytes that stand for a message.
pub open spec fn unparse(msg: HelloWorldMessageView) -> Seq<u8> {
    seq![tag_byte(msg.tag), msg.length] + msg.message
}

impl Deserialize for HelloWorldMessage {
    const MAX_SERIALIZED_SIZE: usize = HELLO_TRUSTY_MAX_MSG_SIZE;

    open spec fn decodes(
        bytes: Seq<u8>,
        handles: Seq<Option<Handle>>,
        r: Result<Self, TipcError>,
        handles_left: Seq<Option<Handle>>,
    ) -> bool {
        &&& handles_left == handles
        &&& match parse(bytes) {
            Some(msg) => r matches Ok(m) && m@ == msg,
            None => r matches Err(e) && e == TipcError::InvalidData,
        }
    }

    fn deserialize(bytes: &[u8], handles: &mut Vec<Option<Handle>>) -> (r: Result<Self, TipcError>) {
        if bytes.len() < 2 || bytes.len() > HELLO_TRUSTY_MAX_MSG_SIZE {
            return Err(TipcError::InvalidData);
        }
        if bytes.len() - MESSAGE_OFFSET != bytes[1] as usize {
            return Err(TipcError::InvalidData);
        }
        let message = vstd::slice::slice_to_vec(
            vstd::slice::slice_subrange(bytes, MESSAGE_OFFSET, bytes.len()),
        );
        Ok(HelloWorldMessage { tag: Tag::from(bytes[0]), length: bytes[1], message })
    }
}

impl Serialize for HelloWorldMessage {
    open spec fn writes(&self, bytes: Seq<u8>) -> bool {
        bytes == unparse(self@)
    }

    open spec fn serializable(&self) -> bool {
        true
    }

    fn serialize(&self, serializer: &mut Serializer) -> (r: Result<(), TipcError>) {
        let tag = match self.tag {
            Tag::TagString => TAG_STRING,
            Tag::TagError => TAG_ERROR,
        };
        let _ = serializer.serialize_u8(tag);
        let _ = serializer.serialize_u8(self.length);
        let r = serializer.serialize_bytes(self.message.as_slice());
        assert(self.writes(unparse(self@)) && final(serializer)@ =~= old(serializer)@ + unparse(
            self@,
        ));
        r
    }
}

/// A message whose length is the length of its text, and whose bytes are
/// no more than the longest message, is read back from its bytes as it
/// was.
pub proof fn lemma_message_roundtrip(msg: HelloWorldMessageView)
    requires
        msg.length == msg.message.len(),
        unparse(msg).len() <= HELLO_TRUSTY_MAX_MSG_SIZE,
    ensures
        parse(unparse(msg)) == Some(msg),
{
    let bytes = unparse(msg);
    assert(bytes.subrange(2, bytes.len() as int) =~= msg.message);
}

/// Bytes that are read as a message are written back by it as they were,
/// if their tag is one of the two that are written.
pub proof fn lemma_bytes_roundtrip(bytes: Seq<u8>)
    requires
        parse(bytes) is Some,
        bytes[0] == TAG_STRING || bytes[0] == TAG_ERROR,
    ensures
        unparse(parse(bytes)->Some_0) == bytes,
{
    assert(unparse(parse(bytes)->Some_0) =~= bytes);
}

/// The text before the name in a greeting.
pub open spec fn greeting_head() -> Seq<u8> {
    seq![0x48u8, 0x65, 0x6c, 0x6c, 0x6f, 0x2c, 0x20]
}

/// The greeting for a name: `Hello, `, the name and `!`.
pub open spec fn greeting(name: Seq<u8>) -> Seq<u8> {
    greeting_head() + name + seq![0x21u8]
}

/// Whether the bytes are text in UTF-8.
///
/// Calls `std::str::from_utf8`, which succeeds exactly on the slices that
/// are valid UTF-8; the claim is that this is the validity that `vstd`
/// defines.
#[verifier::external_body]
fn is_utf8(bytes: &[u8]) -> (r: bool)
    ensures
        r == vstd::utf8::valid_utf8(bytes@),
{
    std::str::from_utf8(bytes).is_ok()
}

/// The greeting for a name.
pub fn greet(name: &[u8]) -> (r: Vec<u8>)
    ensures
        r@ == greeting(name@),
{
    let mut out: Vec<u8> = Vec::new();
    out.push(0x48);
    out.push(0x65);
    out.push(0x6c);
    out.push(0x6c);
    out.push(0x6f);
    out.push(0x2c);
    out.push(0x20);
    assert(out@ =~= greeting_head());
    out.extend_from_slice(name);
    out.push(0x21);
    assert(out@ =~= greeting(name@));
    out
}

/// The answer of the service to a message: the greeting for the text of the
/// message, if the text is UTF-8 and the greeting fits the length byte;
/// `InvalidData` otherwise.
pub open spec fn answer(text: Seq<u8>) -> Result<HelloWorldMessageView, TipcError> {
    if !vstd::utf8::valid_utf8(text) || greeting(text).len() > u8::MAX {
        Err(TipcError::InvalidData)
    } else {
        Ok(
            HelloWorldMessageView {
                tag: Tag::TagString,
                length: greeting(text).len() as u8,
                message: greeting(text),
            },
        )
    }
}

/// The greeting service.
pub struct HelloWorldService;

impl Service for HelloWorldService {
    type Connection = ();

    type Message = HelloWorldMessage;

    /// Every connection is accepted.
    open spec fn connects(
        &self,
        port: &PortCfg,
        handle: &Handle,
        peer: &Uuid,
        r: Result<ConnectResult<()>, TipcError>,
    ) -> bool {
        r == Ok::<ConnectResult<()>, TipcError>(ConnectResult::Accept(()))
    }

    /// A message is answered with the greeting for its text and the
    /// connection stays open; a message without an answer is an error and
    /// nothing is sent.
    open spec fn handles(
        &self,
        connection: &(),
        handle: &Handle,
        msg: &HelloWorldMessage,
        connection_after: &(),
        handle_after: &Handle,
        r: Result<MessageResult, TipcError>,
    ) -> bool {
        match answer(msg.message@) {
            Ok(reply) => {
                &&& r == Ok::<MessageResult, TipcError>(MessageResult::MaintainConnection)
                &&& handle_after.queued() == handle.queued().push(unparse(reply))
            },
            Err(e) => r == Err::<MessageResult, TipcError>(e) && handle_after.queued()
                == handle.queued(),
        }
    }

    fn on_connect(&self, port: &PortCfg, handle: &Handle, peer: &Uuid) -> (r: Result<
        ConnectResult<()>,
        TipcError,
    >) {
        Ok(ConnectResult::Accept(()))
    }

    fn on_message(&self, connection: &mut (), handle: &mut Handle, msg: HelloWorldMessage) -> (r:
        Result<MessageResult, TipcError>) {
        if !is_utf8(msg.message.as_slice()) {
            return Err(TipcError::InvalidData);
        }
        if msg.message.len() > 255 - 8 {
            return Err(TipcError::InvalidData);
        }
        let outputmsg = greet(msg.message.as_slice());
        let reply = HelloWorldMessage {
            tag: Tag::TagString,
            length: outputmsg.len() as u8,
            message: outputmsg,
        };
        match handle.send(&reply) {
            Ok(()) => Ok(MessageResult::MaintainConnection),
            Err(e) => {
                assert(false);
                Err(e)
            },
        }
    }

    fn on_disconnect(&self, connection: &()) {
    }
}

/// The configuration of the port of the service: open to peers from the
/// secure side, with messages of at most [`HELLO_TRUSTY_MAX_MSG_SIZE`]
/// bytes.
pub fn port_config() -> (r: Result<PortCfg, TipcError>)
    ensures
        r matches Ok(cfg) && cfg@ == (PortCfgView {
            path: port_name(),
            msg_queue_len: DEFAULT_MSG_QUEUE_LEN,
            msg_max_size: HELLO_TRUSTY_MAX_MSG_SIZE as u32,
            flags: IPC_PORT_ALLOW_TA_CONNECT,
        }),
{
    proof {
        reveal_strlit("com.android.trusty.hello");
    }
    match PortCfg::new("com.android.trusty.hello") {
        Ok(cfg) => {
            let cfg = cfg.allow_ta_connect().msg_max_size(HELLO_TRUSTY_MAX_MSG_SIZE as u32);
            assert(0u32 | 0x1u32 == 0x1u32) by (bit_vector);
            Ok(cfg)
        },
        Err(e) => Err(TipcError::UnknownError),
    }
}


/// The manager of the greeting service, with room for one connection.
/// `created` is the answer of the kernel to the request to create the port
/// of [`port_config`]. Whatever keeps the manager from being built is
/// reported as `UnknownError`.
pub fn init_service(created: Result<i32, SysError>) -> (r: Result<
    Manager<SingleDispatcher<HelloWorldService>, 1, 1>,
    TipcError,
>)
    ensures
        r is Ok <==> (created matches Ok(fd) && fd >= 0),
        r matches Ok(m) ==> {
            &&& m.wf()
            &&& m.buffer().len() == HELLO_TRUSTY_MAX_MSG_SIZE
            &&& m.registry().connection_count() == 0
            &&& m.registry().ports()[0].handle.raw() == created->Ok_0
            &&& m.dispatcher().port_list().len() == 1
            &&& m.dispatcher().port_list()[0]@ == (PortCfgView {
                path: port_name(),
                msg_queue_len: DEFAULT_MSG_QUEUE_LEN,
                msg_max_size: HELLO_TRUSTY_MAX_MSG_SIZE as u32,
                flags: IPC_PORT_ALLOW_TA_CONNECT,
            })
        },
        r matches Err(e) ==> e == TipcError::UnknownError,
{
    let cfg = match port_config() {
        Ok(cfg) => cfg,
        Err(_) => {
            return Err(TipcError::UnknownError);
        },
    };
    let mut buffer: Vec<u8> = Vec::new();
    let mut n: usize = 0;
    while n < HELLO_TRUSTY_MAX_MSG_SIZE
        invariant
            n <= HELLO_TRUSTY_MAX_MSG_SIZE,
            buffer@.len() == n,
        decreases HELLO_TRUSTY_MAX_MSG_SIZE - n,
    {
        buffer.push(0u8);
        n = n + 1;
    }
    proof {
        reveal_with_fuel(crate::manager::port_failure, 3);
    }
    match Manager::new(HelloWorldService, cfg, buffer, created) {
        Ok(m) => Ok(m),
        Err(_) => Err(TipcError::UnknownError),
    }
}


/// No message of the greeting service is longer than
/// [`HELLO_TRUSTY_MAX_MSG_SIZE`] bytes: that is the declared maximum of
/// the type, and longer bytes are refused with `InvalidData`, with the
/// handles left as they were.
pub proof fn lemma_hello_message_max_size()
    ensures
        <HelloWorldMessage as Deserialize>::MAX_SERIALIZED_SIZE == HELLO_TRUSTY_MAX_MSG_SIZE,
        forall|
            bytes: Seq<u8>,
            handles: Seq<Option<Handle>>,
            r: Result<HelloWorldMessage, TipcError>,
            left: Seq<Option<Handle>>,
        |
            bytes.len() > HELLO_TRUSTY_MAX_MSG_SIZE && #[trigger] HelloWorldMessage::decodes(
                bytes,
                handles,
                r,
                left,
            ) ==> r == Err::<HelloWorldMessage, TipcError>(TipcError::InvalidData) && left
                == handles,
{
}

} // verus!
