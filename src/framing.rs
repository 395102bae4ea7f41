//! Framing over a message-oriented transport: one text frame carries exactly one packet. The
//! transport and the JSON text are handled outside; here a received frame, with what its text
//! reads as, becomes a client packet, and the text of a server packet becomes the frame to send.

use vstd::prelude::*;

use crate::protocol::{is_uuid_text, Client, ClientPacket, Packet, PacketId};

verus! {

/// A frame of the transport, with what the framing layer reads of it.
#[derive(Debug, Clone, PartialEq, Eq)]
pub enum Frame {
    Text(String),
    Binary(Vec<u8>),
    Ping,
    Pong,
    Close,
}

/// Why a frame could not be turned into a packet, or a packet not be sent.
#[derive(Debug, Clone, Copy, PartialEq, Eq, Structural)]
pub enum ProtocolError {
    /// The frame is not a text frame.
    UnexpectedFrameType,
    /// The text of the frame is not the text of a client packet.
    Deserialize,
    /// A packet could not be written as text.
    Serialize,
    /// The transport closed.
    ConnectionClosed,
    /// The transport failed to receive or send.
    Transport,
}

/// What the JSON text of a frame reads as: the text of the packet's identifier, in its
/// canonical form, and the message.
#[derive(Debug, Clone, PartialEq, Eq)]
pub struct ClientParts {
    pub id: String,
    pub data: Client,
}

/// Reads incoming frames as client packets.
pub struct Reader;

impl Reader {
    pub fn new() -> (r: Reader) {
        Reader
    }

    /// The client packet that the next frame carries. `frame` is `None` at the end of the
    /// transport's stream; `parsed` is what the text of a text frame reads as, `None` where that
    /// text is not JSON of a client packet.
    pub fn read(&self, frame: Option<Frame>, parsed: Option<ClientParts>) -> (r: Result<
        ClientPacket,
        ProtocolError,
    >)
        ensures
            frame is None ==> r == Err::<ClientPacket, ProtocolError>(
                ProtocolError::ConnectionClosed,
            ),
            frame matches Some(f) && !(f is Text) ==> r == Err::<ClientPacket, ProtocolError>(
                ProtocolError::UnexpectedFrameType,
            ),
            frame matches Some(Frame::Text(_)) ==> match parsed {
                Some(p) => if is_uuid_text(p.id@) {
                    r matches Ok(k) && k.id@ == p.id@ && k.data == p.data
                } else {
                    r == Err::<ClientPacket, ProtocolError>(ProtocolError::Deserialize)
                },
                None => r == Err::<ClientPacket, ProtocolError>(ProtocolError::Deserialize),
            },
    {
        match frame {
            None => Err(ProtocolError::ConnectionClosed),
            Some(Frame::Text(_)) => match parsed {
                Some(p) => match PacketId::parse(p.id.as_str()) {
                    Some(id) => Ok(Packet::with_id(id, p.data)),
                    None => Err(ProtocolError::Deserialize),
                },
                None => Err(ProtocolError::Deserialize),
            },
            Some(_) => Err(ProtocolError::UnexpectedFrameType),
        }
    }
}

/// Writes server packets as outgoing frames.
pub struct Writer;

impl Writer {
    pub fn new() -> (r: Writer) {
        Writer
    }

    /// The one text frame that carries the text `written` of a server packet; `written` is
    /// `None` where the packet could not be written as text.
    pub fn write(&self, written: Option<String>) -> (r: Result<Frame, ProtocolError>)
        ensures
            written is None ==> r == Err::<Frame, ProtocolError>(ProtocolError::Serialize),
            written matches Some(t) ==> r == Ok::<Frame, ProtocolError>(Frame::Text(t)),
    {
        match written {
            Some(t) => Ok(Frame::Text(t)),
            None => Err(ProtocolError::Serialize),
        }
    }
}

} // verus!
