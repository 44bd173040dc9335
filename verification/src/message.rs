//! The messages exchanged by the two ends of a tunnel session.

use vstd::prelude::*;

verus! {

/// The `id` carried by data that a local stream sends into the session.
pub const STREAM_DATA_ID: i64 = 12;

/// The `id` carried by a request to open a connection.
pub const CONNECT_ID: i64 = 0;

/// A request to the other end to open a connection to `addr` over `proto`.
#[derive(Debug, PartialEq, Eq)]
pub struct Connect {
    pub id: i64,
    pub conn_id: i64,
    pub proto: String,
    pub addr: String,
}

/// Bytes travelling on the connection `conn_id`.
#[derive(Debug, PartialEq, Eq)]
pub struct Data {
    pub id: i64,
    pub conn_id: i64,
    pub data: Vec<u8>,
}

/// One message of the session protocol.
#[derive(Debug, PartialEq, Eq)]
pub enum Message {
    Token(String),
    Connect(Connect),
    Data(Data),
    Close,
}

/// A control action of the small control protocol.
#[derive(Debug, PartialEq, Eq)]
pub enum Action {
    Bind(String),
}

/// The mathematical content of a [`Connect`].
pub struct ConnectView {
    pub id: i64,
    pub conn_id: i64,
    pub proto: Seq<char>,
    pub addr: Seq<char>,
}

/// The mathematical content of a [`Data`].
pub struct DataView {
    pub id: i64,
    pub conn_id: i64,
    pub data: Seq<u8>,
}

/// The mathematical content of a [`Message`].
pub enum MessageView {
    Token(Seq<char>),
    Connect(ConnectView),
    Data(DataView),
    Close,
}

impl View for Connect {
    type V = ConnectView;

    open spec fn view(&self) -> ConnectView {
        ConnectView { id: self.id, conn_id: self.conn_id, proto: self.proto@, addr: self.addr@ }
    }
}

impl View for Data {
    type V = DataView;

    open spec fn view(&self) -> DataView {
        DataView { id: self.id, conn_id: self.conn_id, data: self.data@ }
    }
}

impl View for Message {
    type V = MessageView;

    open spec fn view(&self) -> MessageView {
        match self {
            Message::Token(t) => MessageView::Token(t@),
            Message::Connect(c) => MessageView::Connect(c@),
            Message::Data(d) => MessageView::Data(d@),
            Message::Close => MessageView::Close,
        }
    }
}

impl Connect {
    /// The request, sent when a local stream is opened, to connect `conn_id`
    /// to `addr` over `proto`.
    pub fn request(conn_id: i64, proto: &str, addr: &str) -> (c: Connect)
        ensures
            c@ == (ConnectView { id: CONNECT_ID, conn_id, proto: proto@, addr: addr@ }),
    {
        Connect { id: CONNECT_ID, conn_id, proto: proto.to_owned(), addr: addr.to_owned() }
    }
}

impl Data {
    /// The data message that a local stream of connection `conn_id` sends for
    /// the bytes `buf` written to it.
    pub fn outgoing(conn_id: i64, buf: &[u8]) -> (d: Data)
        ensures
            d@ == (DataView { id: STREAM_DATA_ID, conn_id, data: buf@ }),
    {
        Data { id: STREAM_DATA_ID, conn_id, data: vstd::slice::slice_to_vec(buf) }
    }
}

impl Message {
    /// The first message a client sends: its token.
    pub fn token(token: &str) -> (m: Message)
        ensures
            m@ == MessageView::Token(token@),
    {
        Message::Token(token.to_owned())
    }

    /// Whether this message closes the session.
    pub fn is_close(&self) -> (res: bool)
        ensures
            res == (self@ is Close),
    {
        match self {
            Message::Close => true,
            _ => false,
        }
    }
}

} // verus!
