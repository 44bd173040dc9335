//! The bookkeeping of one tunnel session: its token and key, the ids it hands
//! out to connections, the connections it has open, and what its read and
//! write loops do with each message.

use std::collections::HashMap;
use vstd::prelude::*;

use crate::message::{Connect, ConnectView, Data, DataView, Message, MessageView};
use crate::text::str_eq;

verus! {

/// The first connection id a session hands out.
pub const FIRST_CONN_ID: i64 = 1;

/// A fresh session key from `rand::random::<i64>()`, drawn from the thread's
/// random number generator. Nothing is promised of the value: it is random.
#[verifier::external_body]
fn random_session_key() -> (key: i64) {
    rand::random::<i64>()
}

/// The state of one session. `T` is what the session keeps for each open
/// connection (the local end of that connection's stream).
pub struct SessionState<T> {
    token: String,
    session_key: i64,
    client: bool,
    next_conn_id: i64,
    conns: HashMap<i64, T>,
}

/// The mathematical content of a [`SessionState`].
pub struct SessionView<T> {
    pub token: Seq<char>,
    pub session_key: i64,
    pub client: bool,
    pub next_conn_id: i64,
    pub conns: Map<i64, T>,
}

impl<T> View for SessionState<T> {
    type V = SessionView<T>;

    closed spec fn view(&self) -> SessionView<T> {
        SessionView {
            token: self.token@,
            session_key: self.session_key,
            client: self.client,
            next_conn_id: self.next_conn_id,
            conns: self.conns@,
        }
    }
}

/// What the read loop of a session does with a message from the other end.
pub enum Route<'a, T> {
    /// Open the connection that the other end asks for.
    Open(Connect),
    /// Hand the data to the local end of its connection.
    Deliver(&'a T, Data),
    /// Drop data for a connection this session does not have.
    Skip(Data),
    /// End the read loop.
    Stop,
}

/// What the write loop of a session does with a message queued for the
/// other end.
pub enum Outgoing {
    /// Send the message.
    Send(Message),
    /// End the write loop without sending.
    Finish,
}

impl<T> SessionState<T> {
    /// A session for `token` with the given key and no connections; its first
    /// connection will get id 1.
    pub fn with_key(token: String, session_key: i64, client: bool) -> (s: Self)
        ensures
            s@.token == token@,
            s@.session_key == session_key,
            s@.client == client,
            s@.next_conn_id == FIRST_CONN_ID,
            s@.conns == Map::<i64, T>::empty(),
    {
        SessionState {
            token,
            session_key,
            client,
            next_conn_id: FIRST_CONN_ID,
            conns: HashMap::new(),
        }
    }

    /// A session for `token` with a random key and no connections; its first
    /// connection will get id 1. Drawing the key panics if the operating
    /// system cannot supply randomness.
    pub fn new(token: String, client: bool) -> (s: Self)
        ensures
            s@.token == token@,
            s@.client == client,
            s@.next_conn_id == FIRST_CONN_ID,
            s@.conns == Map::<i64, T>::empty(),
    {
        let key = random_session_key();
        Self::with_key(token, key, client)
    }

    /// The token the session was opened with.
    pub fn token(&self) -> (t: &str)
        ensures
            t@ == self@.token,
    {
        self.token.as_str()
    }

    /// The session's key.
    pub fn session_key(&self) -> (k: i64)
        ensures
            k == self@.session_key,
    {
        self.session_key
    }

    /// Whether this is the client end of the tunnel.
    pub fn is_client(&self) -> (c: bool)
        ensures
            c == self@.client,
    {
        self.client
    }

    /// The id the next connection will get.
    pub fn next_conn_id(&self) -> (id: i64)
        ensures
            id == self@.next_conn_id,
    {
        self.next_conn_id
    }

    /// Hands out the next connection id. Ids count up by one and wrap around
    /// at the end of the `i64` range, as an atomic fetch-and-add does.
    pub fn alloc_conn_id(&mut self) -> (id: i64)
        ensures
            id == old(self)@.next_conn_id,
            final(self)@.next_conn_id == old(self)@.next_conn_id.wrapping_add(1),
            final(self)@.token == old(self)@.token,
            final(self)@.session_key == old(self)@.session_key,
            final(self)@.client == old(self)@.client,
            final(self)@.conns == old(self)@.conns,
    {
        let id = self.next_conn_id;
        self.next_conn_id = id.wrapping_add(1);
        id
    }

    /// Records the local end `stub` of connection `conn_id`, replacing and
    /// returning the one recorded before under that id, if any.
    pub fn insert_conn(&mut self, conn_id: i64, stub: T) -> (prev: Option<T>)
        ensures
            final(self)@.conns == old(self)@.conns.insert(conn_id, stub),
            match prev {
                Some(p) => old(self)@.conns.contains_key(conn_id) && p == old(self)@.conns[conn_id],
                None => !old(self)@.conns.contains_key(conn_id),
            },
            final(self)@.next_conn_id == old(self)@.next_conn_id,
            final(self)@.token == old(self)@.token,
            final(self)@.session_key == old(self)@.session_key,
            final(self)@.client == old(self)@.client,
    {
        self.conns.insert(conn_id, stub)
    }

    /// The local end of connection `conn_id`, if the session has it.
    pub fn conn(&self, conn_id: i64) -> (stub: Option<&T>)
        ensures
            match stub {
                Some(s) => self@.conns.contains_key(conn_id) && *s == self@.conns[conn_id],
                None => !self@.conns.contains_key(conn_id),
            },
    {
        self.conns.get(&conn_id)
    }

    /// What the read loop does with `msg` from the other end: a connect
    /// request opens a connection, data goes to the local end of its
    /// connection or is dropped when the session has no such connection, and
    /// any other message ends the loop.
    pub fn route(&self, msg: Message) -> (r: Route<'_, T>)
        ensures
            routes_to(self@.conns, msg, r),
            msg is Connect ==> (r matches Route::Open(c) && Message::Connect(c) == msg),
            msg is Data && self@.conns.contains_key(msg->Data_0.conn_id) ==> (r matches Route::Deliver(
                s,
                d,
            ) && Message::Data(d) == msg && *s == self@.conns[d.conn_id]),
            msg is Data && !self@.conns.contains_key(msg->Data_0.conn_id) ==> (r matches Route::Skip(d)
                && Message::Data(d) == msg),
            msg is Token || msg is Close ==> r is Stop,
    {
        match msg {
            Message::Connect(c) => Route::Open(c),
            Message::Data(d) => match self.conns.get(&d.conn_id) {
                Some(stub) => Route::Deliver(stub, d),
                None => Route::Skip(d),
            },
            _ => Route::Stop,
        }
    }
}

/// Whether `r` is what the read loop does with `msg` when the session's
/// connections are `conns`: a connect request opens a connection, data goes to
/// the local end recorded for its connection or is dropped when there is none,
/// and any other message ends the loop.
pub open spec fn routes_to<'a, T>(conns: Map<i64, T>, msg: Message, r: Route<'a, T>) -> bool {
    match msg {
        Message::Connect(c) => r matches Route::Open(c2) && c2 == c,
        Message::Data(d) => if conns.contains_key(d.conn_id) {
            r matches Route::Deliver(s, d2) && d2 == d && *s == conns[d.conn_id]
        } else {
            r matches Route::Skip(d2) && d2 == d
        },
        _ => r is Stop,
    }
}

/// A connect request from the other end always opens the connection it asks
/// for, carrying the request unchanged, whatever connections the session
/// already holds.
pub proof fn law_route_connect_opens<'a, T>(conns: Map<i64, T>, c: Connect, r: Route<'a, T>)
    requires
        routes_to(conns, Message::Connect(c), r),
    ensures
        r matches Route::Open(c2) && c2 == c,
{
}

/// Data from the other end goes, unchanged, to the local end recorded for its
/// connection when there is one, and is dropped, unchanged, when there is none.
pub proof fn law_route_data<'a, T>(conns: Map<i64, T>, d: Data, r: Route<'a, T>)
    requires
        routes_to(conns, Message::Data(d), r),
    ensures
        conns.contains_key(d.conn_id) ==> (r matches Route::Deliver(s, d2) && d2 == d && *s
            == conns[d.conn_id]),
        !conns.contains_key(d.conn_id) ==> (r matches Route::Skip(d2) && d2 == d),
{
}

/// A token or a close message from the other end ends the read loop.
pub proof fn law_route_token_or_close_stops<'a, T>(conns: Map<i64, T>, msg: Message, r: Route<'a, T>)
    requires
        routes_to(conns, msg, r),
        msg is Token || msg is Close,
    ensures
        r is Stop,
{
}

/// Once the local end `stub` of connection `conn_id` is recorded, the read loop
/// delivers data for that connection to `stub`, unchanged.
pub proof fn law_route_after_insert_conn<'a, T>(
    before: SessionState<T>,
    after: SessionState<T>,
    conn_id: i64,
    stub: T,
    data: Data,
    r: Route<'a, T>,
)
    requires
        after@.conns == before@.conns.insert(conn_id, stub),
        data.conn_id == conn_id,
        routes_to(after@.conns, Message::Data(data), r),
    ensures
        r matches Route::Deliver(s, d) && *s == stub && d == data,
{
}

/// Connection ids count up by one: an id handed out below `i64::MAX` is
/// followed by the next larger id.
pub proof fn law_conn_ids_count_up(next: i64)
    requires
        next < i64::MAX,
    ensures
        next.wrapping_add(1) == next + 1,
        next.wrapping_add(1) > next,
{
}

/// Whether `states` are the states of a session that starts with no
/// connections and then opens `ids.len()` streams one after another: stream
/// `i` takes the id `ids[i]` handed out by the counter (which then advances by
/// one) and records the local end `stubs[i]` under it.
pub open spec fn opens_streams<T>(
    states: Seq<SessionView<T>>,
    ids: Seq<i64>,
    stubs: Seq<T>,
) -> bool {
    &&& states.len() == ids.len() + 1
    &&& stubs.len() == ids.len()
    &&& states[0].next_conn_id == FIRST_CONN_ID
    &&& states[0].conns == Map::<i64, T>::empty()
    &&& forall|i: int|
        0 <= i < ids.len() ==> {
            &&& #[trigger] ids[i] == states[i].next_conn_id
            &&& states[i + 1].next_conn_id == states[i].next_conn_id.wrapping_add(1)
            &&& states[i + 1].conns == states[i].conns.insert(ids[i], stubs[i])
        }
}

proof fn lemma_opens_streams_prefix<T>(
    states: Seq<SessionView<T>>,
    ids: Seq<i64>,
    stubs: Seq<T>,
    j: int,
)
    requires
        opens_streams(states, ids, stubs),
        ids.len() < i64::MAX,
        0 <= j <= ids.len(),
    ensures
        states[j].next_conn_id == j + 1,
        forall|m: int| 0 <= m < j ==> #[trigger] ids[m] == m + 1,
        forall|c: i64| #[trigger] states[j].conns.contains_key(c) <==> 1 <= c <= j,
        forall|m: int| 0 <= m < j ==> states[j].conns[#[trigger] ids[m]] == stubs[m],
    decreases j,
{
    if j > 0 {
        lemma_opens_streams_prefix(states, ids, stubs, j - 1);
        let p = j - 1;
        assert(ids[p] == states[p].next_conn_id);
        assert(states[j].next_conn_id == states[p].next_conn_id.wrapping_add(1));
        assert(states[j].conns == states[p].conns.insert(ids[p], stubs[p]));
        assert forall|m: int| 0 <= m < j implies states[j].conns[#[trigger] ids[m]] == stubs[m] by {
            if m < p {
                assert(ids[m] == m + 1);
            }
        }
    }
}

/// Streams opened one after another on a fresh session get the ids 1, 2, ...,
/// k in order, no two the same, as long as fewer than `i64::MAX` are opened;
/// and the session then holds exactly one local end per id, the one recorded
/// for the stream that got it.
pub proof fn law_stream_ids_distinct<T>(states: Seq<SessionView<T>>, ids: Seq<i64>, stubs: Seq<T>)
    requires
        opens_streams(states, ids, stubs),
        ids.len() < i64::MAX,
    ensures
        forall|i: int| 0 <= i < ids.len() ==> #[trigger] ids[i] == i + 1,
        forall|i: int, j: int|
            0 <= i < ids.len() && 0 <= j < ids.len() && i != j ==> #[trigger] ids[i]
                != #[trigger] ids[j],
        forall|c: i64|
            #[trigger] states[ids.len() as int].conns.contains_key(c) <==> 1 <= c <= ids.len(),
        forall|i: int|
            0 <= i < ids.len() ==> states[ids.len() as int].conns[#[trigger] ids[i]] == stubs[i],
{
    lemma_opens_streams_prefix(states, ids, stubs, ids.len() as int);
}

/// What the write loop does with `msg`: a close message ends the loop, every
/// other message is sent.
pub fn outgoing(msg: Message) -> (o: Outgoing)
    ensures
        msg@ is Close ==> o is Finish,
        !(msg@ is Close) ==> (o matches Outgoing::Send(m) && m == msg),
{
    if msg.is_close() {
        Outgoing::Finish
    } else {
        Outgoing::Send(msg)
    }
}

/// The message announcing a new local connection `conn_id` to `addr` over
/// `proto` to the other end.
pub fn connect_message(conn_id: i64, proto: &str, addr: &str) -> (m: Message)
    ensures
        m@ == MessageView::Connect(
            ConnectView { id: crate::message::CONNECT_ID, conn_id, proto: proto@, addr: addr@ },
        ),
{
    Message::Connect(Connect::request(conn_id, proto, addr))
}

/// Whether a connect request from the other end is one this end opens: only
/// requests over "tcp" are.
pub fn opens(connect: &Connect) -> (res: bool)
    ensures
        res == (connect.proto@ == "tcp"@),
{
    str_eq(connect.proto.as_str(), "tcp")
}

/// Why a local stream's write failed.
#[derive(Debug, Clone, Copy, PartialEq, Eq)]
pub enum StreamError {
    /// The session no longer takes messages.
    BrokenPipe,
}

/// The data message a local stream of connection `conn_id` queues for the
/// bytes `buf` written to it.
pub fn stream_data(conn_id: i64, buf: &[u8]) -> (m: Message)
    ensures
        m@ == MessageView::Data(DataView { id: crate::message::STREAM_DATA_ID, conn_id, data: buf@ }),
{
    Message::Data(Data::outgoing(conn_id, buf))
}

/// The result of a local stream's write of `len` bytes, given whether the
/// session took the data message: all `len` bytes when it did, a broken pipe
/// when it did not.
pub fn write_result<E>(queued: Result<(), E>, len: usize) -> (r: Result<usize, StreamError>)
    ensures
        queued is Ok ==> r == Ok::<usize, StreamError>(len),
        queued is Err ==> r == Err::<usize, StreamError>(StreamError::BrokenPipe),
{
    match queued {
        Ok(()) => Ok(len),
        Err(_) => Err(StreamError::BrokenPipe),
    }
}

/// How long the client keeps retrying to reach the server, in milliseconds.
#[derive(Debug, Clone, Copy, PartialEq, Eq)]
pub struct RetryPolicy {
    /// The longest wait between two attempts.
    pub max_interval_ms: u64,
    /// The time after which the client gives up.
    pub max_elapsed_ms: u64,
}

/// The client's retry policy: at most 100 ms between attempts, giving up
/// after 10 s.
pub fn client_retry_policy() -> (p: RetryPolicy)
    ensures
        p.max_interval_ms == 100,
        p.max_elapsed_ms == 10_000,
{
    RetryPolicy { max_interval_ms: 100, max_elapsed_ms: 10_000 }
}

} // verus!
