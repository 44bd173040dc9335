use tcp_tunnel::message::{Connect, Data, Message, CONNECT_ID, STREAM_DATA_ID};
use tcp_tunnel::session::{
    client_retry_policy, connect_message, opens, outgoing, stream_data, write_result, Outgoing,
    Route, SessionState, StreamError, FIRST_CONN_ID,
};

fn connect(conn_id: i64, proto: &str) -> Connect {
    Connect { id: 0, conn_id, proto: proto.to_string(), addr: "127.0.0.1:8888".to_string() }
}

#[test]
fn new_session_state() {
    let s: SessionState<u8> = SessionState::with_key("hello".to_string(), 42, true);
    assert_eq!(s.token(), "hello");
    assert_eq!(s.session_key(), 42);
    assert!(s.is_client());
    assert_eq!(s.next_conn_id(), FIRST_CONN_ID);
    let r: SessionState<u8> = SessionState::new("tok".to_string(), false);
    assert_eq!(r.token(), "tok");
    assert!(!r.is_client());
    assert_eq!(r.next_conn_id(), 1);
}

#[test]
fn conn_ids_count_up() {
    let mut s: SessionState<u8> = SessionState::with_key("t".to_string(), 0, false);
    assert_eq!(s.alloc_conn_id(), 1);
    assert_eq!(s.alloc_conn_id(), 2);
    assert_eq!(s.alloc_conn_id(), 3);
    assert_eq!(s.next_conn_id(), 4);
}

#[test]
fn conns_by_id() {
    let mut s: SessionState<&str> = SessionState::with_key("t".to_string(), 0, false);
    assert_eq!(s.insert_conn(1, "one"), None);
    assert_eq!(s.insert_conn(2, "two"), None);
    assert_eq!(s.conn(1), Some(&"one"));
    assert_eq!(s.conn(3), None);
    assert_eq!(s.insert_conn(1, "uno"), Some("one"));
    assert_eq!(s.conn(1), Some(&"uno"));
}

#[test]
fn read_loop_routes_messages() {
    let mut s: SessionState<&str> = SessionState::with_key("t".to_string(), 0, false);
    s.insert_conn(5, "five");
    match s.route(Message::Connect(connect(9, "tcp"))) {
        Route::Open(c) => assert_eq!(c, connect(9, "tcp")),
        _ => panic!("connect must open"),
    }
    match s.route(Message::Data(Data { id: 1, conn_id: 5, data: b"ping".to_vec() })) {
        Route::Deliver(stub, d) => {
            assert_eq!(*stub, "five");
            assert_eq!(d.data, b"ping".to_vec());
        }
        _ => panic!("data for a known connection must be delivered"),
    }
    match s.route(Message::Data(Data { id: 1, conn_id: 6, data: vec![1] })) {
        Route::Skip(d) => assert_eq!(d.conn_id, 6),
        _ => panic!("data for an unknown connection must be dropped"),
    }
    assert!(matches!(s.route(Message::Close), Route::Stop));
    assert!(matches!(s.route(Message::Token("x".to_string())), Route::Stop));
}

#[test]
fn write_loop_stops_at_close() {
    assert!(matches!(outgoing(Message::Close), Outgoing::Finish));
    match outgoing(Message::Token("abc".to_string())) {
        Outgoing::Send(m) => assert_eq!(m, Message::Token("abc".to_string())),
        Outgoing::Finish => panic!("only close ends the write loop"),
    }
}

#[test]
fn connect_request() {
    let m = connect_message(3, "tcp", "127.0.0.1:8888");
    assert_eq!(
        m,
        Message::Connect(Connect {
            id: CONNECT_ID,
            conn_id: 3,
            proto: "tcp".to_string(),
            addr: "127.0.0.1:8888".to_string()
        })
    );
    assert_eq!(CONNECT_ID, 0);
}

#[test]
fn only_tcp_is_opened() {
    assert!(opens(&connect(1, "tcp")));
    assert!(!opens(&connect(1, "udp")));
    assert!(!opens(&connect(1, "tc")));
    assert!(!opens(&connect(1, "tcpx")));
    assert!(!opens(&connect(1, "")));
}

#[test]
fn stream_write() {
    let m = stream_data(7, b"hello");
    assert_eq!(m, Message::Data(Data { id: STREAM_DATA_ID, conn_id: 7, data: b"hello".to_vec() }));
    assert_eq!(STREAM_DATA_ID, 12);
    assert_eq!(write_result::<()>(Ok(()), 5), Ok(5));
    assert_eq!(write_result::<&str>(Err("closed"), 5), Err(StreamError::BrokenPipe));
}

#[test]
fn retry_policy() {
    let p = client_retry_policy();
    assert_eq!(p.max_interval_ms, 100);
    assert_eq!(p.max_elapsed_ms, 10_000);
}

#[test]
fn opened_streams_get_distinct_ids_and_stubs() {
    let mut s: SessionState<u32> = SessionState::with_key("t".to_string(), 0, false);
    let mut ids = Vec::new();
    for k in 0..5u32 {
        let id = s.alloc_conn_id();
        s.insert_conn(id, 100 + k);
        ids.push(id);
    }
    assert_eq!(ids, vec![1, 2, 3, 4, 5]);
    for (k, id) in ids.iter().enumerate() {
        assert_eq!(s.conn(*id), Some(&(100 + k as u32)));
    }
    assert_eq!(s.conn(0), None);
    assert_eq!(s.conn(6), None);
}

#[test]
fn data_goes_to_the_stub_just_recorded() {
    let mut s: SessionState<&str> = SessionState::with_key("t".to_string(), 0, false);
    let id = s.alloc_conn_id();
    s.insert_conn(id, "stub");
    match s.route(Message::Data(Data { id: 1, conn_id: id, data: b"pong".to_vec() })) {
        Route::Deliver(stub, d) => {
            assert_eq!(*stub, "stub");
            assert_eq!(d, Data { id: 1, conn_id: id, data: b"pong".to_vec() });
        }
        _ => panic!("data for a recorded connection must be delivered"),
    }
}
