use tcp_tunnel::message::{Action, Connect, Data, Message, CONNECT_ID, STREAM_DATA_ID};

#[test]
fn token_message() {
    assert_eq!(Message::token("hello"), Message::Token("hello".to_string()));
}

#[test]
fn close_is_recognised() {
    assert!(Message::Close.is_close());
    assert!(!Message::token("t").is_close());
    assert!(!Message::Data(Data { id: 1, conn_id: 1, data: vec![] }).is_close());
}

#[test]
fn constructors() {
    assert_eq!(
        Connect::request(4, "tcp", "a:1"),
        Connect { id: CONNECT_ID, conn_id: 4, proto: "tcp".to_string(), addr: "a:1".to_string() }
    );
    assert_eq!(
        Data::outgoing(4, b"xy"),
        Data { id: STREAM_DATA_ID, conn_id: 4, data: b"xy".to_vec() }
    );
    assert_eq!(Action::Bind("x".to_string()), Action::Bind("x".to_string()));
}
