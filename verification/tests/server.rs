use tcp_tunnel::message::Message;
use tcp_tunnel::server::{handshake, HandshakeError, Registry};

#[test]
fn handshake_takes_token() {
    assert_eq!(handshake(Message::Token("hello".to_string())), Ok("hello".to_string()));
    assert_eq!(handshake(Message::Close), Err(HandshakeError::InvalidTokenProtocol));
}

#[test]
fn handshake_error_text() {
    assert_eq!(HandshakeError::InvalidTokenProtocol.message(), "invalid client token protocol");
}

#[test]
fn registry_read_after_write() {
    let mut r: Registry<u32> = Registry::new();
    assert_eq!(r.get("a"), None);
    assert_eq!(r.insert("a".to_string(), 1), None);
    assert_eq!(r.insert("b".to_string(), 2), None);
    assert_eq!(r.get("a"), Some(&1));
    assert_eq!(r.get("b"), Some(&2));
    assert_eq!(r.get("c"), None);
}

#[test]
fn registry_replaces_session_of_same_token() {
    let mut r: Registry<u32> = Registry::new();
    r.insert("a".to_string(), 1);
    r.insert("b".to_string(), 2);
    assert_eq!(r.insert("a".to_string(), 3), Some(1));
    assert_eq!(r.get("a"), Some(&3));
    assert_eq!(r.get("b"), Some(&2));
}

#[test]
fn registry_tokens_compare_by_characters() {
    let mut r: Registry<u32> = Registry::new();
    r.insert("héllo".to_string(), 1);
    assert_eq!(r.get("héllo"), Some(&1));
    assert_eq!(r.get("hello"), None);
    assert_eq!(r.get(""), None);
}
