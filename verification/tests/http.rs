use tcp_tunnel::http::{
    fault_reply, stream_reply, Fault, INTERNAL_SERVER_ERROR, NOT_FOUND, REQUEST_TIMEOUT,
    SERVICE_UNAVAILABLE,
};

#[test]
fn stream_replies() {
    assert_eq!(stream_reply::<u8, ()>(Ok(Some(1))), Ok("ok".to_string()));
    assert_eq!(stream_reply::<u8, ()>(Ok(None)), Err(404));
    assert_eq!(stream_reply::<u8, &str>(Err("boom")), Err(500));
    assert_eq!(NOT_FOUND, 404);
    assert_eq!(INTERNAL_SERVER_ERROR, 500);
}

#[test]
fn fault_replies() {
    assert_eq!(fault_reply(Fault::Timeout, "x"), (408, "request timed out".to_string()));
    assert_eq!(
        fault_reply(Fault::Overloaded, "x"),
        (503, "service is overloaded, try again later".to_string())
    );
    assert_eq!(
        fault_reply(Fault::Other, "disk on fire"),
        (500, "Unhandled internal error: disk on fire".to_string())
    );
    assert_eq!(REQUEST_TIMEOUT, 408);
    assert_eq!(SERVICE_UNAVAILABLE, 503);
}
