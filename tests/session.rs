use runtime::session::{retry_connect, ClientError, RequestKind, ResponseHeader, Session, SessionState};

#[test]
fn one_request_at_a_time() {
    let mut s = Session::new();
    assert_eq!(s.begin(RequestKind::RunProcess), Ok(0));
    assert_eq!(s.begin(RequestKind::Kill), Err(ClientError::Busy));
    assert_eq!(s.on_response(ResponseHeader { request_id: 0, status: 0 }), Ok(RequestKind::RunProcess));
    assert_eq!(s.state(), SessionState::Idle);
    assert_eq!(s.begin(RequestKind::Kill), Ok(1));
}

#[test]
fn guest_error_is_scoped_to_its_call() {
    let mut s = Session::new();
    let id = s.begin(RequestKind::Kill).unwrap();
    assert_eq!(s.on_response(ResponseHeader { request_id: id, status: 3 }), Err(ClientError::Guest { code: 3 }));
    assert_eq!(s.state(), SessionState::Idle);
    assert!(s.begin(RequestKind::Mount).is_ok());
}

#[test]
fn mismatched_response_closes_the_session() {
    let mut s = Session::new();
    s.begin(RequestKind::QueryOutput).unwrap();
    assert_eq!(s.on_response(ResponseHeader { request_id: 42, status: 0 }), Err(ClientError::Protocol));
    assert_eq!(s.begin(RequestKind::Kill), Err(ClientError::ConnectionClosed));
    let mut t = Session::new();
    assert_eq!(t.on_response(ResponseHeader { request_id: 0, status: 0 }), Err(ClientError::Protocol));
    assert_eq!(t.state(), SessionState::Closed);
}

#[test]
fn transport_error_fails_pending_and_future_calls() {
    let mut s = Session::new();
    s.begin(RequestKind::AddHosts).unwrap();
    assert_eq!(s.on_transport_error(), Some(ClientError::Transport));
    assert_eq!(s.begin(RequestKind::Kill), Err(ClientError::ConnectionClosed));
    let mut idle = Session::new();
    assert_eq!(idle.on_transport_error(), None);
    assert_eq!(idle.state(), SessionState::Closed);
}

#[test]
fn quit_closes_the_session() {
    let mut s = Session::new();
    let id = s.begin(RequestKind::Quit).unwrap();
    assert_eq!(s.on_response(ResponseHeader { request_id: id, status: 0 }), Ok(RequestKind::Quit));
    assert_eq!(s.begin(RequestKind::RunProcess), Err(ClientError::ConnectionClosed));
}

#[test]
fn connect_retries_then_gives_up() {
    assert!(retry_connect(1, 3));
    assert!(retry_connect(3, 3));
    assert!(!retry_connect(4, 3));
    assert!(!retry_connect(1, 0));
}
