use serve_core::connection::{Action, ConnError, Connection, Pending, Stage};
use serve_core::router::Router;
use serve_core::store::{Query, QueryKind, Reply, User};

fn write(action: Action) -> String {
    match action {
        Action::Write(bytes) => String::from_utf8(bytes).unwrap(),
        other => panic!("nothing to write: {:?}", other),
    }
}

#[test]
fn a_greeting_is_read_routed_written_and_closed() {
    let router = Router::standard();
    let conn = Connection::new();
    assert_eq!(conn.stage(), Stage::Reading);
    let (conn, action) = conn.received(b"GET / HTTP/1.1\r\nConnection: keep-alive\r\n\r\n");
    assert_eq!(conn.stage(), Stage::Parsed);
    assert!(matches!(action, Action::Route));
    let (conn, action) = conn.dispatch(&router);
    assert_eq!(conn.stage(), Stage::Writing);
    assert_eq!(
        write(action),
        "HTTP/1.1 200 OK\r\nContent-Type: text/plain\r\nContent-Length: 11\r\n\r\nHello World"
    );
    let (conn, action) = conn.written();
    assert_eq!(conn.stage(), Stage::Closed);
    assert!(matches!(action, Action::Close(None)));
    assert!(matches!(conn, Connection::Closed(None)));
}

#[test]
fn a_read_of_no_bytes_closes_the_connection() {
    let (conn, action) = Connection::new().received(b"");
    assert!(matches!(conn, Connection::Closed(None)));
    assert!(matches!(action, Action::Close(None)));
}

#[test]
fn a_failed_read_closes_the_connection_with_the_error() {
    let (conn, action) = Connection::new().read_failed();
    assert!(matches!(conn, Connection::Closed(Some(ConnError::Read))));
    assert!(matches!(action, Action::Close(Some(ConnError::Read))));
}

#[test]
fn a_failed_write_closes_the_connection_with_the_error() {
    let (conn, _) = Connection::new().received(b"GET / HTTP/1.1\r\n\r\n");
    let (conn, _) = conn.dispatch(&Router::standard());
    let (conn, action) = conn.write_failed();
    assert!(matches!(conn, Connection::Closed(Some(ConnError::Write))));
    assert!(matches!(action, Action::Close(Some(ConnError::Write))));
}

#[test]
fn bytes_that_hold_no_request_are_answered_with_400() {
    let (conn, action) = Connection::new().received(b"GET\r\n\r\n");
    assert_eq!(conn.stage(), Stage::Writing);
    assert_eq!(
        write(action),
        "HTTP/1.1 400 Bad Request\r\nContent-Type: application/json\r\nContent-Length: 29\r\n\r\n{\"error\":\"Malformed request\"}"
    );
    let (conn, _) = conn.written();
    assert_eq!(conn.stage(), Stage::Closed);
}

#[test]
fn an_unregistered_route_is_written_as_404() {
    let (conn, _) = Connection::new().received(b"GET /nothing HTTP/1.1\r\n\r\n");
    let (conn, action) = conn.dispatch(&Router::standard());
    assert_eq!(conn.stage(), Stage::Writing);
    assert_eq!(
        write(action),
        "HTTP/1.1 404 Not Found\r\nContent-Type: application/json\r\nContent-Length: 23\r\n\r\n{\"message\":\"Not found\"}"
    );
}

#[test]
fn a_lookup_waits_for_the_store() {
    let (conn, _) = Connection::new().received(b"GET /users/42 HTTP/1.1\r\n\r\n");
    let (conn, action) = conn.dispatch(&Router::standard());
    assert!(matches!(conn, Connection::Dispatching(Pending::Store(QueryKind::FindUser))));
    assert!(matches!(action, Action::Ask(Query::FindUser { id: 42 })));
    let (conn, action) = conn.replied(&Reply::Rows(Vec::new()));
    assert_eq!(conn.stage(), Stage::Writing);
    assert_eq!(
        write(action),
        "HTTP/1.1 404 Not Found\r\nContent-Type: application/json\r\nContent-Length: 28\r\n\r\n{\"message\":\"User not found\"}"
    );
}

#[test]
fn a_creation_decodes_then_asks_the_store() {
    let (conn, _) = Connection::new()
        .received(b"POST /users HTTP/1.1\r\nContent-Length: 23\r\n\r\n{\"name\":\"Ada\",\"age\":30}");
    let (conn, action) = conn.dispatch(&Router::standard());
    assert!(matches!(conn, Connection::Dispatching(Pending::Decode)));
    match action {
        Action::Decode(body) => assert_eq!(body, b"{\"name\":\"Ada\",\"age\":30}".to_vec()),
        other => panic!("{:?}", other),
    }
    let (conn, action) = conn.decoded(Some(User { name: "Ada".to_string(), age: 30 }));
    assert!(matches!(conn, Connection::Dispatching(Pending::Store(QueryKind::InsertUser))));
    match action {
        Action::Ask(Query::InsertUser { user }) => {
            assert_eq!(user.name, "Ada");
            assert_eq!(user.age, 30);
        }
        other => panic!("{:?}", other),
    }
    let (conn, action) = conn.replied(&Reply::Rows(Vec::new()));
    assert_eq!(conn.stage(), Stage::Writing);
    assert_eq!(
        write(action),
        "HTTP/1.1 200 OK\r\nContent-Type: application/json\r\nContent-Length: 24\r\n\r\n{\"message\":\"User added\"}"
    );
}

#[test]
fn a_body_without_a_user_is_written_as_400() {
    let (conn, _) = Connection::new().received(b"POST /users HTTP/1.1\r\n\r\nnot json");
    let (conn, _) = conn.dispatch(&Router::standard());
    let (conn, action) = conn.decoded(None);
    assert_eq!(conn.stage(), Stage::Writing);
    assert_eq!(
        write(action),
        "HTTP/1.1 400 Bad Request\r\nContent-Type: application/json\r\nContent-Length: 29\r\n\r\n{\"error\":\"Invalid user data\"}"
    );
}

#[test]
fn an_exhausted_pool_is_written_as_503() {
    let (conn, _) = Connection::new().received(b"GET /users HTTP/1.1\r\n\r\n");
    let (conn, action) = conn.dispatch(&Router::standard());
    assert!(matches!(action, Action::Ask(Query::ListUsers)));
    let (_, action) = conn.replied(&Reply::PoolExhausted);
    assert_eq!(
        write(action),
        "HTTP/1.1 503 Service Unavailable\r\nContent-Type: application/json\r\nContent-Length: 25\r\n\r\n{\"error\":\"PoolExhausted\"}"
    );
}

#[test]
fn a_report_out_of_order_closes_the_connection() {
    let router = Router::standard();
    let out_of_order = |pair: (Connection, Action)| {
        assert!(matches!(pair.0, Connection::Closed(Some(ConnError::OutOfOrder))));
        assert!(matches!(pair.1, Action::Close(Some(ConnError::OutOfOrder))));
    };
    out_of_order(Connection::new().dispatch(&router));
    out_of_order(Connection::new().written());
    out_of_order(Connection::new().write_failed());
    out_of_order(Connection::new().decoded(None));
    out_of_order(Connection::new().replied(&Reply::PoolExhausted));
    out_of_order(Connection::Writing.received(b"GET / HTTP/1.1\r\n\r\n"));
    out_of_order(Connection::Writing.read_failed());
    out_of_order(Connection::Writing.dispatch(&router));
    out_of_order(Connection::Closed(None).written());
    out_of_order(Connection::Closed(None).received(b"x"));
    out_of_order(Connection::Dispatching(Pending::Decode).replied(&Reply::PoolExhausted));
    out_of_order(Connection::Dispatching(Pending::Store(QueryKind::ListUsers)).decoded(None));
}
