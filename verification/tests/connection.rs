use netpod::{
    handle_client, invoke_response, Action, Connection, Event, NetpodError, Op, Request, Stage,
};

fn keys() -> Vec<String> {
    vec!["math/add".to_string(), "math/sub".to_string(), "str/upper".to_string()]
}

fn read(bytes: &[u8]) -> Event {
    Event::Read(bytes.to_vec())
}

#[test]
fn a_new_connection_is_framing() {
    assert_eq!(Connection::new().stage(), Stage::Framing);
}

#[test]
fn a_describe_is_answered_without_a_call() {
    let mut connection = Connection::new();
    assert_eq!(handle_client(&mut connection, &keys(), read(b"d2:op8:desc")), Action::Read);
    assert_eq!(connection.stage(), Stage::Framing);
    let action = handle_client(&mut connection, &vec!["a/b".to_string()], read(b"ribee"));
    assert_eq!(
        action,
        Action::Write(b"d6:format4:json10:namespacesld4:name1:a4:varsld4:name1:beeeee".to_vec())
    );
    assert_eq!(connection.stage(), Stage::Responding);
    assert_eq!(handle_client(&mut connection, &keys(), Event::Written), Action::Close);
    assert_eq!(connection.stage(), Stage::Closed);
}

#[test]
fn an_invoke_goes_through_its_handler() {
    let mut connection = Connection::new();
    let action =
        handle_client(&mut connection, &keys(), read(b"d2:id2:422:op6:invoke3:var8:math/adde"));
    assert_eq!(
        action,
        Action::Call {
            handler: 0,
            request: Request {
                op: Op::Invoke,
                id: Some("42".to_string()),
                var: Some("math/add".to_string()),
                args: None,
            },
        }
    );
    assert_eq!(connection.stage(), Stage::Dispatching);
    let returned = Event::Returned(Ok(invoke_response("42".to_string(), b"3".to_vec())));
    assert_eq!(
        handle_client(&mut connection, &keys(), returned),
        Action::Write(b"d2:id2:426:status4:done5:value1:3e".to_vec())
    );
    assert_eq!(connection.stage(), Stage::Responding);
    assert_eq!(handle_client(&mut connection, &keys(), Event::Written), Action::Close);
    assert_eq!(connection.stage(), Stage::Closed);
}

#[test]
fn a_failed_handler_is_answered_with_the_request_id() {
    let mut connection = Connection::new();
    handle_client(&mut connection, &keys(), read(b"d2:id2:422:op6:invoke3:var8:math/adde"));
    let returned = Event::Returned(Err(NetpodError::Message("boom".to_string())));
    assert_eq!(
        handle_client(&mut connection, &keys(), returned),
        Action::Write(b"d10:ex-message4:boom2:id2:426:status5:errore".to_vec())
    );
}

#[test]
fn a_miss_is_answered_at_once() {
    let mut connection = Connection::new();
    let action =
        handle_client(&mut connection, &keys(), read(b"d2:id2:422:op6:invoke3:var8:math/mule"));
    assert_eq!(
        action,
        Action::Write(
            b"d10:ex-message29:error no handler for math/mul2:id2:426:status5:errore".to_vec()
        )
    );
    assert_eq!(connection.stage(), Stage::Responding);
}

#[test]
fn a_stream_that_ends_without_a_request_is_closed_unanswered() {
    let mut connection = Connection::new();
    assert_eq!(handle_client(&mut connection, &keys(), read(b"d5:bogus1:xe")), Action::Read);
    assert_eq!(handle_client(&mut connection, &keys(), read(b"")), Action::Close);
    assert_eq!(connection.stage(), Stage::Failed);
}

#[test]
fn a_failed_read_closes_the_connection() {
    let mut connection = Connection::new();
    assert_eq!(handle_client(&mut connection, &keys(), read(b"d2:")), Action::Read);
    assert_eq!(handle_client(&mut connection, &keys(), Event::ReadFailed), Action::Close);
    assert_eq!(connection.stage(), Stage::Failed);
}

#[test]
fn a_failed_write_fails_the_connection() {
    let mut connection = Connection::new();
    handle_client(&mut connection, &keys(), read(b"de"));
    assert_eq!(connection.stage(), Stage::Responding);
    assert_eq!(handle_client(&mut connection, &keys(), Event::WriteFailed), Action::Close);
    assert_eq!(connection.stage(), Stage::Failed);
}

#[test]
fn an_event_out_of_turn_fails_the_connection() {
    let mut connection = Connection::new();
    assert_eq!(handle_client(&mut connection, &keys(), Event::Written), Action::Close);
    assert_eq!(connection.stage(), Stage::Failed);
    let mut connection = Connection::new();
    handle_client(&mut connection, &keys(), read(b"d2:op6:invoke3:var8:math/adde"));
    assert_eq!(connection.stage(), Stage::Dispatching);
    assert_eq!(handle_client(&mut connection, &keys(), read(b"de")), Action::Close);
    assert_eq!(connection.stage(), Stage::Failed);
}

#[test]
fn a_connection_that_is_over_stays_over() {
    let mut connection = Connection::new();
    handle_client(&mut connection, &keys(), read(b"de"));
    handle_client(&mut connection, &keys(), Event::Written);
    for event in [read(b"de"), Event::Written, Event::WriteFailed, Event::ReadFailed] {
        assert_eq!(handle_client(&mut connection, &keys(), event), Action::Close);
        assert_eq!(connection.stage(), Stage::Closed);
    }
    let mut failed = Connection::new();
    handle_client(&mut failed, &keys(), Event::ReadFailed);
    for event in [read(b"de"), Event::Written] {
        assert_eq!(handle_client(&mut failed, &keys(), event), Action::Close);
        assert_eq!(failed.stage(), Stage::Failed);
    }
}

#[test]
fn two_connections_do_not_touch_each_other() {
    let registry = keys();
    let mut broken = Connection::new();
    let mut sound = Connection::new();
    assert_eq!(handle_client(&mut broken, &registry, read(b"d5:bogus")), Action::Read);
    assert_eq!(handle_client(&mut sound, &registry, read(b"d2:id1:72:op6:inv")), Action::Read);
    assert_eq!(handle_client(&mut broken, &registry, read(b"1:xe")), Action::Read);
    let call = handle_client(&mut sound, &registry, read(b"oke3:var9:str/uppere"));
    assert_eq!(handle_client(&mut broken, &registry, read(b"")), Action::Close);
    assert_eq!(broken.stage(), Stage::Failed);
    match call {
        Action::Call { handler, request } => {
            assert_eq!(handler, 2);
            assert_eq!(request.id, Some("7".to_string()));
        }
        other => panic!("{:?}", other),
    }
    let returned = Event::Returned(Ok(invoke_response("7".to_string(), b"X".to_vec())));
    assert_eq!(
        handle_client(&mut sound, &registry, returned),
        Action::Write(b"d2:id1:76:status4:done5:value1:Xe".to_vec())
    );
    assert_eq!(handle_client(&mut sound, &registry, Event::Written), Action::Close);
    assert_eq!(sound.stage(), Stage::Closed);
}

#[test]
fn a_request_past_the_limit_fails_the_connection() {
    let mut connection = Connection::with_limit(16);
    assert_eq!(connection.stage(), Stage::Framing);
    assert_eq!(handle_client(&mut connection, &keys(), read(b"d2:id10:01234")), Action::Read);
    assert_eq!(handle_client(&mut connection, &keys(), read(b"56789e")), Action::Close);
    assert_eq!(connection.stage(), Stage::Failed);
    let mut roomy = Connection::with_limit(19);
    assert_eq!(handle_client(&mut roomy, &keys(), read(b"d2:id10:01234")), Action::Read);
    match handle_client(&mut roomy, &keys(), read(b"56789e")) {
        Action::Write(_) => {}
        other => panic!("{:?}", other),
    }
}
