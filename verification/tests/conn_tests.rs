use caprpc::codec::{decode, encode, CapDesc, DecodeOutcome, Message, Outcome, Payload};
use caprpc::conn::{Action, CapRef, ConnState, Connection, RpcError};
use caprpc::{Echo, ECHO_METHOD_ID};

/// Push a message through the codec, as the transport would.
fn wire(m: Message) -> Message {
    let bytes = encode(&m);
    match decode(&bytes) {
        DecodeOutcome::Decoded { msg, used } => {
            assert_eq!(used, bytes.len());
            msg
        },
        _ => panic!("expected a decoded message"),
    }
}

/// The action list must be exactly one `Send`; hand its message over.
fn single_send(acts: Vec<Action>) -> Message {
    assert_eq!(acts.len(), 1);
    match acts.into_iter().next().unwrap() {
        Action::Send { msg } => msg,
        other => panic!("expected a Send action, got {:?}", other),
    }
}

fn empty_params() -> Payload {
    Payload { data: Vec::new(), caps: Vec::new() }
}

#[test]
fn echo_call_resolves_to_the_same_string() {
    const ECHO_HANDLE: u64 = 7;
    let echo = Echo;
    let mut server = Connection::new(Some(ECHO_HANDLE));
    server.on_connected();
    let mut client = Connection::new(None);
    client.on_connected();

    // resolve the peer's bootstrap capability
    let (bqid, acts) = client.bootstrap_request();
    let reply = single_send(server.handle_message(wire(single_send(acts))));
    assert!(client.handle_message(wire(reply)).is_empty());
    let boot = client.question_result(bqid).unwrap().unwrap();
    assert_eq!(boot.caps.len(), 1);
    let cap = client.adopt_cap(&boot.caps[0]).unwrap();

    // call echo with "hello"
    let params = Payload { data: b"hello".to_vec(), caps: Vec::new() };
    let (qid, acts) = client.start_call(&cap, ECHO_METHOD_ID, params).unwrap();
    let server_acts = server.handle_message(wire(single_send(acts)));
    assert_eq!(server_acts.len(), 1);
    match &server_acts[0] {
        Action::Invoke { handle, method_id, params, answer_id } => {
            assert_eq!(*handle, ECHO_HANDLE);
            let outcome = echo.serve(*method_id, params);
            let reply = single_send(server.local_answer_completed(*answer_id, outcome));
            assert!(client.handle_message(wire(reply)).is_empty());
        },
        other => panic!("expected an Invoke action, got {:?}", other),
    }

    // the client's answer resolves to the literal string
    let out = client.question_result(qid).unwrap().unwrap();
    assert_eq!(out.data, b"hello".to_vec());
}

#[test]
fn local_calls_use_the_same_facade() {
    let echo = Echo;
    let mut conn = Connection::new(None);
    conn.on_connected();
    let target = CapRef::Local { handle: 3 };
    let params = Payload { data: b"near".to_vec(), caps: Vec::new() };
    let (qid, acts) = conn.start_call(&target, ECHO_METHOD_ID, params).unwrap();
    assert_eq!(acts.len(), 1);
    match &acts[0] {
        Action::InvokeLocal { handle, method_id, params, question_id } => {
            assert_eq!((*handle, *question_id), (3, qid));
            let outcome = echo.serve(*method_id, params);
            conn.local_question_completed(*question_id, outcome);
        },
        other => panic!("expected an InvokeLocal action, got {:?}", other),
    }
    let out = conn.question_result(qid).unwrap().unwrap();
    assert_eq!(out.data, b"near".to_vec());
}

/// Drive a server up to a pending answer that a pipelined call waits
/// on, returning the waiting call's dispatch data.
fn pipelined_dispatch(stalled_params: Vec<u8>) -> (u64, u32, Vec<u8>, u32) {
    const PROVIDER: u64 = 1;
    const ECHO_OBJ: u64 = 9;
    let mut server = Connection::new(Some(PROVIDER));
    server.on_connected();

    // find the bootstrap export id
    let boot = single_send(server.handle_message(Message::Bootstrap { call_id: 0 }));
    let eid0 = match boot {
        Message::Return { outcome: Outcome::Results { payload }, .. } => match payload.caps[0] {
            CapDesc::SenderHosted { id } => id,
            _ => panic!("expected a hosted capability"),
        },
        _ => panic!("expected results"),
    };

    // call 1 on the provider stays pending: its Invoke is not completed yet
    let acts = server.handle_message(Message::Call {
        call_id: 1,
        target: caprpc::codec::Target::Export { id: eid0 },
        method_id: 42,
        params: empty_params(),
    });
    assert!(matches!(acts[0], Action::Invoke { answer_id: 1, .. }));

    // call 2 pipelines on call 1's future result; it must wait
    let acts = server.handle_message(Message::Call {
        call_id: 2,
        target: caprpc::codec::Target::PromisedAnswer { answer_id: 1, path: vec![0] },
        method_id: ECHO_METHOD_ID,
        params: Payload { data: stalled_params, caps: Vec::new() },
    });
    assert!(acts.is_empty());

    // now the provider answers call 1 with a capability to the echo object
    let echo_eid = server.caps.export_local(ECHO_OBJ).unwrap();
    let acts = server.local_answer_completed(
        1,
        Outcome::Results {
            payload: Payload {
                data: Vec::new(),
                caps: vec![CapDesc::SenderHosted { id: echo_eid }],
            },
        },
    );
    // the woken pipelined call dispatches to the echo object
    assert_eq!(acts.len(), 2);
    assert!(matches!(acts[0], Action::Send { .. }));
    match &acts[1] {
        Action::Invoke { handle, method_id, params, answer_id } => (
            *handle,
            *method_id,
            params.data.clone(),
            *answer_id,
        ),
        other => panic!("expected an Invoke action, got {:?}", other),
    }
}

#[test]
fn pipelined_call_dispatches_like_a_direct_call() {
    // pipelined: issued before the first answer resolved
    let (handle, method_id, data, answer_id) = pipelined_dispatch(b"ping".to_vec());
    assert_eq!((handle, method_id, answer_id), (9, ECHO_METHOD_ID, 2));
    assert_eq!(data, b"ping".to_vec());

    // direct: the same call issued at the capability after the return
    const ECHO_OBJ: u64 = 9;
    let mut server = Connection::new(None);
    server.on_connected();
    let echo_eid = server.caps.export_local(ECHO_OBJ).unwrap();
    let acts = server.handle_message(Message::Call {
        call_id: 3,
        target: caprpc::codec::Target::Export { id: echo_eid },
        method_id: ECHO_METHOD_ID,
        params: Payload { data: b"ping".to_vec(), caps: Vec::new() },
    });
    match &acts[0] {
        Action::Invoke { handle: dh, method_id: dm, params, .. } => {
            // same object, same method, same arguments: same result
            assert_eq!((*dh, *dm), (handle, method_id));
            assert_eq!(params.data, data);
        },
        other => panic!("expected an Invoke action, got {:?}", other),
    }
}

#[test]
fn error_fans_out_to_every_pipelined_dependent() {
    const PROVIDER: u64 = 1;
    let mut server = Connection::new(Some(PROVIDER));
    server.on_connected();
    let boot = single_send(server.handle_message(Message::Bootstrap { call_id: 0 }));
    let eid0 = match boot {
        Message::Return { outcome: Outcome::Results { payload }, .. } => match payload.caps[0] {
            CapDesc::SenderHosted { id } => id,
            _ => panic!("expected a hosted capability"),
        },
        _ => panic!("expected results"),
    };
    server.handle_message(Message::Call {
        call_id: 1,
        target: caprpc::codec::Target::Export { id: eid0 },
        method_id: 42,
        params: empty_params(),
    });
    for call_id in [2u32, 3u32] {
        let acts = server.handle_message(Message::Call {
            call_id,
            target: caprpc::codec::Target::PromisedAnswer { answer_id: 1, path: vec![0] },
            method_id: ECHO_METHOD_ID,
            params: empty_params(),
        });
        assert!(acts.is_empty());
    }
    // the provider fails call 1: both dependents get that error, no invocation
    let acts =
        server.local_answer_completed(1, Outcome::Failure { reason: b"boom".to_vec() });
    assert_eq!(acts.len(), 3);
    let mut seen = Vec::new();
    for a in &acts {
        match a {
            Action::Send { msg: Message::Return { call_id, outcome } } => {
                match outcome {
                    Outcome::Failure { reason } => assert_eq!(reason, &b"boom".to_vec()),
                    _ => panic!("dependent resolved with success"),
                }
                seen.push(*call_id);
            },
            other => panic!("expected only error returns, got {:?}", other),
        }
    }
    assert_eq!(seen, vec![1, 2, 3]);
}

#[test]
fn transport_loss_fails_pending_questions_with_connection_lost() {
    let mut client = Connection::new(None);
    client.on_connected();
    let (qid, _acts) = client.bootstrap_request();
    assert!(client.question_result(qid).is_none());
    client.on_transport_closed();
    assert_eq!(client.state, ConnState::Closed);
    let res = client.question_result(qid).unwrap();
    assert_eq!(res, Err(RpcError::ConnectionLost));
}

#[test]
fn double_release_aborts_only_that_connection() {
    const OBJ: u64 = 5;
    let mut server = Connection::new(Some(OBJ));
    server.on_connected();
    let mut other = Connection::new(Some(OBJ));
    other.on_connected();

    // one grant through bootstrap
    server.handle_message(Message::Bootstrap { call_id: 0 });
    // first release frees the export
    let acts = server.handle_message(Message::Release { export_id: 0, delta: 1 });
    assert!(matches!(acts[0], Action::DisposeExport { handle: OBJ }));
    // the second release has nothing left to release: protocol violation
    let acts = server.handle_message(Message::Release { export_id: 0, delta: 1 });
    assert_eq!(server.state, ConnState::Aborted);
    assert_eq!(acts.len(), 2);
    assert!(matches!(acts[0], Action::Send { msg: Message::Abort { .. } }));
    assert!(matches!(acts[1], Action::CloseTransport));
    // the other connection is untouched
    assert_eq!(other.state, ConnState::Active);
    assert!(!other.handle_message(Message::Bootstrap { call_id: 0 }).is_empty());
}

#[test]
fn peer_abort_fails_questions_with_peer_aborted() {
    let mut client = Connection::new(None);
    client.on_connected();
    let (qid, _acts) = client.bootstrap_request();
    let acts = client.handle_message(Message::Abort { reason: b"bye".to_vec() });
    assert!(matches!(acts[0], Action::CloseTransport));
    assert_eq!(client.state, ConnState::Aborted);
    assert_eq!(client.question_result(qid).unwrap(), Err(RpcError::PeerAborted));
}

#[test]
fn unknown_call_id_in_return_aborts() {
    let mut client = Connection::new(None);
    client.on_connected();
    let acts = client.handle_message(Message::Return {
        call_id: 3,
        outcome: Outcome::Failure { reason: Vec::new() },
    });
    assert_eq!(client.state, ConnState::Aborted);
    assert!(matches!(acts[0], Action::Send { msg: Message::Abort { .. } }));
}

#[test]
fn late_return_after_cancel_is_discarded() {
    let mut client = Connection::new(None);
    client.on_connected();
    let (qid, _acts) = client.bootstrap_request();
    client.cancel_question(qid);
    let acts = client.handle_message(Message::Return {
        call_id: qid,
        outcome: Outcome::Results { payload: empty_params() },
    });
    assert!(acts.is_empty());
    assert_eq!(client.state, ConnState::Active);
    assert!(client.question_result(qid).is_none());
}

#[test]
fn application_error_reaches_the_question() {
    let mut client = Connection::new(None);
    client.on_connected();
    let (qid, _acts) = client.bootstrap_request();
    let acts = client.handle_message(Message::Return {
        call_id: qid,
        outcome: Outcome::Failure { reason: b"denied".to_vec() },
    });
    assert!(acts.is_empty());
    assert_eq!(
        client.question_result(qid).unwrap(),
        Err(RpcError::Application { reason: b"denied".to_vec() })
    );
}

#[test]
fn calls_on_a_dead_import_are_refused() {
    let mut client = Connection::new(None);
    client.on_connected();
    let target = CapRef::Imported { id: 0 };
    let r = client.start_call(&target, ECHO_METHOD_ID, empty_params());
    assert!(matches!(r, Err(RpcError::BadCapability)));
}

#[test]
fn releasing_the_last_import_sends_the_whole_grant() {
    let mut client = Connection::new(None);
    client.on_connected();
    let cap = CapDesc::SenderHosted { id: 6 };
    assert!(matches!(client.adopt_cap(&cap), Ok(CapRef::Imported { id: 6 })));
    assert!(matches!(client.adopt_cap(&cap), Ok(CapRef::Imported { id: 6 })));
    // first drop keeps the import alive: nothing goes on the wire
    let acts = client.release_import(6).unwrap();
    assert!(acts.is_empty());
    // last drop releases both granted references at once
    let acts = client.release_import(6).unwrap();
    assert_eq!(acts.len(), 1);
    assert!(matches!(
        acts[0],
        Action::Send { msg: Message::Release { export_id: 6, delta: 2 } }
    ));
    assert!(matches!(client.release_import(6), Err(RpcError::BadCapability)));
}

#[test]
fn echo_returns_its_message() {
    let echo = Echo;
    assert_eq!(echo.echo(&b"hello".to_vec()), b"hello".to_vec());
    assert_eq!(echo.echo(&Vec::new()), Vec::<u8>::new());
    let out = echo.serve(ECHO_METHOD_ID + 1, &empty_params());
    assert!(matches!(out, Outcome::Failure { .. }));
}

#[test]
fn close_is_terminal_and_messages_are_ignored() {
    let mut conn = Connection::new(None);
    conn.on_connected();
    let acts = conn.begin_close();
    assert_eq!(acts.len(), 1);
    assert!(matches!(acts[0], Action::CloseTransport));
    assert_eq!(conn.state, ConnState::Closing);
    // nothing is accepted after closing began
    let acts = conn.handle_message(Message::Bootstrap { call_id: 0 });
    assert!(acts.is_empty());
    assert_eq!(conn.state, ConnState::Closing);
    conn.on_transport_closed();
    assert_eq!(conn.state, ConnState::Closed);
    // a second loss changes nothing
    conn.on_transport_closed();
    assert_eq!(conn.state, ConnState::Closed);
}

#[test]
fn aborted_connection_ignores_further_messages() {
    let mut conn = Connection::new(None);
    conn.on_connected();
    conn.handle_message(Message::Return {
        call_id: 0,
        outcome: Outcome::Failure { reason: Vec::new() },
    });
    assert_eq!(conn.state, ConnState::Aborted);
    let acts = conn.handle_message(Message::Bootstrap { call_id: 1 });
    assert!(acts.is_empty());
    assert_eq!(conn.state, ConnState::Aborted);
}

#[test]
fn bootstrap_without_a_registered_object_fails_the_call() {
    let mut server = Connection::new(None);
    server.on_connected();
    let reply = single_send(server.handle_message(Message::Bootstrap { call_id: 4 }));
    match reply {
        Message::Return { call_id, outcome } => {
            assert_eq!(call_id, 4);
            assert!(matches!(outcome, Outcome::Failure { .. }));
        },
        other => panic!("expected a Return, got {:?}", other),
    }
}

#[test]
fn malformed_frame_aborts_the_connection() {
    let mut conn = Connection::new(None);
    conn.on_connected();
    let acts = conn.on_malformed_frame();
    assert_eq!(conn.state, ConnState::Aborted);
    assert!(matches!(acts[0], Action::Send { msg: Message::Abort { .. } }));
    assert!(matches!(acts[1], Action::CloseTransport));
}

#[test]
fn reused_call_id_aborts_the_connection() {
    let mut server = Connection::new(Some(1));
    server.on_connected();
    server.handle_message(Message::Bootstrap { call_id: 0 });
    let acts = server.handle_message(Message::Bootstrap { call_id: 0 });
    assert_eq!(server.state, ConnState::Aborted);
    assert!(matches!(acts[0], Action::Send { msg: Message::Abort { .. } }));
}

#[test]
fn pipelining_on_an_unknown_answer_aborts() {
    let mut server = Connection::new(Some(1));
    server.on_connected();
    let acts = server.handle_message(Message::Call {
        call_id: 2,
        target: caprpc::codec::Target::PromisedAnswer { answer_id: 7, path: vec![0] },
        method_id: ECHO_METHOD_ID,
        params: empty_params(),
    });
    assert_eq!(server.state, ConnState::Aborted);
    assert!(matches!(acts[0], Action::Send { msg: Message::Abort { .. } }));
}

#[test]
fn pipelined_call_after_resolution_dispatches_immediately() {
    // the bootstrap answer resolves at once; a later pipelined call on
    // it must dispatch without waiting
    const OBJ: u64 = 3;
    let mut server = Connection::new(Some(OBJ));
    server.on_connected();
    server.handle_message(Message::Bootstrap { call_id: 0 });
    let acts = server.handle_message(Message::Call {
        call_id: 1,
        target: caprpc::codec::Target::PromisedAnswer { answer_id: 0, path: vec![0] },
        method_id: ECHO_METHOD_ID,
        params: Payload { data: b"now".to_vec(), caps: Vec::new() },
    });
    assert_eq!(acts.len(), 1);
    match &acts[0] {
        Action::Invoke { handle, params, answer_id, .. } => {
            assert_eq!((*handle, *answer_id), (OBJ, 1));
            assert_eq!(params.data, b"now".to_vec());
        },
        other => panic!("expected an Invoke action, got {:?}", other),
    }
}
