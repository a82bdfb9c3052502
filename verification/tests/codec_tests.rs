use caprpc::codec::{
    decode, encode, CapDesc, DecodeOutcome, Message, Outcome, Payload, Target,
};

fn round_trip(m: Message) {
    let bytes = encode(&m);
    match decode(&bytes) {
        DecodeOutcome::Decoded { msg, used } => {
            assert_eq!(used, bytes.len());
            assert_eq!(msg, m);
        },
        _ => panic!("expected a decoded message"),
    }
}

#[test]
fn round_trip_bootstrap() {
    round_trip(Message::Bootstrap { call_id: 7 });
}

#[test]
fn round_trip_release() {
    round_trip(Message::Release { export_id: 3, delta: 2 });
}

#[test]
fn round_trip_abort() {
    round_trip(Message::Abort { reason: b"went wrong".to_vec() });
    round_trip(Message::Abort { reason: Vec::new() });
}

#[test]
fn round_trip_call_on_export() {
    round_trip(Message::Call {
        call_id: 1,
        target: Target::Export { id: 0 },
        method_id: 0,
        params: Payload { data: b"hello".to_vec(), caps: Vec::new() },
    });
}

#[test]
fn round_trip_call_pipelined_with_caps() {
    round_trip(Message::Call {
        call_id: 9,
        target: Target::PromisedAnswer { answer_id: 4, path: vec![0, 2] },
        method_id: 5,
        params: Payload {
            data: vec![1, 2, 3],
            caps: vec![
                CapDesc::SenderHosted { id: 11 },
                CapDesc::ReceiverHosted { id: 12 },
                CapDesc::PromisedAnswer { answer_id: 4, path: vec![1] },
            ],
        },
    });
}

#[test]
fn round_trip_return_results() {
    round_trip(Message::Return {
        call_id: 2,
        outcome: Outcome::Results {
            payload: Payload {
                data: b"response".to_vec(),
                caps: vec![CapDesc::SenderHosted { id: 0 }],
            },
        },
    });
}

#[test]
fn round_trip_return_failure() {
    round_trip(Message::Return {
        call_id: 2,
        outcome: Outcome::Failure { reason: b"no such method".to_vec() },
    });
}

#[test]
fn exact_frame_layout_of_bootstrap() {
    // 4-byte little-endian body length, tag byte, 4-byte call id.
    let bytes = encode(&Message::Bootstrap { call_id: 7 });
    assert_eq!(bytes, vec![5, 0, 0, 0, 3, 7, 0, 0, 0]);
}

#[test]
fn partial_frames_need_more_data() {
    assert!(matches!(decode(&[]), DecodeOutcome::NeedMoreData));
    assert!(matches!(decode(&[5, 0, 0]), DecodeOutcome::NeedMoreData));
    // claims a 5-byte body but holds only one byte of it
    assert!(matches!(decode(&[5, 0, 0, 0, 3]), DecodeOutcome::NeedMoreData));
}

#[test]
fn unknown_tag_is_malformed() {
    assert!(matches!(decode(&[1, 0, 0, 0, 99]), DecodeOutcome::Malformed));
}

#[test]
fn slack_in_frame_is_malformed() {
    // a valid bootstrap body followed by an unconsumed byte
    assert!(matches!(
        decode(&[6, 0, 0, 0, 3, 7, 0, 0, 0, 9]),
        DecodeOutcome::Malformed
    ));
}

#[test]
fn trailing_bytes_are_left_alone() {
    let mut bytes = encode(&Message::Bootstrap { call_id: 1 });
    let frame_len = bytes.len();
    bytes.extend_from_slice(&encode(&Message::Release { export_id: 0, delta: 1 }));
    match decode(&bytes) {
        DecodeOutcome::Decoded { msg, used } => {
            assert_eq!(used, frame_len);
            assert_eq!(msg, Message::Bootstrap { call_id: 1 });
        },
        _ => panic!("expected a decoded message"),
    }
}
