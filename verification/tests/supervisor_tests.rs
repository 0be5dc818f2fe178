use log_ingest::decode::{decode_payload, DecodeError};
use log_ingest::supervisor::{
    after_session, connect_step, handle_message, is_connection_error, receive_error_action,
    simulate_kafka_message_reception, AfterSession, ConnectOutcome, MessageOutcome, RecvAction,
};
use log_ingest::CivilDateTime;

fn now() -> CivilDateTime {
    CivilDateTime { year: 2024, month: 3, day: 15, hour: 10, minute: 42, second: 7 }
}

#[test]
fn connection_errors_match_case_insensitively() {
    assert!(is_connection_error("Connection Refused by peer"));
    assert!(is_connection_error("error: CONNECTION RESET"));
    assert!(is_connection_error("Network Unreachable"));
    assert!(is_connection_error("read TIMEOUT after 5s"));
    assert!(is_connection_error("Broken Pipe (os error 32)"));
    assert!(is_connection_error("连接失败: 127.0.0.1:9092"));
    assert!(is_connection_error("检测到网络中断"));
    assert!(is_connection_error("模拟网络连接中断"));
}

#[test]
fn other_errors_are_transient() {
    assert!(!is_connection_error("disk full"));
    assert!(!is_connection_error(""));
    assert!(!is_connection_error("parse error at line 3"));
}

#[test]
fn endpoint_walk_reaches_the_third_endpoint() {
    // endpoints [bad, bad, good]
    let n = 3;
    let step1 = connect_step(0, false, n);
    assert_eq!(step1, ConnectOutcome::TryNext(1));
    let step2 = connect_step(1, false, n);
    assert_eq!(step2, ConnectOutcome::TryNext(2));
    let step3 = connect_step(2, true, n);
    assert_eq!(step3, ConnectOutcome::Connected(2));
}

#[test]
fn exhausting_all_endpoints_fails_the_session() {
    assert_eq!(connect_step(0, false, 1), ConnectOutcome::AllFailed);
    assert_eq!(connect_step(1, false, 2), ConnectOutcome::AllFailed);
}

#[test]
fn handled_message_is_planned_and_counted() {
    let r = handle_message(b"logs", br#"{"L":"WARN","S":"disk nearly full"}"#, &now(), 0);
    match r {
        MessageOutcome::Write { plan, messages_done, checkpoint } => {
            assert_eq!(plan.file, b"logs/2024/03/15/10.log".to_vec());
            assert_eq!(plan.line, b"[2024-03-15 10:42:07] [W] disk nearly full\n".to_vec());
            assert_eq!(messages_done, 1);
            assert!(!checkpoint);
        }
        other => panic!("expected a write, got {:?}", other),
    }
}

#[test]
fn every_hundredth_message_checkpoints() {
    let r = handle_message(b"logs", br#"{"L":"INFO","S":"x"}"#, &now(), 99);
    match r {
        MessageOutcome::Write { messages_done, checkpoint, .. } => {
            assert_eq!(messages_done, 100);
            assert!(checkpoint);
        }
        other => panic!("expected a write, got {:?}", other),
    }
}

#[test]
fn undecodable_message_is_skipped_not_fatal() {
    let r = handle_message(b"logs", br#"{"L":"INFO"}"#, &now(), 5);
    assert_eq!(r, MessageOutcome::Skip(DecodeError::MissingBody));
}

#[test]
fn receive_errors_classify_into_end_or_retry() {
    assert_eq!(receive_error_action("connection reset"), RecvAction::EndSession);
    assert_eq!(receive_error_action("odd hiccup"), RecvAction::RetryAfterMillis(1000));
}

#[test]
fn failed_sessions_reconnect_after_the_configured_interval() {
    assert_eq!(after_session(true, 5000), AfterSession::Stop);
    assert_eq!(after_session(false, 5000), AfterSession::ReconnectAfterMillis(5000));
}

#[test]
fn simulated_messages_decode_and_interruptions_classify() {
    let mut saw_ok = false;
    for _ in 0..200 {
        match simulate_kafka_message_reception() {
            Ok(Some(payload)) => {
                saw_ok = true;
                let (level, body) = decode_payload(&payload).unwrap();
                let name = String::from_utf8(level).unwrap();
                assert!(
                    ["TRACE", "DEBUG", "INFO", "WARN", "ERROR", "FATAL"]
                        .contains(&name.as_str())
                );
                assert!(!body.is_empty());
            }
            Ok(None) => panic!("the stub never hands back an empty poll"),
            Err(e) => {
                // a simulated interruption must classify as a connection
                // error, so the supervisor reconnects
                assert!(is_connection_error(e.message()));
            }
        }
    }
    assert!(saw_ok, "two hundred polls without one message");
}
