use secure_rpc::session::{CallOutcome, FailureKind, RpcSession, SendError, Target};

fn success(tag: u8) -> CallOutcome {
    CallOutcome::Success { content: vec![tag], caps: Vec::new() }
}

#[test]
fn call_ids_increase_from_zero() {
    let mut s = RpcSession::new();
    let a = s.send_call(Target::Bootstrap, 0, vec![1], vec![]).unwrap();
    let b = s.send_call(Target::Imported(3), 2, vec![2], vec![9]).unwrap();
    assert_eq!(a.call_id, 0);
    assert_eq!(b.call_id, 1);
    assert_eq!(b.target, Target::Imported(3));
    assert_eq!(b.method_id, 2);
    assert_eq!(b.params, vec![2]);
    assert_eq!(b.cap_table, vec![9]);
    assert_eq!(s.pending_count(), 2);
    assert!(s.is_pending(0) && s.is_pending(1) && !s.is_pending(2));
}

#[test]
fn response_reaches_its_own_call() {
    let mut s = RpcSession::new();
    s.send_call(Target::Bootstrap, 0, vec![], vec![]).unwrap();
    s.send_call(Target::Bootstrap, 0, vec![], vec![]).unwrap();
    let c = s.receive_return(1, success(1)).unwrap();
    assert_eq!(c.call_id, 1);
    assert!(matches!(c.outcome, CallOutcome::Success { ref content, .. } if content == &vec![1]));
    assert!(s.is_pending(0));
    assert!(!s.is_pending(1));
}

#[test]
fn hundred_concurrent_calls_each_answered_once() {
    let mut s = RpcSession::new();
    let mut ids = Vec::new();
    for i in 0..100u32 {
        let f = s.send_call(Target::Bootstrap, 0, i.to_le_bytes().to_vec(), vec![]).unwrap();
        assert!(!ids.contains(&f.call_id));
        ids.push(f.call_id);
    }
    assert_eq!(s.pending_count(), 100);
    for (k, id) in ids.iter().enumerate().rev() {
        let c = s.receive_return(*id, success(k as u8)).unwrap();
        assert_eq!(c.call_id, *id);
        assert!(matches!(c.outcome, CallOutcome::Success { ref content, .. } if content == &vec![k as u8]));
        assert!(s.receive_return(*id, success(0)).is_none());
    }
    assert_eq!(s.pending_count(), 0);
}

#[test]
fn unknown_response_is_discarded() {
    let mut s = RpcSession::new();
    s.send_call(Target::Bootstrap, 0, vec![], vec![]).unwrap();
    assert!(s.receive_return(5, success(0)).is_none());
    assert_eq!(s.pending_count(), 1);
}

#[test]
fn cancelled_call_discards_its_response() {
    let mut s = RpcSession::new();
    s.send_call(Target::Bootstrap, 0, vec![], vec![]).unwrap();
    assert!(s.cancel(0));
    assert!(!s.cancel(0));
    assert!(s.receive_return(0, success(0)).is_none());
}

#[test]
fn pipelined_call_needs_a_call_in_flight() {
    let mut s = RpcSession::new();
    assert_eq!(s.send_call(Target::PromisedAnswer(0, 0), 0, vec![], vec![]).unwrap_err(), SendError::UnknownPromise(0));
    s.send_call(Target::Bootstrap, 0, vec![], vec![]).unwrap();
    let p = s.send_call(Target::PromisedAnswer(0, 1), 0, vec![], vec![]).unwrap();
    assert_eq!(p.call_id, 1);
    assert_eq!(p.target, Target::PromisedAnswer(0, 1));
}

#[test]
fn disconnect_fails_calls_in_flight_in_order() {
    let mut s = RpcSession::new();
    for _ in 0..3 {
        s.send_call(Target::Bootstrap, 0, vec![], vec![]).unwrap();
    }
    s.receive_return(1, success(0)).unwrap();
    let failed = s.disconnect();
    assert_eq!(failed.iter().map(|c| c.call_id).collect::<Vec<u64>>(), vec![0, 2]);
    for c in &failed {
        match &c.outcome {
            CallOutcome::Failure { kind, message } => {
                assert_eq!(*kind, FailureKind::Disconnected);
                assert_eq!(message, "connection closed");
            }
            _ => panic!("expected a failure"),
        }
    }
    assert!(!s.is_open());
    assert_eq!(s.pending_count(), 0);
}

#[test]
fn disconnect_twice_is_disconnect_once() {
    let mut s = RpcSession::new();
    s.send_call(Target::Bootstrap, 0, vec![], vec![]).unwrap();
    assert_eq!(s.disconnect().len(), 1);
    assert!(s.disconnect().is_empty());
    assert!(!s.is_open());
    assert_eq!(s.pending_count(), 0);
}

#[test]
fn no_call_after_disconnect() {
    let mut s = RpcSession::new();
    s.disconnect();
    assert_eq!(s.send_call(Target::Bootstrap, 0, vec![], vec![]).unwrap_err(), SendError::Closed);
}
