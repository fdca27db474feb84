use secure_rpc::answers::{Action, AnswerTable, LocalCap, ProtocolError};
use secure_rpc::session::{CallFrame, CallOutcome, FailureKind, Target};

fn frame(call_id: u64, target: Target) -> CallFrame {
    CallFrame { call_id, target, method_id: 0, params: vec![call_id as u8], cap_table: Vec::new() }
}

fn dispatched(a: &Action) -> Option<(u64, LocalCap)> {
    match a {
        Action::Dispatch { frame, cap } => Some((frame.call_id, *cap)),
        _ => None,
    }
}

#[test]
fn direct_calls_are_dispatched() {
    let mut t = AnswerTable::new();
    let a = t.on_call(frame(0, Target::Bootstrap)).unwrap();
    assert_eq!(dispatched(&a), Some((0, LocalCap::Bootstrap)));
    let b = t.on_call(frame(1, Target::Imported(4))).unwrap();
    assert_eq!(dispatched(&b), Some((1, LocalCap::Export(4))));
    assert!(t.is_running(0) && t.is_running(1));
}

#[test]
fn reused_call_id_is_a_protocol_error() {
    let mut t = AnswerTable::new();
    t.on_call(frame(0, Target::Bootstrap)).unwrap();
    assert_eq!(t.on_call(frame(0, Target::Bootstrap)).unwrap_err(), ProtocolError::DuplicateCallId(0));
}

#[test]
fn promise_on_unknown_call_is_a_protocol_error() {
    let mut t = AnswerTable::new();
    assert_eq!(t.on_call(frame(1, Target::PromisedAnswer(9, 0))).unwrap_err(), ProtocolError::UnknownPromise(9));
    assert!(!t.is_running(1));
}

#[test]
fn pipelined_call_runs_once_its_dependency_returns() {
    let mut t = AnswerTable::new();
    t.on_call(frame(0, Target::Bootstrap)).unwrap();
    assert!(matches!(t.on_call(frame(1, Target::PromisedAnswer(0, 1))).unwrap(), Action::Hold));
    assert!(matches!(t.on_call(frame(2, Target::PromisedAnswer(0, 0))).unwrap(), Action::Hold));
    assert_eq!(t.held_count(), 2);
    let released = t.on_return(0, CallOutcome::Success { content: vec![], caps: vec![10, 11] }).unwrap();
    assert_eq!(released.len(), 2);
    assert_eq!(dispatched(&released[0]), Some((1, LocalCap::Export(11))));
    assert_eq!(dispatched(&released[1]), Some((2, LocalCap::Export(10))));
    assert_eq!(t.held_count(), 0);
    assert!(!t.is_running(0));
    assert!(t.is_running(1) && t.is_running(2));
}

#[test]
fn only_calls_held_on_the_returning_call_are_released() {
    let mut t = AnswerTable::new();
    t.on_call(frame(0, Target::Bootstrap)).unwrap();
    t.on_call(frame(1, Target::Bootstrap)).unwrap();
    t.on_call(frame(2, Target::PromisedAnswer(1, 0))).unwrap();
    t.on_call(frame(3, Target::PromisedAnswer(0, 0))).unwrap();
    let released = t.on_return(0, CallOutcome::Success { content: vec![], caps: vec![5] }).unwrap();
    assert_eq!(released.len(), 1);
    assert_eq!(dispatched(&released[0]), Some((3, LocalCap::Export(5))));
    assert_eq!(t.held_count(), 1);
}

#[test]
fn pipelined_call_on_a_returned_call_resolves_at_once() {
    let mut t = AnswerTable::new();
    t.on_call(frame(0, Target::Bootstrap)).unwrap();
    t.on_return(0, CallOutcome::Success { content: vec![], caps: vec![6] }).unwrap();
    let a = t.on_call(frame(1, Target::PromisedAnswer(0, 0))).unwrap();
    assert_eq!(dispatched(&a), Some((1, LocalCap::Export(6))));
}

#[test]
fn missing_capability_in_result_fails_the_pipelined_call() {
    let mut t = AnswerTable::new();
    t.on_call(frame(0, Target::Bootstrap)).unwrap();
    t.on_call(frame(1, Target::PromisedAnswer(0, 3))).unwrap();
    let released = t.on_return(0, CallOutcome::Success { content: vec![], caps: vec![1] }).unwrap();
    assert!(matches!(released[0], Action::Fail { call_id: 1, kind: FailureKind::Failed }));
}

#[test]
fn failure_passes_to_pipelined_calls() {
    let mut t = AnswerTable::new();
    t.on_call(frame(0, Target::Bootstrap)).unwrap();
    t.on_call(frame(1, Target::PromisedAnswer(0, 0))).unwrap();
    let failure = CallOutcome::Failure { kind: FailureKind::Unimplemented, message: "no".to_string() };
    let released = t.on_return(0, failure).unwrap();
    assert!(matches!(released[0], Action::Fail { call_id: 1, kind: FailureKind::Unimplemented }));
}

#[test]
fn outcome_for_a_call_not_running_is_a_protocol_error() {
    let mut t = AnswerTable::new();
    assert_eq!(t.on_return(4, CallOutcome::Success { content: vec![], caps: vec![] }).unwrap_err(), ProtocolError::NotRunning(4));
    t.on_call(frame(4, Target::Bootstrap)).unwrap();
    t.on_return(4, CallOutcome::Success { content: vec![], caps: vec![] }).unwrap();
    assert_eq!(t.on_return(4, CallOutcome::Success { content: vec![], caps: vec![] }).unwrap_err(), ProtocolError::NotRunning(4));
}

#[test]
fn finish_forgets_only_returned_calls() {
    let mut t = AnswerTable::new();
    t.on_call(frame(0, Target::Bootstrap)).unwrap();
    assert!(!t.finish(0));
    t.on_return(0, CallOutcome::Success { content: vec![], caps: vec![] }).unwrap();
    assert!(t.finish(0));
    assert!(!t.finish(0));
    assert_eq!(t.on_call(frame(1, Target::PromisedAnswer(0, 0))).unwrap_err(), ProtocolError::UnknownPromise(0));
    assert!(t.on_call(frame(0, Target::Bootstrap)).is_ok());
}
