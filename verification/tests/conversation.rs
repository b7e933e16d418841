//! Orchestrator behaviour: turn alternation, the max-turns budget, and the
//! cancellation boundary.

use llm_repl::session::{FinishReason, Role, Session, SessionPhase, Speaker, TurnStart};
use llm_repl::signal::{is_stop_requested, reset_stop_flag, CancelFlag};

#[test]
fn first_prompt_renders_seed() {
    let s = Session::new(b"Be terse.".to_vec(), b"Say hi.".to_vec(), 2);
    assert_eq!(s.render_prompt(), b"system: Be terse.\n\nuser: Say hi.".to_vec());
}

#[test]
fn three_turns_then_max_turns_reached() {
    let mut s = Session::new(b"P".to_vec(), b"T".to_vec(), 3);
    let mut flag = CancelFlag::new();
    let responses: [&[u8]; 3] = [b"one", b"two", b"three"];
    for r in responses {
        match s.begin_turn(&mut flag) {
            TurnStart::Run(_) => {},
            TurnStart::Stop(_) => panic!("turn refused before the budget was spent"),
        }
        s.complete_turn(r.to_vec());
    }
    assert_eq!(s.turns_done(), 3);
    match s.begin_turn(&mut flag) {
        TurnStart::Stop(FinishReason::MaxTurnsReached) => {},
        _ => panic!("expected the turn budget to be spent"),
    }
    assert_eq!(s.phase(), SessionPhase::Finished(FinishReason::MaxTurnsReached));
    // Exactly three agent entries, strictly alternating, starting with agent A.
    let t = s.transcript();
    assert_eq!(t.len(), 5);
    assert_eq!(t[0].role, Role::System);
    assert_eq!(t[1].role, Role::User);
    assert_eq!(t[2].role, Role::Agent(Speaker::AgentA));
    assert_eq!(t[3].role, Role::Agent(Speaker::AgentB));
    assert_eq!(t[4].role, Role::Agent(Speaker::AgentA));
    assert_eq!(t[2].content, b"one".to_vec());
    assert_eq!(t[3].content, b"two".to_vec());
    assert_eq!(t[4].content, b"three".to_vec());
}

#[test]
fn prompt_grows_with_transcript() {
    let mut s = Session::new(b"P".to_vec(), b"T".to_vec(), 2);
    let mut flag = CancelFlag::new();
    match s.begin_turn(&mut flag) {
        TurnStart::Run(p) => assert_eq!(p, b"system: P\n\nuser: T".to_vec()),
        _ => panic!(),
    }
    s.complete_turn(b"hello".to_vec());
    match s.begin_turn(&mut flag) {
        TurnStart::Run(p) => {
            assert_eq!(p, b"system: P\n\nuser: T\n\nLLM_1: hello".to_vec());
        },
        _ => panic!(),
    }
}

#[test]
fn cancellation_spares_the_turn_in_flight() {
    let mut s = Session::new(b"P".to_vec(), b"T".to_vec(), 5);
    let mut flag = CancelFlag::new();
    match s.begin_turn(&mut flag) {
        TurnStart::Run(_) => {},
        _ => panic!(),
    }
    // The interrupt arrives while the provider call is in flight.
    flag.request_stop();
    s.complete_turn(b"finished anyway".to_vec());
    // The turn's response was appended all the same.
    assert_eq!(s.transcript().len(), 3);
    assert_eq!(s.transcript()[2].content, b"finished anyway".to_vec());
    // Only the next turn observes the stop.
    match s.begin_turn(&mut flag) {
        TurnStart::Stop(FinishReason::Cancelled) => {},
        _ => panic!("expected the session to end as cancelled"),
    }
    assert_eq!(s.phase(), SessionPhase::Finished(FinishReason::Cancelled));
    // The transcript was not touched and the flag was cleared for the next
    // session.
    assert_eq!(s.transcript().len(), 3);
    assert!(!is_stop_requested(&flag));
}

#[test]
fn failed_turn_discards_partial_text() {
    let mut s = Session::new(b"P".to_vec(), b"T".to_vec(), 4);
    let mut flag = CancelFlag::new();
    match s.begin_turn(&mut flag) {
        TurnStart::Run(_) => {},
        _ => panic!(),
    }
    s.fail_turn();
    assert_eq!(s.phase(), SessionPhase::Finished(FinishReason::Error));
    assert_eq!(s.transcript().len(), 2);
}

#[test]
fn zero_turn_budget_finishes_immediately() {
    let mut s = Session::new(b"P".to_vec(), b"T".to_vec(), 0);
    let mut flag = CancelFlag::new();
    match s.begin_turn(&mut flag) {
        TurnStart::Stop(FinishReason::MaxTurnsReached) => {},
        _ => panic!(),
    }
}

#[test]
fn speaker_accessor_alternates() {
    let mut s = Session::new(b"P".to_vec(), b"T".to_vec(), 2);
    let mut flag = CancelFlag::new();
    assert_eq!(s.current_speaker(), Speaker::AgentA);
    match s.begin_turn(&mut flag) {
        TurnStart::Run(_) => {},
        _ => panic!(),
    }
    s.complete_turn(b"a".to_vec());
    assert_eq!(s.current_speaker(), Speaker::AgentB);
    match s.begin_turn(&mut flag) {
        TurnStart::Run(_) => {},
        _ => panic!(),
    }
    s.complete_turn(b"b".to_vec());
    assert_eq!(s.current_speaker(), Speaker::AgentA);
}

#[test]
fn stop_flag_set_and_cleared() {
    let mut flag = CancelFlag::new();
    assert!(!is_stop_requested(&flag));
    flag.request_stop();
    assert!(is_stop_requested(&flag));
    reset_stop_flag(&mut flag);
    assert!(!is_stop_requested(&flag));
}
