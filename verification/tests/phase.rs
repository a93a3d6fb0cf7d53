use mysql_prepare::capabilities::{Capabilities, DEPRECATE_EOF};
use mysql_prepare::message::{PrepareOk, PrepareRequest, PrepareResponse, ServerError};
use mysql_prepare::phase::{Expect, PhaseTracker, ProtocolPhase};

fn every_phase() -> Vec<ProtocolPhase> {
    vec![
        ProtocolPhase::Idle,
        ProtocolPhase::AwaitingPrepareResponse,
        ProtocolPhase::AwaitingParameterDefinition { remaining: 2 },
        ProtocolPhase::AwaitingParameterTerminator,
        ProtocolPhase::AwaitingColumnDefinition { remaining: 9 },
        ProtocolPhase::AwaitingColumnTerminator,
        ProtocolPhase::Complete,
        ProtocolPhase::Failed,
    ]
}

#[test]
fn new_tracker_is_idle() {
    let tracker = PhaseTracker::new();
    assert_eq!(tracker.phase(), ProtocolPhase::Idle);
    assert!(!tracker.phase().is_in_flight());
    assert!(!tracker.phase().is_terminal());
}

#[test]
fn begin_awaits_the_response() {
    let mut tracker = PhaseTracker::new();
    tracker.begin();
    assert_eq!(tracker.phase(), ProtocolPhase::AwaitingPrepareResponse);
}

#[test]
fn record_replaces_the_phase_whole() {
    let mut tracker = PhaseTracker::new();
    for phase in every_phase() {
        tracker.record(phase);
        assert_eq!(tracker.phase(), phase);
    }
    tracker.record(ProtocolPhase::AwaitingParameterDefinition { remaining: 5 });
    tracker.record(ProtocolPhase::AwaitingColumnDefinition { remaining: 1 });
    assert_eq!(tracker.phase(), ProtocolPhase::AwaitingColumnDefinition { remaining: 1 });
    assert_eq!(tracker.phase().remaining_definitions(), 1);
}

#[test]
fn end_if_error_passes_success_through() {
    let mut tracker = PhaseTracker::new();
    tracker.begin();
    let ok =
        PrepareOk { statement_handle: 42, parameter_count: 3, column_count: 9, warning_count: 1 };
    let result = tracker.end_if_error(PrepareResponse::Success(ok));
    assert_eq!(result, Ok(ok));
    assert_eq!(tracker.phase(), ProtocolPhase::AwaitingPrepareResponse);
}

#[test]
fn end_if_error_fails_the_exchange_and_returns_the_error() {
    let mut tracker = PhaseTracker::new();
    tracker.begin();
    let error = ServerError { code: 1064, message: "syntax error".to_string() };
    let result = tracker.end_if_error(PrepareResponse::Error(error.clone()));
    assert_eq!(result, Err(error));
    assert_eq!(tracker.phase(), ProtocolPhase::Failed);
    assert!(tracker.phase().is_terminal());
}

#[test]
fn end_completes_the_exchange() {
    let mut tracker = PhaseTracker::new();
    tracker.begin();
    tracker.end();
    assert_eq!(tracker.phase(), ProtocolPhase::Complete);
    assert!(tracker.phase().is_terminal());
    assert!(!tracker.phase().is_in_flight());
}

#[test]
fn each_phase_names_its_packet() {
    let expected = [
        None,
        Some(Expect::PrepareResponse),
        Some(Expect::ParameterDefinition),
        Some(Expect::ParameterTerminator),
        Some(Expect::ColumnDefinition),
        Some(Expect::ColumnTerminator),
        None,
        None,
    ];
    for (phase, expect) in every_phase().iter().zip(expected) {
        assert_eq!(phase.expected(), expect);
        assert_eq!(phase.is_in_flight(), expect.is_some());
    }
}

#[test]
fn only_complete_and_failed_are_terminal() {
    let terminal: Vec<bool> = every_phase().iter().map(|phase| phase.is_terminal()).collect();
    assert_eq!(terminal, vec![false, false, false, false, false, false, true, true]);
}

#[test]
fn only_countdowns_have_definitions_remaining() {
    let remaining: Vec<u16> =
        every_phase().iter().map(|phase| phase.remaining_definitions()).collect();
    assert_eq!(remaining, vec![0, 0, 2, 0, 9, 0, 0, 0]);
    let full = ProtocolPhase::AwaitingParameterDefinition { remaining: u16::MAX };
    assert_eq!(full.remaining_definitions(), 65535);
}

#[test]
fn response_splits_into_a_result() {
    let ok =
        PrepareOk { statement_handle: 1, parameter_count: 2, column_count: 3, warning_count: 4 };
    assert_eq!(PrepareResponse::Success(ok).into_result(), Ok(ok));
    let error = ServerError { code: 1054, message: "Unknown column 'x'".to_string() };
    assert_eq!(PrepareResponse::Error(error.clone()).into_result(), Err(error));
}

#[test]
fn request_carries_the_sql_text() {
    let request = PrepareRequest::new("SELECT ?");
    assert_eq!(request.sql, "SELECT ?");
    assert_eq!(PrepareRequest::new("").sql, "");
}

#[test]
fn capabilities_answer_for_their_bits() {
    let none = Capabilities::from_bits(0);
    assert_eq!(none.bits(), 0);
    assert!(!none.omits_terminators());
    assert!(!none.contains(DEPRECATE_EOF));
    assert!(none.contains(0));

    let only = Capabilities::from_bits(DEPRECATE_EOF);
    assert_eq!(only.bits(), 0x0100_0000);
    assert!(only.omits_terminators());
    assert!(only.contains(DEPRECATE_EOF));
    assert!(!only.contains(DEPRECATE_EOF | 1));

    let mixed = Capabilities::from_bits(0x00ff_ffff);
    assert!(!mixed.omits_terminators());
    assert!(mixed.contains(0x0000_f00f));

    let all = Capabilities::from_bits(u64::MAX);
    assert!(all.omits_terminators());
    assert!(all.contains(DEPRECATE_EOF | 1));
}
