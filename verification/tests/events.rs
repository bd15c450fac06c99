use kaku::agent_status::events::{SessionStatus, SessionStatusConfidence, SessionStatusSource};

#[test]
fn parse_storage_status_aliases() {
    assert_eq!(SessionStatus::parse_storage("idle"), Some(SessionStatus::Idle));
    assert_eq!(
        SessionStatus::parse_storage("need-approve"),
        Some(SessionStatus::NeedApprove)
    );
    assert_eq!(
        SessionStatus::parse_storage("needapprove"),
        Some(SessionStatus::NeedApprove)
    );
    assert_eq!(SessionStatus::parse_storage("unknown"), None);
}

#[test]
fn parse_storage_source_and_confidence() {
    assert_eq!(
        SessionStatusSource::parse_storage("structured"),
        Some(SessionStatusSource::Structured)
    );
    assert_eq!(
        SessionStatusSource::parse_storage("heuristic"),
        Some(SessionStatusSource::Heuristic)
    );
    assert_eq!(
        SessionStatusConfidence::parse_storage("high"),
        Some(SessionStatusConfidence::High)
    );
    assert_eq!(
        SessionStatusConfidence::parse_storage("low"),
        Some(SessionStatusConfidence::Low)
    );
    assert_eq!(SessionStatusSource::parse_storage("x"), None);
    assert_eq!(SessionStatusConfidence::parse_storage("x"), None);
}
