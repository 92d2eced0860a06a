use mnotify::sas::{
    code_line, resolve_code, SasAction, SasEvent, SasMachine, SasPhase, ShortAuthCode,
};
use mnotify::shim::{surface_worker_outcome, ShimError};

fn requested(user: &str, device: &str) -> SasEvent {
    SasEvent::Requested { peer_user: String::from(user), peer_device: String::from(device) }
}

fn started(user: &str, device: &str) -> SasEvent {
    SasEvent::Started { peer_user: String::from(user), peer_device: String::from(device) }
}

fn keys_with_emojis() -> SasEvent {
    SasEvent::KeysExchanged {
        emojis: Some(vec![String::from("Dog"), String::from("Cat"), String::from("Lion")]),
        first: 1111,
        second: 2222,
        third: 3333,
    }
}

fn emoji_code() -> ShortAuthCode {
    ShortAuthCode::Emoji {
        symbols: vec![String::from("Dog"), String::from("Cat"), String::from("Lion")],
    }
}

#[test]
fn positive_ceremony_confirms_once_and_reaches_done() {
    let mut m = SasMachine::new();
    let tx = "txn-1";

    let a = m.handle_event(String::from(tx), requested("@peer:x", "DEV"));
    assert_eq!(a, vec![SasAction::AcceptRequest]);
    assert_eq!(m.phase_of(tx), Some(SasPhase::Requested));

    let a = m.handle_event(String::from(tx), started("@peer:x", "DEV"));
    assert_eq!(a, vec![SasAction::AcceptStart]);
    assert_eq!(m.phase_of(tx), Some(SasPhase::Started));

    let a = m.handle_event(String::from(tx), keys_with_emojis());
    assert_eq!(a, vec![SasAction::PromptConfirm { code: emoji_code() }]);
    assert_eq!(m.phase_of(tx), Some(SasPhase::KeysExchanged));

    let a = m.handle_event(String::from(tx), SasEvent::HumanDecision { confirmed: Some(true) });
    assert_eq!(a, vec![SasAction::Confirm]);
    assert_eq!(m.phase_of(tx), Some(SasPhase::Confirmed));

    let a = m.handle_event(String::from(tx), SasEvent::Done);
    assert_eq!(
        a,
        vec![SasAction::ReportVerified {
            peer_user: String::from("@peer:x"),
            peer_device: String::from("DEV"),
        }]
    );
    assert_eq!(m.phase_of(tx), None);
    assert_eq!(m.active_count(), 0);
}

#[test]
fn negative_answer_cancels_once_and_terminates() {
    let mut m = SasMachine::new();
    let tx = "txn-2";
    m.handle_event(String::from(tx), requested("@peer:x", "DEV"));
    m.handle_event(String::from(tx), started("@peer:x", "DEV"));
    m.handle_event(String::from(tx), keys_with_emojis());
    let a = m.handle_event(String::from(tx), SasEvent::HumanDecision { confirmed: Some(false) });
    assert_eq!(a, vec![SasAction::Cancel]);
    assert_eq!(m.phase_of(tx), None);
    assert_eq!(m.active_count(), 0);
}

#[test]
fn failed_prompt_counts_as_negative_answer() {
    let mut m = SasMachine::new();
    let tx = "txn-3";
    m.handle_event(String::from(tx), requested("@peer:x", "DEV"));
    m.handle_event(String::from(tx), started("@peer:x", "DEV"));
    m.handle_event(String::from(tx), keys_with_emojis());
    let a = m.handle_event(String::from(tx), SasEvent::HumanDecision { confirmed: None });
    assert_eq!(a, vec![SasAction::Cancel]);
    assert_eq!(m.phase_of(tx), None);
}

#[test]
fn peer_cancellation_terminates_without_prompt() {
    let mut m = SasMachine::new();
    let tx = "txn-4";
    let a = m.handle_event(String::from(tx), requested("@peer:x", "DEV"));
    assert_eq!(a, vec![SasAction::AcceptRequest]);
    let a = m.handle_event(
        String::from(tx),
        SasEvent::Cancelled { reason: String::from("user rejected") },
    );
    assert_eq!(a, vec![SasAction::ReportCancelled { reason: String::from("user rejected") }]);
    assert_eq!(m.phase_of(tx), None);
    assert_eq!(m.active_count(), 0);
}

#[test]
fn interleaved_ceremonies_are_independent() {
    let mut m = SasMachine::new();
    let t1 = "txn-a";
    let t2 = "txn-b";
    m.handle_event(String::from(t1), requested("@p1:x", "D1"));
    m.handle_event(String::from(t2), requested("@p2:x", "D2"));
    m.handle_event(String::from(t1), started("@p1:x", "D1"));
    m.handle_event(String::from(t2), started("@p2:x", "D2"));
    m.handle_event(String::from(t1), keys_with_emojis());
    assert_eq!(m.phase_of(t1), Some(SasPhase::KeysExchanged));
    assert_eq!(m.phase_of(t2), Some(SasPhase::Started));

    // The second ceremony is cancelled by its peer; the first goes on to
    // a confirmed completion, untouched by the interleaving.
    let a = m.handle_event(
        String::from(t2),
        SasEvent::Cancelled { reason: String::from("mismatch") },
    );
    assert_eq!(a, vec![SasAction::ReportCancelled { reason: String::from("mismatch") }]);
    assert_eq!(m.phase_of(t2), None);
    assert_eq!(m.phase_of(t1), Some(SasPhase::KeysExchanged));

    m.handle_event(String::from(t1), SasEvent::HumanDecision { confirmed: Some(true) });
    let a = m.handle_event(String::from(t1), SasEvent::Done);
    assert_eq!(
        a,
        vec![SasAction::ReportVerified {
            peer_user: String::from("@p1:x"),
            peer_device: String::from("D1"),
        }]
    );
    assert_eq!(m.active_count(), 0);
}

#[test]
fn passive_and_duplicate_events_are_ignored() {
    let mut m = SasMachine::new();
    let tx = "txn-5";
    m.handle_event(String::from(tx), requested("@p:x", "D"));
    // A second request for the same ceremony accepts nothing again.
    let a = m.handle_event(String::from(tx), requested("@p:x", "D"));
    assert_eq!(a, Vec::new());
    // Transitional notifications have no effect.
    let a = m.handle_event(String::from(tx), SasEvent::Passive);
    assert_eq!(a, Vec::new());
    assert_eq!(m.phase_of(tx), Some(SasPhase::Requested));
    // Events for a transaction nobody tracks are ignored.
    let a = m.handle_event(String::from("other"), SasEvent::Done);
    assert_eq!(a, Vec::new());
    assert_eq!(m.active_count(), 1);
}

#[test]
fn start_can_open_a_ceremony_directly() {
    let mut m = SasMachine::new();
    let tx = "txn-6";
    let a = m.handle_event(String::from(tx), started("@p:x", "D"));
    assert_eq!(a, vec![SasAction::AcceptStart]);
    assert_eq!(m.phase_of(tx), Some(SasPhase::Started));
}

#[test]
fn decimals_are_used_when_no_emojis_come() {
    let code = resolve_code(None, 1234, 5678, 9012);
    assert_eq!(code, ShortAuthCode::Decimals { first: 1234, second: 5678, third: 9012 });
    assert_eq!(code_line(&code), "1234-5678-9012");
}

#[test]
fn emoji_line_joins_symbols() {
    assert_eq!(code_line(&emoji_code()), "Dog Cat Lion");
    let one = ShortAuthCode::Emoji { symbols: vec![String::from("Dog")] };
    assert_eq!(code_line(&one), "Dog");
    let none = ShortAuthCode::Emoji { symbols: Vec::new() };
    assert_eq!(code_line(&none), "");
}

#[test]
fn emoji_form_is_preferred_for_display() {
    let code = resolve_code(Some(vec![String::from("Dog")]), 1, 2, 3);
    assert_eq!(code, ShortAuthCode::Emoji { symbols: vec![String::from("Dog")] });
}

#[test]
fn worker_error_surfaces_to_the_caller() {
    let slot: Option<Result<String, String>> = Some(Err(String::from("platform failure")));
    assert_eq!(
        surface_worker_outcome(slot),
        Err(ShimError::Backend { error: String::from("platform failure") })
    );
}

#[test]
fn worker_value_surfaces_unchanged() {
    let slot: Option<Result<String, String>> = Some(Ok(String::from("the secret")));
    assert_eq!(surface_worker_outcome(slot), Ok(String::from("the secret")));
}

#[test]
fn vanished_worker_is_reported_not_panicked() {
    let slot: Option<Result<String, String>> = None;
    assert_eq!(surface_worker_outcome(slot), Err(ShimError::WorkerVanished));
}
