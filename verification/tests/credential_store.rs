use mnotify::credential::{decode_credential, encode_credential, SessionCredential, StoreError};
use mnotify::store::{
    cleanup_report, file_record, load_record, newline_terminated, owner_only_mode,
    persist_file_plan, secret_manager_record, select_backend, session_file_path, session_rel_path,
    state_db_rel_path, Backend, FileWriteStep,
};

fn sample() -> SessionCredential {
    SessionCredential {
        user_id: String::from("@alice:example.org"),
        device_id: String::from("DEVICEID"),
        access_token: String::from("tok_secret_123"),
        refresh_token: None,
    }
}

fn sample_with_refresh() -> SessionCredential {
    SessionCredential {
        user_id: String::from("@bob:example.org"),
        device_id: String::from("D2"),
        access_token: String::from("t2"),
        refresh_token: Some(String::from("r2")),
    }
}

#[test]
fn encode_exact_record_text() {
    let c = SessionCredential {
        user_id: String::from("@a:x"),
        device_id: String::from("D"),
        access_token: String::from("T"),
        refresh_token: None,
    };
    let r = encode_credential(&c);
    assert_eq!(r, "0000000000000004@a:x0000000000000001D0000000000000001T-");
}

#[test]
fn encode_exact_record_text_with_refresh() {
    let c = SessionCredential {
        user_id: String::from("@a:x"),
        device_id: String::from("D"),
        access_token: String::from("T"),
        refresh_token: Some(String::from("RR")),
    };
    let r = encode_credential(&c);
    assert_eq!(
        r,
        "0000000000000004@a:x0000000000000001D0000000000000001T+0000000000000002RR"
    );
}

#[test]
fn round_trip_plain() {
    let c = sample();
    let r = encode_credential(&c);
    assert_eq!(decode_credential(&r), Ok(c));
}

#[test]
fn round_trip_with_refresh() {
    let c = sample_with_refresh();
    let r = encode_credential(&c);
    assert_eq!(decode_credential(&r), Ok(c));
}

#[test]
fn round_trip_file_record_both_backends() {
    // The file backend stores the newline-terminated form, the secret
    // manager the bare form; both load back to the same credential.
    let c = sample();
    let f = file_record(&c);
    assert!(f.ends_with('\n'));
    assert_eq!(load_record(&f), Ok(c.clone()));
    let k = secret_manager_record(&c);
    assert_eq!(load_record(&k), Ok(c));
}

#[test]
fn round_trip_empty_fields() {
    let c = SessionCredential {
        user_id: String::new(),
        device_id: String::new(),
        access_token: String::new(),
        refresh_token: Some(String::new()),
    };
    let r = encode_credential(&c);
    assert_eq!(decode_credential(&r), Ok(c));
}

#[test]
fn round_trip_field_containing_newline_and_separators() {
    let c = SessionCredential {
        user_id: String::from("@x:y\n+-"),
        device_id: String::from("0000000000000001"),
        access_token: String::from("a+b-c\nd"),
        refresh_token: None,
    };
    let r = encode_credential(&c);
    assert_eq!(decode_credential(&r), Ok(c));
}

#[test]
fn decode_rejects_corrupt_records() {
    assert_eq!(decode_credential(""), Err(StoreError::Corrupt));
    assert_eq!(decode_credential("not a record"), Err(StoreError::Corrupt));
    // Too short a length prefix.
    assert_eq!(decode_credential("0001x"), Err(StoreError::Corrupt));
    // Upper-case hex digits are not accepted.
    assert_eq!(
        decode_credential("000000000000000Ax0000000000000001D0000000000000001T-"),
        Err(StoreError::Corrupt)
    );
    // Field length running past the end.
    assert_eq!(decode_credential("0000000000000009ab"), Err(StoreError::Corrupt));
    // Bad tag where `-` or `+` belongs.
    assert_eq!(
        decode_credential("0000000000000001u0000000000000001d0000000000000001t*"),
        Err(StoreError::Corrupt)
    );
    // Trailing garbage after a well-formed record.
    let mut r = encode_credential(&sample());
    r.push_str("xx");
    assert_eq!(decode_credential(&r), Err(StoreError::Corrupt));
    // Two trailing newlines: only one is tolerated.
    let mut f = file_record(&sample());
    f.push('\n');
    assert_eq!(decode_credential(&f), Err(StoreError::Corrupt));
}

#[test]
fn newline_termination() {
    assert_eq!(newline_terminated(String::from("abc")), "abc\n");
    assert_eq!(newline_terminated(String::from("abc\n")), "abc\n");
    assert_eq!(newline_terminated(String::new()), "\n");
}

#[test]
fn record_paths() {
    assert_eq!(session_rel_path("@alice:example.org"), "@alice:example.org/session.json");
    assert_eq!(state_db_rel_path("@alice:example.org"), "@alice:example.org/state.sled");
    assert_eq!(
        session_file_path(None, "/home/u/.local/state/mnotify", "@a:x"),
        "/home/u/.local/state/mnotify/@a:x/session.json"
    );
    assert_eq!(
        session_file_path(Some(String::from("/tmp/override.json")), "/anything", "@a:x"),
        "/tmp/override.json"
    );
}

#[test]
fn backend_selection_is_explicit() {
    assert_eq!(select_backend(true), Backend::File);
    assert_eq!(select_backend(false), Backend::SecretManager);
}

#[test]
fn persist_plan_writes_then_restricts_mode() {
    let c = sample();
    let plan = persist_file_plan(&c);
    assert_eq!(plan.len(), 2);
    match &plan[0] {
        FileWriteStep::WriteFull { content } => assert_eq!(content, &file_record(&c)),
        _ => panic!("first step must write the record"),
    }
    match &plan[1] {
        FileWriteStep::SetMode { mode } => assert_eq!(*mode, 0o600),
        _ => panic!("second step must restrict the mode"),
    }
    assert_eq!(owner_only_mode(), 0o600);
}

#[test]
fn cleanup_collects_all_failures_in_order() {
    let msgs = cleanup_report(
        Some(String::from("delete session: denied")),
        None,
        Some(String::from("delete meta: missing")),
    );
    assert_eq!(msgs, vec![
        String::from("delete session: denied"),
        String::from("delete meta: missing"),
    ]);
    assert_eq!(cleanup_report(None, None, None), Vec::<String>::new());
}

#[test]
fn store_error_describes_itself() {
    assert_eq!(StoreError::Corrupt.describe(), "stored record does not decode");
    let e = StoreError::Backend { message: String::from("no such file") };
    assert_eq!(e.describe(), "no such file");
}
