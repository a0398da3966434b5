use just_an_email::conversation::ConversationState;
use just_an_email::handlers::{
    create_session, get_message_raw, get_messages, lite_erase_session, lite_poll,
    lite_share_token_cancel, lite_share_token_new, post_message, save_public_key,
    CreateSessionRequest, GetMessageRawRequest, GetMessagesRequest, JwkInfo, LiteOutcome,
    LitePollRequest, LiteSessionRequest, LiteTokenOutcome, PostMessageRequest, SaveKeyOutcome,
};
use just_an_email::registry::Registry;
use just_an_email::tokens::{cancel_share_token, create_new_share_token};
use just_an_email::uploads::{
    choose_disk_filename, cli_check, commit_upload, original_file_name, plan_upload,
    quick_create_session, CliUploadCheck, UploadCheck, UploadFields,
};

fn seeded() -> (Registry, String, String) {
    let mut reg = Registry::new();
    let id = "c".repeat(32);
    let id2 = "d".repeat(32);
    let _ = create_session(
        &mut reg,
        &CreateSessionRequest { id: id.clone(), id2: id2.clone() },
    );
    (reg, id, id2)
}

#[test]
fn allocator_binds_fresh_tokens_both_ways() {
    let mut reg = Registry::new();
    let t1 = create_new_share_token(&mut reg, "session-one").expect("a token");
    assert!(t1 >= 100000);
    assert_eq!(reg.get_share_token(t1).map(|t| t.session_id), Some("session-one".to_string()));
    assert_eq!(reg.get_session_token("session-one"), Some(t1));

    let t2 = create_new_share_token(&mut reg, "session-two").expect("a token");
    assert_ne!(t1, t2, "a live token is never reissued");
    assert_eq!(reg.get_share_token(t2).map(|t| t.session_id), Some("session-two".to_string()));
}

#[test]
fn cancel_removes_both_directions() {
    let mut reg = Registry::new();
    let t = create_new_share_token(&mut reg, "session-one").expect("a token");
    assert!(cancel_share_token(&mut reg, "session-one"));
    assert!(reg.get_share_token(t).is_none());
    assert!(reg.get_session_token("session-one").is_none());
    assert!(!cancel_share_token(&mut reg, "session-one"));
}

#[test]
fn lite_poll_rejects_wrong_secret() {
    let (reg, id, _) = seeded();
    let out = lite_poll(
        &reg,
        &LitePollRequest { id, id2: "e".repeat(32), from: None },
    );
    assert!(!out.has_session);
    assert!(!out.has_token);
    assert!(out.token.is_none());
    assert!(out.messages.is_empty());
}

#[test]
fn lite_poll_reports_token_and_messages() {
    let (mut reg, id, id2) = seeded();
    let local = ConversationState::new();
    let _ = post_message(
        &mut reg,
        &local,
        PostMessageRequest {
            session_id: id.clone(),
            session_verification: None,
            socket_connection_id: None,
            encryption_public_key_alias: None,
            composer_text: "first".to_string(),
        },
    );
    let token = reg.get_session_token(&id).expect("token from creation");
    let out = lite_poll(&reg, &LitePollRequest { id, id2, from: None });
    assert!(out.has_session);
    assert!(out.has_token);
    assert_eq!(out.token.as_deref(), Some(just_an_email::text::format_token(token).as_str()));
    assert_eq!(out.messages.len(), 1);
    assert_eq!(out.messages[0].text, "first");
}

#[test]
fn lite_token_roundtrip() {
    let (mut reg, id, id2) = seeded();
    let _ = cancel_share_token(&mut reg, &id);
    let out = lite_share_token_new(
        &mut reg,
        &LiteSessionRequest { session_id: id.clone(), session_verification: id2.clone() },
    );
    match out {
        LiteTokenOutcome::Created(text) => assert!(text.len() >= 6),
        _ => panic!("expected a fresh token"),
    }
    let cancel = lite_share_token_cancel(
        &mut reg,
        &LiteSessionRequest { session_id: id.clone(), session_verification: id2 },
    );
    assert!(matches!(cancel, LiteOutcome::Done));
    assert!(reg.get_session_token(&id).is_none());
}

#[test]
fn a_second_lite_token_retires_the_first() {
    let (mut reg, id, id2) = seeded();
    let first = reg.get_session_token(&id).expect("token from creation");
    let out = lite_share_token_new(
        &mut reg,
        &LiteSessionRequest { session_id: id.clone(), session_verification: id2 },
    );
    let second = match out {
        LiteTokenOutcome::Created(_) => reg.get_session_token(&id).expect("fresh token"),
        _ => panic!("expected a fresh token"),
    };
    assert_ne!(first, second);
    assert!(
        reg.get_share_token(first).is_none(),
        "the session keeps exactly one live token"
    );
    assert_eq!(
        reg.get_share_token(second).map(|t| t.session_id),
        Some(id)
    );
}

#[test]
fn lite_erase_requires_the_secret() {
    let (mut reg, id, id2) = seeded();
    let local = ConversationState::new();
    let (bad, _) = lite_erase_session(
        &mut reg,
        &local,
        &LiteSessionRequest { session_id: id.clone(), session_verification: "x".to_string() },
    );
    assert!(matches!(bad, LiteOutcome::BadRequest));
    assert!(reg.get_session_by_id(&id).is_some());

    let (ok, _) = lite_erase_session(
        &mut reg,
        &local,
        &LiteSessionRequest { session_id: id.clone(), session_verification: id2 },
    );
    assert!(matches!(ok, LiteOutcome::Done));
    assert!(reg.get_session_by_id(&id).is_none());
}

#[test]
fn key_submission_checks_run_in_order() {
    let (mut reg, id, id2) = seeded();
    let good = JwkInfo { kty_rsa: true, has_n: true, has_e: true };

    let empty = save_public_key(
        &mut reg,
        &just_an_email::handlers::SaveKeyRequest {
            session_id: "".to_string(),
            session_verification: id2.clone(),
            alias: "main".to_string(),
            public_key: "{}".to_string(),
        },
        Some(JwkInfo { kty_rsa: true, has_n: true, has_e: true }),
    );
    assert!(matches!(empty, SaveKeyOutcome::EmptyField));

    let unparsed = save_public_key(
        &mut reg,
        &just_an_email::handlers::SaveKeyRequest {
            session_id: id.clone(),
            session_verification: id2.clone(),
            alias: "main".to_string(),
            public_key: "not json".to_string(),
        },
        None,
    );
    assert!(matches!(unparsed, SaveKeyOutcome::InvalidFormat));

    let not_rsa = save_public_key(
        &mut reg,
        &just_an_email::handlers::SaveKeyRequest {
            session_id: id.clone(),
            session_verification: id2.clone(),
            alias: "main".to_string(),
            public_key: "{}".to_string(),
        },
        Some(JwkInfo { kty_rsa: false, has_n: true, has_e: true }),
    );
    assert!(matches!(not_rsa, SaveKeyOutcome::InvalidKey));

    let wrong_secret = save_public_key(
        &mut reg,
        &just_an_email::handlers::SaveKeyRequest {
            session_id: id.clone(),
            session_verification: "f".repeat(32),
            alias: "main".to_string(),
            public_key: "{}".to_string(),
        },
        Some(JwkInfo { kty_rsa: true, has_n: true, has_e: true }),
    );
    assert!(matches!(wrong_secret, SaveKeyOutcome::NotFound));

    let saved = save_public_key(
        &mut reg,
        &just_an_email::handlers::SaveKeyRequest {
            session_id: id.clone(),
            session_verification: id2,
            alias: "main".to_string(),
            public_key: "{\"kty\":\"RSA\"}".to_string(),
        },
        Some(good),
    );
    match saved {
        SaveKeyOutcome::Saved(key_id) => {
            assert_eq!(key_id.len(), 32);
            let stored = reg.get_public_key_by_id(&key_id).expect("stored key");
            assert_eq!(stored.session_id, id);
            assert_eq!(stored.alias, "main");
        },
        _ => panic!("expected the key to land"),
    }
}

#[test]
fn raw_message_read_checks_the_session() {
    let (mut reg, id, _) = seeded();
    let local = ConversationState::new();
    let _ = post_message(
        &mut reg,
        &local,
        PostMessageRequest {
            session_id: id.clone(),
            session_verification: None,
            socket_connection_id: None,
            encryption_public_key_alias: None,
            composer_text: "payload".to_string(),
        },
    );
    let mid = reg.get_messages_by_session(&id, -1)[0].id.clone();

    let hit = get_message_raw(
        &reg,
        &GetMessageRawRequest { message_id: mid.clone(), session_id: id },
    );
    assert_eq!(hit.map(|r| r.content), Some("payload".to_string()));

    let miss = get_message_raw(
        &reg,
        &GetMessageRawRequest { message_id: mid, session_id: "other".to_string() },
    );
    assert!(miss.is_none());
}

#[test]
fn message_poll_returns_newest_first_past_cursor() {
    let (mut reg, id, id2) = seeded();
    let local = ConversationState::new();
    for text in ["one", "two", "three"] {
        let _ = post_message(
            &mut reg,
            &local,
            PostMessageRequest {
                session_id: id.clone(),
                session_verification: None,
                socket_connection_id: None,
                encryption_public_key_alias: None,
                composer_text: text.to_string(),
            },
        );
    }
    let all = get_messages(&reg, &GetMessagesRequest { id: id.clone(), id2, from: None });
    assert_eq!(all.len(), 3);
    assert_eq!(all[0].text, "three");
    assert_eq!(all[2].text, "one");

    let none = get_messages(
        &reg,
        &GetMessagesRequest { id, id2: "zz".to_string(), from: None },
    );
    assert!(none.is_empty());
}

#[test]
fn upload_checks_run_in_order() {
    let (reg, id, _) = seeded();
    assert!(matches!(plan_upload(&reg, &id, 900, 100), UploadCheck::TooLarge));
    assert!(matches!(plan_upload(&reg, "", 50, 100), UploadCheck::EmptySessionId));
    assert!(matches!(plan_upload(&reg, "nope", 50, 100), UploadCheck::MissingSession));
    match plan_upload(&reg, &id, 50, 100) {
        UploadCheck::Accepted(mid) => assert_eq!(mid.len(), 32),
        _ => panic!("expected the upload to pass"),
    }
}

#[test]
fn disk_names_splice_in_the_message_id() {
    let mid = "0123456789abcdef0123456789abcdef";
    assert_eq!(choose_disk_filename("report.pdf", mid, false, false), "report.pdf");
    assert_eq!(choose_disk_filename("report.pdf", mid, true, false), "report_012345.pdf");
    assert_eq!(choose_disk_filename("notes", mid, true, false), "notes_012345");
    assert_eq!(choose_disk_filename("archive.tar.gz", mid, true, false), "archive.tar_012345.gz");
    assert_eq!(choose_disk_filename(".hidden", mid, true, false), ".hidden_012345");
    assert_eq!(
        choose_disk_filename("whatever", mid, true, true),
        format!("{}.enc", mid)
    );
    assert_eq!(original_file_name("", "fallback.bin"), "fallback.bin");
    assert_eq!(original_file_name("typed name", "fallback.bin"), "typed name");
}

#[test]
fn upload_commit_lands_row_and_counters() {
    let (mut reg, id, _) = seeded();
    let local = ConversationState::new();
    let fields = UploadFields {
        session_id: id.clone(),
        session_verification: "".to_string(),
        socket_connection_id: "sock1".to_string(),
        encryption_public_key_alias: "".to_string(),
        composer_text: "".to_string(),
        file_name_from_field: "data.bin".to_string(),
    };
    let _ = commit_upload(
        &mut reg,
        &local,
        &fields,
        "0123456789abcdef0123456789abcdef".to_string(),
        "data.bin".to_string(),
        500,
    );
    let messages = reg.get_messages_by_session(&id, -1);
    assert_eq!(messages.len(), 1);
    let msg = &messages[0];
    assert_eq!(msg.text, "data.bin");
    assert_eq!(msg.file_name.as_deref(), Some("data.bin"));
    assert!(msg.has_file);
    assert_eq!(msg.file_size_bytes, Some(500));
    assert_eq!(msg.session_id_verification, None);
    assert_eq!(msg.socket_connection_id.as_deref(), Some("sock1"));

    let all_time = reg.stats_row(-1).expect("all-time bucket");
    assert_eq!(all_time.files, 1);
    assert_eq!(all_time.files_size_bytes, 500);
    assert_eq!(all_time.messages_size_bytes, 8);
}

#[test]
fn cli_uploads_need_a_connected_client() {
    let (mut reg, id, _) = seeded();
    assert!(matches!(cli_check(&reg, "nope"), CliUploadCheck::MissingSession));
    assert!(matches!(cli_check(&reg, &id), CliUploadCheck::NoClients));
    let mut local = ConversationState::new();
    let _ = just_an_email::conversation::connect(&mut reg, &mut local, &id, "dev1");
    match cli_check(&reg, &id) {
        CliUploadCheck::Accepted(mid) => assert_eq!(mid.len(), 32),
        _ => panic!("expected the upload to pass"),
    }
}

#[test]
fn quick_sessions_are_throwaway() {
    let mut reg = Registry::new();
    let (id, id2) = quick_create_session(&mut reg);
    assert_eq!(id.len(), 32);
    assert_eq!(id2.len(), 32);
    let session = reg.get_session_by_id(&id).expect("quick session");
    assert_eq!(session.id_verification, id2);
    assert!(!session.is_lite_session);
    assert!(session.connection_ids.is_empty());
    assert_eq!(reg.stats_row(-1).map(|s| s.sessions), Some(1));
}
