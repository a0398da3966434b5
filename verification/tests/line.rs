use just_an_email::protocol::SecureLineNotification;
use just_an_email::registry::Registry;
use just_an_email::secure_line::{
    get_line_message, line_broadcast, line_call_peer, line_disconnect, line_init,
    post_line_message, GetMessageQuery, LineMessageOutcome, PostMessageRequest, SecureLineState,
};

#[test]
fn a_line_pairs_exactly_two_devices() {
    let mut reg = Registry::new();
    let mut line = SecureLineState::new();

    let first = line_init(&mut reg, &mut line, "line1", "dev1");
    assert!(first.joined);
    assert!(first.start.is_empty());
    assert!(first.key_exchange.is_empty());

    let second = line_init(&mut reg, &mut line, "line1", "dev2");
    assert!(second.joined);
    let start_targets: Vec<&str> = second.start.iter().map(|d| d.to.as_str()).collect();
    assert_eq!(start_targets, vec!["dev1", "dev2"]);
    assert_eq!(second.key_exchange.len(), 2);
    match (&second.key_exchange[0].event, &second.key_exchange[1].event) {
        (
            SecureLineNotification::StartKeyExchange { peer_id: p1, pka: k1, initiate: i1 },
            SecureLineNotification::StartKeyExchange { peer_id: p2, pka: k2, initiate: i2 },
        ) => {
            assert_eq!(second.key_exchange[0].to, "dev1");
            assert_eq!(p1, "dev2");
            assert!(!i1);
            assert_eq!(second.key_exchange[1].to, "dev2");
            assert_eq!(p2, "dev1");
            assert!(*i2);
            assert_eq!(k1, k2);
        },
        _ => panic!("expected the key exchange pair"),
    }
    let all_time = reg.stats_row(-1).expect("all-time bucket");
    assert_eq!(all_time.messages, 2);
    assert_eq!(all_time.devices, 1);

    let third = line_init(&mut reg, &mut line, "line1", "dev3");
    assert!(!third.joined, "a full line refuses silently");
    assert!(third.start.is_empty());
}

#[test]
fn line_broadcast_excludes_the_sender_by_default() {
    let mut reg = Registry::new();
    let mut line = SecureLineState::new();
    let _ = line_init(&mut reg, &mut line, "line1", "dev1");
    let _ = line_init(&mut reg, &mut line, "line1", "dev2");

    let bound = Some("line1".to_string());
    let out = line_broadcast(
        &mut reg,
        &line,
        "dev1",
        bound.as_ref(),
        "Blob".to_string(),
        Some("abcd".to_string()),
        None,
    );
    assert_eq!(out.len(), 1);
    assert_eq!(out[0].to, "dev2");
    assert!(matches!(
        &out[0].event,
        SecureLineNotification::Broadcast { event, data }
            if event == "Blob" && data.as_deref() == Some("abcd")
    ));

    let everyone = line_broadcast(
        &mut reg,
        &line,
        "dev1",
        bound.as_ref(),
        "Blob".to_string(),
        None,
        Some(true),
    );
    assert_eq!(everyone.len(), 2);
}

#[test]
fn line_broadcast_counts_the_payload_once() {
    let mut reg = Registry::new();
    let mut line = SecureLineState::new();
    let _ = line_init(&mut reg, &mut line, "line1", "dev1");
    let bound = Some("line1".to_string());
    let _ = line_broadcast(
        &mut reg,
        &line,
        "dev1",
        bound.as_ref(),
        "Blob".to_string(),
        Some("abcd".to_string()),
        None,
    );
    let all_time = reg.stats_row(-1).expect("all-time bucket");
    assert_eq!(all_time.messages, 1);
    assert_eq!(all_time.messages_size_bytes, 8);
}

#[test]
fn line_call_peer_reaches_the_other_device() {
    let mut reg = Registry::new();
    let mut line = SecureLineState::new();
    let _ = line_init(&mut reg, &mut line, "line1", "dev1");
    let _ = line_init(&mut reg, &mut line, "line1", "dev2");

    let bound = Some("line1".to_string());
    let out = line_call_peer(
        &mut reg,
        &line,
        "dev2",
        bound.as_ref(),
        "offer".to_string(),
        "{}".to_string(),
    );
    assert_eq!(out.len(), 1);
    assert_eq!(out[0].to, "dev1");
    assert!(matches!(
        &out[0].event,
        SecureLineNotification::Callback { method, data } if method == "offer" && data == "{}"
    ));
}

#[test]
fn line_disconnect_waves_goodbye() {
    let mut reg = Registry::new();
    let mut line = SecureLineState::new();
    let _ = line_init(&mut reg, &mut line, "line1", "dev1");
    let _ = line_init(&mut reg, &mut line, "line1", "dev2");

    let bound = Some("line1".to_string());
    let out = line_disconnect(&mut line, "dev2", bound.as_ref());
    assert_eq!(out.len(), 1);
    assert_eq!(out[0].to, "dev1");
    assert!(matches!(
        &out[0].event,
        SecureLineNotification::Broadcast { event, data }
            if event == "GONE" && data.as_deref() == Some("")
    ));

    // the slot is free again
    let rejoin = line_init(&mut reg, &mut line, "line1", "dev3");
    assert!(rejoin.joined);
}

#[test]
fn handoff_messages_are_one_shot() {
    let mut line = SecureLineState::new();
    let posted = post_line_message(
        &mut line,
        &PostMessageRequest { id: Some("k1".to_string()), data: Some("payload".to_string()) },
    );
    match posted {
        LineMessageOutcome::Created(echoed) => assert_eq!(echoed, "k1"),
        _ => panic!("expected the payload to land"),
    }
    let first = get_line_message(&mut line, &GetMessageQuery { id: "k1".to_string() });
    assert_eq!(first.as_deref(), Some("payload"));
    let second = get_line_message(&mut line, &GetMessageQuery { id: "k1".to_string() });
    assert!(second.is_none());
}

#[test]
fn handoff_rejects_empty_fields() {
    let mut line = SecureLineState::new();
    let no_id = post_line_message(
        &mut line,
        &PostMessageRequest { id: None, data: Some("payload".to_string()) },
    );
    assert!(matches!(no_id, LineMessageOutcome::BadRequest));
    let empty_data = post_line_message(
        &mut line,
        &PostMessageRequest { id: Some("k1".to_string()), data: Some("".to_string()) },
    );
    assert!(matches!(empty_data, LineMessageOutcome::BadRequest));
}
