use just_an_email::conversation::{
    connect, handle_client_message, handle_disconnect, on_open, ClientEffects, ConversationState,
};
use just_an_email::handlers::{
    connect_via_pin, create_session, post_message, ConnectRequest, CreateSessionOutcome,
    CreateSessionRequest, PinOutcome, PostMessageOutcome, PostMessageRequest,
};
use just_an_email::lifecycle::erase_session_return_connection_ids;
use just_an_email::protocol::WsNotification;
use just_an_email::registry::Registry;

fn fresh_session(reg: &mut Registry, id: &str, id2: &str) -> CreateSessionOutcome {
    create_session(
        reg,
        &CreateSessionRequest { id: id.to_string(), id2: id2.to_string() },
    )
}

fn a32() -> String {
    "a".repeat(32)
}

fn b32() -> String {
    "b".repeat(32)
}

#[test]
fn create_session_is_idempotent_and_counts_once() {
    let mut reg = Registry::new();
    let first = fresh_session(&mut reg, &a32(), &b32());
    assert!(matches!(first, CreateSessionOutcome::Created));
    let sessions_after_first = reg.stats_row(-1).map(|s| s.sessions).unwrap_or(0);
    assert_eq!(sessions_after_first, 1);

    let second = fresh_session(&mut reg, &a32(), &b32());
    assert!(matches!(second, CreateSessionOutcome::AlreadyExists));
    let sessions_after_second = reg.stats_row(-1).map(|s| s.sessions).unwrap_or(0);
    assert_eq!(sessions_after_second, 1);
}

#[test]
fn create_session_rejects_short_ids() {
    let mut reg = Registry::new();
    let out = fresh_session(&mut reg, "short", &b32());
    assert!(matches!(out, CreateSessionOutcome::BadRequest));
    assert!(reg.get_session_by_id("short").is_none());
}

#[test]
fn post_message_without_devices_still_lands() {
    let mut reg = Registry::new();
    let local = ConversationState::new();
    fresh_session(&mut reg, &a32(), &b32());

    let (out, _reload) = post_message(
        &mut reg,
        &local,
        PostMessageRequest {
            session_id: a32(),
            session_verification: None,
            socket_connection_id: None,
            encryption_public_key_alias: None,
            composer_text: "hello".to_string(),
        },
    );
    assert!(matches!(out, PostMessageOutcome::Accepted));

    let messages = reg.get_messages_by_session(&a32(), -1);
    assert_eq!(messages.len(), 1);
    assert_eq!(messages[0].text, "hello");
    assert!(!messages[0].is_notification);

    let all_time = reg.stats_row(-1).expect("all-time bucket");
    assert_eq!(all_time.messages, 1);
    assert_eq!(all_time.messages_size_bytes, 5);
}

#[test]
fn post_message_to_unknown_session_rejects() {
    let mut reg = Registry::new();
    let local = ConversationState::new();
    let (out, reload) = post_message(
        &mut reg,
        &local,
        PostMessageRequest {
            session_id: a32(),
            session_verification: None,
            socket_connection_id: None,
            encryption_public_key_alias: None,
            composer_text: "hello".to_string(),
        },
    );
    assert!(matches!(out, PostMessageOutcome::BadRequest));
    assert!(reload.is_empty());
}

#[test]
fn pairing_fires_once_with_opposite_roles() {
    let mut reg = Registry::new();
    let mut local = ConversationState::new();
    fresh_session(&mut reg, &a32(), &b32());

    let _ = connect(&mut reg, &mut local, &a32(), "dev1");
    let effects = connect(&mut reg, &mut local, &a32(), "dev2");

    assert_eq!(effects.key_exchange.len(), 2);
    let first = &effects.key_exchange[0];
    let second = &effects.key_exchange[1];
    match (&first.event, &second.event) {
        (
            WsNotification::StartKeyExchange { peer_id: p1, pka: k1, initiate: i1 },
            WsNotification::StartKeyExchange { peer_id: p2, pka: k2, initiate: i2 },
        ) => {
            assert_eq!(first.to, "dev1");
            assert_eq!(p1, "dev2");
            assert!(!i1);
            assert_eq!(second.to, "dev2");
            assert_eq!(p2, "dev1");
            assert!(*i2);
            assert_eq!(k1, k2);
        },
        _ => panic!("expected a key exchange pair"),
    }
}

#[test]
fn serialized_connects_all_land() {
    let mut reg = Registry::new();
    let mut local = ConversationState::new();
    fresh_session(&mut reg, &a32(), &b32());

    let _ = connect(&mut reg, &mut local, &a32(), "dev1");
    let _ = connect(&mut reg, &mut local, &a32(), "dev2");
    let _ = connect(&mut reg, &mut local, &a32(), "dev3");

    let clients = reg.find_client(&a32());
    assert_eq!(clients.len(), 3);
    assert_eq!(clients, vec!["dev1", "dev2", "dev3"]);
}

#[test]
fn reconnect_does_not_duplicate_registration() {
    let mut reg = Registry::new();
    let mut local = ConversationState::new();
    fresh_session(&mut reg, &a32(), &b32());

    let _ = connect(&mut reg, &mut local, &a32(), "dev1");
    let _ = connect(&mut reg, &mut local, &a32(), "dev1");
    assert_eq!(reg.find_client(&a32()).len(), 1);
}

#[test]
fn disconnect_with_devices_left_notifies_and_keeps_session() {
    let mut reg = Registry::new();
    let mut local = ConversationState::new();
    fresh_session(&mut reg, &a32(), &b32());

    let _ = connect(&mut reg, &mut local, &a32(), "dev1");
    let _ = connect(&mut reg, &mut local, &a32(), "dev2");

    let bound = Some(a32());
    let effects = handle_disconnect(&mut reg, &mut local, "dev2", bound.as_ref());

    assert_eq!(reg.find_client(&a32()).len(), 1);
    assert!(reg.get_session_by_id(&a32()).is_some());
    assert!(effects.upload_cleanup.is_none());
    assert!(effects.session_deleted.is_empty());

    let count_to_dev1 = effects.device_count.iter().any(|d| {
        d.to == "dev1" && matches!(d.event, WsNotification::SetNumberOfDevices { count: 1 })
    });
    assert!(count_to_dev1);

    let messages = reg.get_messages_by_session(&a32(), -1);
    assert_eq!(messages.len(), 1);
    assert!(messages[0].is_notification);
    assert_eq!(messages[0].text, "A device was disconnected.");
    assert!(effects.reload.iter().any(|d| {
        d.to == "dev1" && matches!(d.event, WsNotification::RequestReloadMessage)
    }));
}

#[test]
fn last_disconnect_tears_the_session_down() {
    let mut reg = Registry::new();
    let mut local = ConversationState::new();
    fresh_session(&mut reg, &a32(), &b32());

    let _ = connect(&mut reg, &mut local, &a32(), "dev1");
    let bound = Some(a32());
    let effects = handle_disconnect(&mut reg, &mut local, "dev1", bound.as_ref());

    assert!(reg.get_session_by_id(&a32()).is_none());
    assert_eq!(effects.upload_cleanup.as_deref(), Some(a32().as_str()));
    assert!(effects.reload.is_empty());
}

#[test]
fn teardown_twice_is_idempotent_and_clears_everything() {
    let mut reg = Registry::new();
    let mut local = ConversationState::new();
    fresh_session(&mut reg, &a32(), &b32());
    let _ = connect(&mut reg, &mut local, &a32(), "dev1");
    let (out, _) = post_message(
        &mut reg,
        &local,
        PostMessageRequest {
            session_id: a32(),
            session_verification: None,
            socket_connection_id: None,
            encryption_public_key_alias: None,
            composer_text: "hello".to_string(),
        },
    );
    assert!(matches!(out, PostMessageOutcome::Accepted));

    let first = erase_session_return_connection_ids(&mut reg, &a32());
    assert_eq!(first, vec!["dev1"]);
    assert!(reg.get_session_by_id(&a32()).is_none());
    assert!(reg.get_messages_by_session(&a32(), -1).is_empty());
    assert!(reg.get_session_token(&a32()).is_none());

    let second = erase_session_return_connection_ids(&mut reg, &a32());
    assert!(second.is_empty());
    assert!(reg.get_session_by_id(&a32()).is_none());
    assert!(reg.get_messages_by_session(&a32(), -1).is_empty());
    assert!(reg.get_session_token(&a32()).is_none());
}

#[test]
fn pin_redemption_is_single_use() {
    let mut reg = Registry::new();
    let local = ConversationState::new();
    fresh_session(&mut reg, &a32(), &b32());

    let token = reg.get_session_token(&a32()).expect("a token from creation");
    let forward = reg.get_share_token(token).expect("forward binding");
    assert_eq!(forward.session_id, a32());

    let req = ConnectRequest { token: Some(token), token_alt: None };
    match connect_via_pin(&mut reg, &local, &req) {
        PinOutcome::Connected { session_id, session_verification, is_lite_session, .. } => {
            assert_eq!(session_id, a32());
            assert_eq!(session_verification, b32());
            assert!(!is_lite_session);
        },
        _ => panic!("expected the first redemption to succeed"),
    }
    assert!(matches!(connect_via_pin(&mut reg, &local, &req), PinOutcome::UnknownPin));
    assert!(reg.get_share_token(token).is_none());
    assert!(
        reg.get_session_token(&a32()).is_none(),
        "redemption consumes both directions of the binding"
    );
}

#[test]
fn direct_call_before_connect_is_ignored() {
    let mut reg = Registry::new();
    let mut local = ConversationState::new();
    fresh_session(&mut reg, &a32(), &b32());
    let _ = connect(&mut reg, &mut local, &a32(), "dev1");

    let effects = just_an_email::conversation::call_peer(
        &mut reg,
        &local,
        "ghost",
        None,
        "dev1",
        "ping".to_string(),
        "{}".to_string(),
    );
    assert!(effects.callback.is_empty());
    assert!(effects.reload.is_empty());
}

#[test]
fn pin_zero_is_invalid() {
    let mut reg = Registry::new();
    let local = ConversationState::new();
    let req = ConnectRequest { token: None, token_alt: None };
    assert!(matches!(connect_via_pin(&mut reg, &local, &req), PinOutcome::InvalidPin));
}

#[test]
fn open_acknowledges_the_socket_itself() {
    let mut reg = Registry::new();
    let deliveries = on_open(&mut reg, "dev1");
    assert_eq!(deliveries.len(), 1);
    assert_eq!(deliveries[0].to, "dev1");
    assert!(matches!(
        &deliveries[0].event,
        WsNotification::Connected { connection_id } if connection_id == "dev1"
    ));
    assert_eq!(reg.stats_row(-1).map(|s| s.devices), Some(1));
}

#[test]
fn frames_before_connect_are_ignored() {
    let mut reg = Registry::new();
    let mut local = ConversationState::new();
    let mut session: Option<String> = None;

    let out = handle_client_message(
        &mut reg,
        &mut local,
        "dev1",
        &mut session,
        just_an_email::protocol::ClientMessage::Share,
    );
    match out {
        ClientEffects::Shared(panel) => assert!(panel.is_empty()),
        _ => panic!("expected a share outcome"),
    }
    assert!(session.is_none());
}

#[test]
fn dispatcher_connect_binds_the_socket() {
    let mut reg = Registry::new();
    let mut local = ConversationState::new();
    fresh_session(&mut reg, &a32(), &b32());
    let mut session: Option<String> = None;

    let out = handle_client_message(
        &mut reg,
        &mut local,
        "dev1",
        &mut session,
        just_an_email::protocol::ClientMessage::Connect { session_id: a32() },
    );
    assert!(matches!(out, ClientEffects::Connected(_)));
    assert_eq!(session.as_deref(), Some(a32().as_str()));
    assert_eq!(reg.find_client(&a32()), vec!["dev1"]);
}

#[test]
fn broadcast_call_reaches_peers_not_sender() {
    let mut reg = Registry::new();
    let mut local = ConversationState::new();
    fresh_session(&mut reg, &a32(), &b32());
    let _ = connect(&mut reg, &mut local, &a32(), "dev1");
    let _ = connect(&mut reg, &mut local, &a32(), "dev2");

    let effects = just_an_email::conversation::call_peer(
        &mut reg,
        &local,
        "dev1",
        Some(&a32()),
        "ALL",
        "ping".to_string(),
        "{}".to_string(),
    );
    assert_eq!(effects.callback.len(), 1);
    assert_eq!(effects.callback[0].to, "dev2");
    assert!(matches!(
        &effects.callback[0].event,
        WsNotification::Callback { method, data } if method == "ping" && data == "{}"
    ));
    let messages = reg.get_messages_by_session(&a32(), -1);
    assert_eq!(messages.len(), 1);
    assert!(messages[0].is_notification);
    assert!(messages[0].text.starts_with("A new device connected."));
}
