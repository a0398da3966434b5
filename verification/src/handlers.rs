//! The request/response cores of the HTTP surface: session creation,
//! message posting and polling, public-key storage, PIN redemption and the
//! lite (polling) variants.  The surrounding program parses requests into
//! these plain values and serialises the results.

use vstd::prelude::*;

use crate::clock::{now_iso, to_epoch};
use crate::conversation::{is_broadcast, ConversationState};
use crate::guid::new_guid;
use crate::models::{Message, MessageView, PublicKeyView, RecordType, Session, SessionView};
use crate::protocol::{Delivery, DeliveryView, WsNotification, WsNotificationView};
use crate::registry::{messages_newest_first, Registry, RegistryView};
use crate::stats::{
    message_record_fits, message_recorded_all, record_fits, record_message_stats, record_stats,
    recorded_all,
};
use crate::text::{format_token, token_text};
use crate::tokens::create_new_share_token;

verus! {

/// A request to open a session under a chosen identifier/secret pair.
pub struct CreateSessionRequest {
    pub id: String,
    pub id2: String,
}

/// How a session-creation request ended.
#[derive(Clone, Copy, PartialEq, Eq, Structural)]
pub enum CreateSessionOutcome {
    /// An identifier or secret of the wrong length.
    BadRequest,
    /// The session already existed; nothing was changed.
    AlreadyExists,
    /// The session row was written, a share token drawn and the session
    /// counter raised.
    Created,
}

/// A fresh session row: no devices, not lite, created at the given instant.
pub open spec fn fresh_session(id: Seq<char>, id2: Seq<char>, created: Seq<char>) -> SessionView {
    SessionView {
        id: id,
        id_verification: id2,
        date_created: created,
        is_lite_session: false,
        cleanup_job_id: None,
        connection_ids: Seq::<Seq<char>>::empty(),
    }
}

/// Everything session creation does.  Wrong lengths and an existing row
/// leave the store untouched; otherwise the row lands, a share token is
/// drawn when the draw streak finds one, and the session counter ticks in
/// all four rollups.
pub open spec fn create_session_post(
    pre: RegistryView,
    post: RegistryView,
    id: Seq<char>,
    id2: Seq<char>,
    created: Seq<char>,
    tok: Option<i64>,
    year: i32,
    month: u32,
    day: u32,
    stamp: Seq<char>,
    r: CreateSessionOutcome,
) -> bool {
    &&& (r == CreateSessionOutcome::BadRequest) == (id.len() != 32 || id2.len() != 32)
    &&& (r == CreateSessionOutcome::AlreadyExists) == (id.len() == 32 && id2.len() == 32
        && pre.sessions.contains_key(id))
    &&& (r == CreateSessionOutcome::BadRequest || r == CreateSessionOutcome::AlreadyExists) ==> post
        == pre
    &&& (r == CreateSessionOutcome::Created) ==> {
        &&& 1 <= month <= 12 && 1 <= day <= 31
        &&& match tok {
            Some(t) => {
                &&& 100000 <= t
                &&& !pre.tokens.contains_key(t)
                &&& post == (RegistryView {
                    sessions: pre.sessions.insert(id, fresh_session(id, id2, created)),
                    tokens: pre.tokens.insert(
                        t,
                        crate::models::ShareTokenView { id: t, session_id: id },
                    ),
                    session_tokens: pre.session_tokens.insert(id, t),
                    stats: recorded_all(
                        pre.stats,
                        year,
                        month,
                        day,
                        stamp,
                        RecordType::Session,
                        1,
                    ),
                    ..pre
                })
            },
            None => post == (RegistryView {
                sessions: pre.sessions.insert(id, fresh_session(id, id2, created)),
                stats: recorded_all(pre.stats, year, month, day, stamp, RecordType::Session, 1),
                ..pre
            }),
        }
    }
}

/// Creates a session idempotently: a second request for the same identifier
/// succeeds without touching the store, so no counter ticks twice.  The
/// caller schedules the deferred teardown timer for a created session.
pub fn create_session(reg: &mut Registry, req: &CreateSessionRequest) -> (r: CreateSessionOutcome)
    requires
        forall|id: i64| record_fits(old(reg)@.stats, id, RecordType::Session, 1),
    ensures
        exists|created: Seq<char>, tok: Option<i64>, year: i32, month: u32, day: u32, stamp: Seq<
            char,
        >|
            #[trigger] create_session_post(
                old(reg)@,
                final(reg)@,
                req.id@,
                req.id2@,
                created,
                tok,
                year,
                month,
                day,
                stamp,
                r,
            ),
{
    let ghost pre = old(reg)@;
    if req.id.as_str().unicode_len() != 32 || req.id2.as_str().unicode_len() != 32 {
        proof {
            assert(create_session_post(
                pre,
                reg@,
                req.id@,
                req.id2@,
                Seq::<char>::empty(),
                None,
                2000i32,
                1u32,
                1u32,
                Seq::<char>::empty(),
                CreateSessionOutcome::BadRequest,
            ));
        }
        return CreateSessionOutcome::BadRequest;
    }
    if let Some(_s) = reg.get_session_by_id(req.id.as_str()) {
        proof {
            assert(create_session_post(
                pre,
                reg@,
                req.id@,
                req.id2@,
                Seq::<char>::empty(),
                None,
                2000i32,
                1u32,
                1u32,
                Seq::<char>::empty(),
                CreateSessionOutcome::AlreadyExists,
            ));
        }
        return CreateSessionOutcome::AlreadyExists;
    }
    let created = now_iso();
    let ghost created_v = created@;
    let session = Session {
        id: req.id.clone(),
        id_verification: req.id2.clone(),
        date_created: created,
        is_lite_session: false,
        cleanup_job_id: None,
        connection_ids: Vec::new(),
    };
    proof {
        assert(session.connection_ids.deep_view() =~= Seq::<Seq<char>>::empty());
        assert(session.deep_view() == fresh_session(req.id@, req.id2@, created_v));
    }
    reg.add_or_update_session(session);
    let tok = create_new_share_token(reg, req.id.as_str());
    let ghost stats_mid = reg@.stats;
    record_stats(reg, RecordType::Session, 1);
    proof {
        let (y, m, d, c): (i32, u32, u32, Seq<char>) = choose|
            y: i32,
            m: u32,
            d: u32,
            c: Seq<char>,
        |
            1 <= m <= 12 && 1 <= d <= 31 && reg@.stats == #[trigger] recorded_all(
                stats_mid,
                y,
                m,
                d,
                c,
                RecordType::Session,
                1,
            );
        assert(stats_mid == pre.stats);
        assert(create_session_post(
            pre,
            reg@,
            req.id@,
            req.id2@,
            created_v,
            tok,
            y,
            m,
            d,
            c,
            CreateSessionOutcome::Created,
        ));
    }
    CreateSessionOutcome::Created
}

/// A request to append one message to a session's history.
pub struct PostMessageRequest {
    pub session_id: String,
    pub session_verification: Option<String>,
    pub socket_connection_id: Option<String>,
    pub encryption_public_key_alias: Option<String>,
    pub composer_text: String,
}

/// How a message post ended.
#[derive(Clone, Copy, PartialEq, Eq, Structural)]
pub enum PostMessageOutcome {
    /// The session does not exist.
    BadRequest,
    /// The message row landed and the message counters ticked once.
    Accepted,
}

/// The stored form of a posted message.
pub open spec fn posted_message(
    mid: Seq<char>,
    req: PostMessageRequest,
    date_sent: Seq<char>,
    epoch: i64,
) -> MessageView {
    MessageView {
        id: mid,
        session_id: req.session_id@,
        session_id_verification: req.session_verification.deep_view(),
        socket_connection_id: req.socket_connection_id.deep_view(),
        encryption_public_key_alias: req.encryption_public_key_alias.deep_view(),
        text: req.composer_text@,
        file_name: None,
        date_sent: date_sent,
        has_file: false,
        file_size_bytes: None,
        is_notification: false,
        date_sent_epoch: epoch,
    }
}

/// Everything a message post does: the row is appended and the message
/// counters tick, whether or not any device is connected; the local members
/// are asked to reload.
pub open spec fn post_message_post(
    pre: RegistryView,
    post: RegistryView,
    localv: Map<Seq<char>, Seq<char>>,
    req: PostMessageRequest,
    mid: Seq<char>,
    date_sent: Seq<char>,
    epoch: i64,
    year: i32,
    month: u32,
    day: u32,
    stamp: Seq<char>,
    r: PostMessageOutcome,
    reload: Seq<DeliveryView>,
) -> bool {
    &&& (r == PostMessageOutcome::BadRequest) == !pre.sessions.contains_key(req.session_id@)
    &&& (r == PostMessageOutcome::BadRequest) ==> post == pre && reload == Seq::<
        DeliveryView,
    >::empty()
    &&& (r == PostMessageOutcome::Accepted) ==> {
        &&& mid.len() == 32
        &&& 1 <= month <= 12 && 1 <= day <= 31
        &&& post == (RegistryView {
            messages: pre.messages.push(posted_message(mid, req, date_sent, epoch)),
            stats: message_recorded_all(
                pre.stats,
                year,
                month,
                day,
                stamp,
                req.composer_text@.len() as i64,
                None,
            ),
            ..pre
        })
        &&& is_broadcast(
            reload,
            localv,
            req.session_id@,
            None,
            WsNotificationView::RequestReloadMessage,
        )
    }
}

/// Appends one message to a session's history.  A session with zero
/// connected devices still accepts the post; only a missing session row
/// rejects it.
pub fn post_message(reg: &mut Registry, local: &ConversationState, req: PostMessageRequest) -> (r:
    (PostMessageOutcome, Vec<Delivery>))
    requires
        req.composer_text@.len() <= i64::MAX,
        forall|id: i64|
            #[trigger] message_record_fits(
                old(reg)@.stats,
                id,
                req.composer_text@.len() as i64,
                None,
            ),
    ensures
        exists|
            mid: Seq<char>,
            date_sent: Seq<char>,
            epoch: i64,
            year: i32,
            month: u32,
            day: u32,
            stamp: Seq<char>,
        |
            #[trigger] post_message_post(
                old(reg)@,
                final(reg)@,
                local@,
                req,
                mid,
                date_sent,
                epoch,
                year,
                month,
                day,
                stamp,
                r.0,
                r.1.deep_view(),
            ),
{
    let ghost pre = old(reg)@;
    if reg.get_session_by_id(req.session_id.as_str()).is_none() {
        let out: Vec<Delivery> = Vec::new();
        let result = (PostMessageOutcome::BadRequest, out);
        proof {
            assert(result.1.deep_view() =~= Seq::<DeliveryView>::empty());
            assert(post_message_post(
                pre,
                reg@,
                local@,
                req,
                Seq::new(32nat, |i: int| 'a'),
                Seq::<char>::empty(),
                0i64,
                2000i32,
                1u32,
                1u32,
                Seq::<char>::empty(),
                result.0,
                result.1.deep_view(),
            ));
        }
        return result;
    }
    let mid = new_guid();
    let ghost mid_v = mid@;
    let date_sent = now_iso();
    let ghost ds_v = date_sent@;
    let epoch = to_epoch();
    let text_len = req.composer_text.as_str().unicode_len() as i64;
    let msg = Message {
        id: mid,
        session_id: req.session_id.clone(),
        session_id_verification: req.session_verification.clone(),
        socket_connection_id: req.socket_connection_id.clone(),
        encryption_public_key_alias: req.encryption_public_key_alias.clone(),
        text: req.composer_text.clone(),
        file_name: None,
        date_sent: date_sent,
        has_file: false,
        file_size_bytes: None,
        is_notification: false,
        date_sent_epoch: epoch,
    };
    proof {
        assert(msg.deep_view() == posted_message(mid_v, req, ds_v, epoch));
    }
    reg.insert_message(msg);
    let ghost stats_mid = reg@.stats;
    record_message_stats(reg, text_len, None);
    let reload = local.broadcast_to_session(
        req.session_id.as_str(),
        &WsNotification::RequestReloadMessage,
    );
    proof {
        let (y, m, d, c): (i32, u32, u32, Seq<char>) = choose|
            y: i32,
            m: u32,
            d: u32,
            c: Seq<char>,
        |
            1 <= m <= 12 && 1 <= d <= 31 && reg@.stats == #[trigger] message_recorded_all(
                stats_mid,
                y,
                m,
                d,
                c,
                text_len,
                None,
            );
        assert(stats_mid == pre.stats);
    }
    let result = (PostMessageOutcome::Accepted, reload);
    proof {
        let (y, m, d, c): (i32, u32, u32, Seq<char>) = choose|
            y: i32,
            m: u32,
            d: u32,
            c: Seq<char>,
        |
            1 <= m <= 12 && 1 <= d <= 31 && reg@.stats == #[trigger] message_recorded_all(
                stats_mid,
                y,
                m,
                d,
                c,
                text_len,
                None,
            );
        assert(post_message_post(
            pre,
            reg@,
            local@,
            req,
            mid_v,
            ds_v,
            epoch,
            y,
            m,
            d,
            c,
            result.0,
            result.1.deep_view(),
        ));
    }
    result
}

/// Asks every local member of a session to reload its message list.
pub fn notify_reload_message(local: &ConversationState, session_id: &str) -> (r: Vec<Delivery>)
    ensures
        is_broadcast(
            r.deep_view(),
            local@,
            session_id@,
            None,
            WsNotificationView::RequestReloadMessage,
        ),
{
    local.broadcast_to_session(session_id, &WsNotification::RequestReloadMessage)
}

/// A poll for a session's messages past a cursor.
pub struct GetMessagesRequest {
    pub id: String,
    pub id2: String,
    pub from: Option<i64>,
}

/// Hands back the session's messages newer than the cursor, newest first;
/// an unknown session or a wrong secret reads as an empty list.
pub fn get_messages(reg: &Registry, req: &GetMessagesRequest) -> (r: Vec<Message>)
    ensures
        r.deep_view() == if reg@.sessions.contains_key(req.id@) && reg@.sessions[
            req.id@
        ].id_verification == req.id2@ {
            messages_newest_first(
                reg@.messages,
                req.id@,
                match req.from {
                    Some(f) => f,
                    None => -1i64,
                },
            )
        } else {
            Seq::<MessageView>::empty()
        },
{
    if reg.get_session(req.id.as_str(), req.id2.as_str()).is_none() {
        let r: Vec<Message> = Vec::new();
        proof {
            assert(r.deep_view() =~= Seq::<MessageView>::empty());
        }
        return r;
    }
    let from = match req.from {
        Some(f) => f,
        None => -1,
    };
    reg.get_messages_by_session(req.id.as_str(), from)
}

/// A request for one message's raw content.
pub struct GetMessageRawRequest {
    pub message_id: String,
    pub session_id: String,
}

/// One message's raw content.
pub struct GetMessageRawResponse {
    pub content: String,
}

/// Hands back a stored message's text, only when the row carries the
/// claimed session.
pub fn get_message_raw(reg: &Registry, req: &GetMessageRawRequest) -> (r: Option<
    GetMessageRawResponse,
>)
    ensures
        ({
            let hit = crate::registry::find_message(reg@.messages, req.message_id@);
            match r {
                Some(resp) => hit matches Some(m) && m.session_id == req.session_id@
                    && resp.content@ == m.text,
                None => hit is None || hit->0.session_id != req.session_id@,
            }
        }),
{
    let msg = match reg.get_message_by_id(req.message_id.as_str()) {
        Some(m) => m,
        None => {
            return None;
        },
    };
    if !crate::text::str_eq(msg.session_id.as_str(), req.session_id.as_str()) {
        return None;
    }
    Some(GetMessageRawResponse { content: msg.text })
}

/// A request to store a public key under an alias.
pub struct SaveKeyRequest {
    pub session_id: String,
    pub session_verification: String,
    pub alias: String,
    pub public_key: String,
}

/// What the surrounding program read out of the submitted JWK document:
/// whether it parsed, claims the RSA key type, and carries a modulus and an
/// exponent.
pub struct JwkInfo {
    pub kty_rsa: bool,
    pub has_n: bool,
    pub has_e: bool,
}

/// How a key submission ended.
pub enum SaveKeyOutcome {
    /// A required field was empty.
    EmptyField,
    /// The submitted document did not parse as JSON.
    InvalidFormat,
    /// The document parsed but is no RSA public key.
    InvalidKey,
    /// The session does not exist or the secret is wrong.
    NotFound,
    /// The key row landed under this fresh identifier.
    Saved(String),
}

/// Everything a key submission does: the checks run in order (empty fields,
/// parse, key shape, session), and only a passing request appends a row.
pub open spec fn save_key_post(
    pre: RegistryView,
    post: RegistryView,
    req: SaveKeyRequest,
    parsed: Option<JwkInfo>,
    created: Seq<char>,
    r: SaveKeyOutcome,
) -> bool {
    let empty_field = req.session_id@.len() == 0 || req.session_verification@.len() == 0
        || req.alias@.len() == 0 || req.public_key@.len() == 0;
    let bad_format = parsed is None;
    let bad_key = parsed matches Some(info) && !(info.kty_rsa && info.has_n && info.has_e);
    let not_found = !pre.sessions.contains_key(req.session_id@) || pre.sessions[
        req.session_id@
    ].id_verification != req.session_verification@;
    &&& (r is EmptyField) == empty_field
    &&& (r is InvalidFormat) == (!empty_field && bad_format)
    &&& (r is InvalidKey) == (!empty_field && !bad_format && bad_key)
    &&& (r is NotFound) == (!empty_field && !bad_format && !bad_key && not_found)
    &&& (r is Saved) == (!empty_field && !bad_format && !bad_key && !not_found)
    &&& !(r is Saved) ==> post == pre
    &&& r matches SaveKeyOutcome::Saved(rid) ==> rid@.len() == 32 && post == (RegistryView {
        public_keys: pre.public_keys.push(
            PublicKeyView {
                id: rid@,
                session_id: req.session_id@,
                alias: req.alias@,
                public_key_json: req.public_key@,
                date_created: created,
            },
        ),
        ..pre
    })
}

/// Stores a public key for out-of-band encrypted uploads, after checking
/// the submitted document's shape and the session's secret.
pub fn save_public_key(reg: &mut Registry, req: &SaveKeyRequest, parsed: Option<JwkInfo>) -> (r:
    SaveKeyOutcome)
    ensures
        exists|created: Seq<char>|
            #[trigger] save_key_post(old(reg)@, final(reg)@, *req, parsed, created, r),
{
    let ghost pre = old(reg)@;
    let empty_field = req.session_id.as_str().is_empty()
        || req.session_verification.as_str().is_empty() || req.alias.as_str().is_empty()
        || req.public_key.as_str().is_empty();
    if empty_field {
        proof {
            assert(save_key_post(
                pre,
                reg@,
                *req,
                parsed,
                Seq::<char>::empty(),
                SaveKeyOutcome::EmptyField,
            ));
        }
        return SaveKeyOutcome::EmptyField;
    }
    let info = match &parsed {
        Some(i) => i,
        None => {
            proof {
                assert(save_key_post(
                    pre,
                    reg@,
                    *req,
                    parsed,
                    Seq::<char>::empty(),
                    SaveKeyOutcome::InvalidFormat,
                ));
            }
            return SaveKeyOutcome::InvalidFormat;
        },
    };
    if !(info.kty_rsa && info.has_n && info.has_e) {
        proof {
            assert(save_key_post(
                pre,
                reg@,
                *req,
                parsed,
                Seq::<char>::empty(),
                SaveKeyOutcome::InvalidKey,
            ));
        }
        return SaveKeyOutcome::InvalidKey;
    }
    if reg.get_session(req.session_id.as_str(), req.session_verification.as_str()).is_none() {
        proof {
            assert(save_key_post(
                pre,
                reg@,
                *req,
                parsed,
                Seq::<char>::empty(),
                SaveKeyOutcome::NotFound,
            ));
        }
        return SaveKeyOutcome::NotFound;
    }
    let rid = new_guid();
    let created = now_iso();
    let ghost created_v = created@;
    let key = crate::models::PublicKey {
        id: rid.clone(),
        session_id: req.session_id.clone(),
        alias: req.alias.clone(),
        public_key_json: req.public_key.clone(),
        date_created: created,
    };
    reg.insert_public_key(key);
    let out = SaveKeyOutcome::Saved(rid);
    proof {
        assert(save_key_post(pre, reg@, *req, parsed, created_v, out));
    }
    out
}

/// A PIN redemption request; the token may arrive under either casing.
pub struct ConnectRequest {
    pub token: Option<i64>,
    pub token_alt: Option<i64>,
}

/// How a PIN redemption ended.
pub enum PinOutcome {
    /// No token, or the literal zero.
    InvalidPin,
    /// The token is bound to no session: unknown or already redeemed.
    UnknownPin,
    /// The token named a session that no longer exists; the binding stays.
    SessionGone,
    /// The session's credentials, with the token consumed and the share
    /// panels told to hide.
    Connected { session_id: String, session_verification: String, is_lite_session: bool, hide_panel: Vec<Delivery> },
}

/// The requested token: the capitalised field wins, then the plain one,
/// else zero.
pub open spec fn requested_token(req: ConnectRequest) -> i64 {
    match req.token {
        Some(t) => t,
        None => match req.token_alt {
            Some(t) => t,
            None => 0,
        },
    }
}

/// Everything a PIN redemption does: only a token bound to a live session
/// redeems, and redemption consumes the binding in both directions, making
/// the token single-use.
pub open spec fn pin_post(
    pre: RegistryView,
    post: RegistryView,
    localv: Map<Seq<char>, Seq<char>>,
    req: ConnectRequest,
    r: PinOutcome,
) -> bool {
    let t = requested_token(req);
    &&& (r is InvalidPin) == (t == 0)
    &&& (r is UnknownPin) == (t != 0 && !pre.tokens.contains_key(t))
    &&& (r is SessionGone) == (t != 0 && pre.tokens.contains_key(t) && !pre.sessions.contains_key(
        pre.tokens[t].session_id,
    ))
    &&& (r is Connected) == (t != 0 && pre.tokens.contains_key(t) && pre.sessions.contains_key(
        pre.tokens[t].session_id,
    ))
    &&& !(r is Connected) ==> post == pre
    &&& r matches PinOutcome::Connected {
        session_id,
        session_verification,
        is_lite_session,
        hide_panel,
    } ==> {
        let s = pre.sessions[pre.tokens[t].session_id];
        &&& session_id@ == s.id
        &&& session_verification@ == s.id_verification
        &&& is_lite_session == s.is_lite_session
        &&& post == (RegistryView {
            tokens: pre.tokens.remove(t),
            session_tokens: if pre.session_tokens.contains_key(pre.tokens[t].session_id)
                && pre.session_tokens[pre.tokens[t].session_id] == t {
                pre.session_tokens.remove(pre.tokens[t].session_id)
            } else {
                pre.session_tokens
            },
            ..pre
        })
        &&& is_broadcast(
            hide_panel.deep_view(),
            localv,
            s.id,
            None,
            WsNotificationView::HideSharePanel,
        )
    }
}

/// Redeems a numeric PIN for a session's credentials.  Redemption is
/// single-use: both directions of the binding go, so the same token redeems
/// no second time and the session no longer names it.
pub fn connect_via_pin(reg: &mut Registry, local: &ConversationState, req: &ConnectRequest) -> (r:
    PinOutcome)
    ensures
        pin_post(old(reg)@, final(reg)@, local@, *req, r),
{
    let token: i64 = match req.token {
        Some(t) => t,
        None => match req.token_alt {
            Some(t) => t,
            None => 0,
        },
    };
    if token == 0 {
        return PinOutcome::InvalidPin;
    }
    let share_token = match reg.get_share_token(token) {
        Some(t) => t,
        None => {
            return PinOutcome::UnknownPin;
        },
    };
    let session = match reg.get_session_by_id(share_token.session_id.as_str()) {
        Some(s) => s,
        None => {
            return PinOutcome::SessionGone;
        },
    };
    reg.remove_share_token(token);
    let reverse_names_it = match reg.get_session_token(share_token.session_id.as_str()) {
        Some(rt) => rt == token,
        None => false,
    };
    if reverse_names_it {
        reg.remove_session_token(share_token.session_id.as_str());
    }
    let hide_panel = local.broadcast_to_session(session.id.as_str(), &WsNotification::HideSharePanel);
    PinOutcome::Connected {
        session_id: session.id,
        session_verification: session.id_verification,
        is_lite_session: session.is_lite_session,
        hide_panel,
    }
}

/// Redeeming a PIN is single-use: a successful redemption leaves the token
/// bound to nothing, so by `pin_post` a second redemption of the same
/// token can only end in the unknown-PIN error.
pub proof fn lemma_redeem_single_use(pre: RegistryView, post: RegistryView, t: i64)
    requires
        t != 0,
        pre.tokens.contains_key(t),
        pre.sessions.contains_key(pre.tokens[t].session_id),
        post.tokens == pre.tokens.remove(t),
    ensures
        !post.tokens.contains_key(t),
        forall|post2: RegistryView, localv: Map<Seq<char>, Seq<char>>, req: ConnectRequest, r:
            PinOutcome|
            requested_token(req) == t && #[trigger] pin_post(post, post2, localv, req, r) ==> r
                is UnknownPin,
{
}


/// A lite client's combined poll: session validity, outstanding token and
/// new messages in one round trip.
pub struct LitePollRequest {
    pub id: String,
    pub id2: String,
    pub from: Option<i64>,
}

/// What a lite poll hands back.
pub struct LitePollResponse {
    pub has_session: bool,
    pub has_token: bool,
    pub token: Option<String>,
    pub messages: Vec<Message>,
}

/// Polls a session the lite way.  A wrong identifier or secret reads as "no
/// session"; otherwise the outstanding token (display form) and the
/// messages past the cursor come back.
pub fn lite_poll(reg: &Registry, req: &LitePollRequest) -> (r: LitePollResponse)
    ensures
        ({
            let valid = reg@.sessions.contains_key(req.id@) && reg@.sessions[
                req.id@
            ].id_verification == req.id2@;
            if !valid {
                &&& r.has_session == false
                &&& r.has_token == false
                &&& r.token is None
                &&& r.messages.deep_view() == Seq::<MessageView>::empty()
            } else {
                &&& r.has_session == true
                &&& r.has_token == reg@.session_tokens.contains_key(req.id@)
                &&& r.token.deep_view() == if reg@.session_tokens.contains_key(req.id@) {
                    Some(token_text(reg@.session_tokens[req.id@] as int))
                } else {
                    Option::<Seq<char>>::None
                }
                &&& r.messages.deep_view() == messages_newest_first(
                    reg@.messages,
                    req.id@,
                    match req.from {
                        Some(f) => f,
                        None => -1i64,
                    },
                )
            }
        }),
{
    if reg.get_session(req.id.as_str(), req.id2.as_str()).is_none() {
        let messages: Vec<Message> = Vec::new();
        proof {
            assert(messages.deep_view() =~= Seq::<MessageView>::empty());
        }
        return LitePollResponse { has_session: false, has_token: false, token: None, messages };
    }
    let token = match reg.get_session_token(req.id.as_str()) {
        Some(t) => Some(format_token(t)),
        None => None,
    };
    let from = match req.from {
        Some(f) => f,
        None => -1,
    };
    let messages = reg.get_messages_by_session(req.id.as_str(), from);
    LitePollResponse { has_session: true, has_token: token.is_some(), token, messages }
}

/// A lite client's session credentials, as sent with each mutating request.
pub struct LiteSessionRequest {
    pub session_id: String,
    pub session_verification: String,
}

/// How a lite token request ended.
pub enum LiteTokenOutcome {
    /// The session does not exist or the secret is wrong.
    BadRequest,
    /// A fresh token, in display form.
    Created(String),
    /// The draw streak found no free number; nothing changed.
    Unavailable,
}

/// Everything a lite token request does: with valid credentials any
/// outstanding token is cancelled first, then a fresh one is drawn and
/// bound in both directions, so the session keeps exactly one live token.
pub open spec fn lite_token_post(
    pre: RegistryView,
    post: RegistryView,
    req: LiteSessionRequest,
    t: i64,
    r: LiteTokenOutcome,
) -> bool {
    let valid = pre.sessions.contains_key(req.session_id@) && pre.sessions[
        req.session_id@
    ].id_verification == req.session_verification@;
    let cleared = if pre.session_tokens.contains_key(req.session_id@) {
        RegistryView {
            tokens: pre.tokens.remove(pre.session_tokens[req.session_id@]),
            session_tokens: pre.session_tokens.remove(req.session_id@),
            ..pre
        }
    } else {
        pre
    };
    &&& (r is BadRequest) == !valid
    &&& (r is BadRequest) ==> post == pre
    &&& (r is Unavailable) ==> post == cleared
    &&& r matches LiteTokenOutcome::Created(text) ==> {
        &&& 100000 <= t
        &&& !cleared.tokens.contains_key(t)
        &&& text@ == token_text(t as int)
        &&& post == (RegistryView {
            tokens: cleared.tokens.insert(
                t,
                crate::models::ShareTokenView { id: t, session_id: req.session_id@ },
            ),
            session_tokens: cleared.session_tokens.insert(req.session_id@, t),
            ..cleared
        })
    }
}

/// Draws a fresh share token for a lite session, cancelling any token still
/// outstanding so that at most one stays live.
pub fn lite_share_token_new(reg: &mut Registry, req: &LiteSessionRequest) -> (r: LiteTokenOutcome)
    ensures
        exists|t: i64| #[trigger] lite_token_post(old(reg)@, final(reg)@, *req, t, r),
{
    let ghost pre = old(reg)@;
    if reg.get_session(req.session_id.as_str(), req.session_verification.as_str()).is_none() {
        proof {
            assert(lite_token_post(pre, reg@, *req, 0i64, LiteTokenOutcome::BadRequest));
        }
        return LiteTokenOutcome::BadRequest;
    }
    let _had = crate::tokens::cancel_share_token(reg, req.session_id.as_str());
    match create_new_share_token(reg, req.session_id.as_str()) {
        Some(t) => {
            let out = LiteTokenOutcome::Created(format_token(t));
            proof {
                assert(lite_token_post(pre, reg@, *req, t, out));
            }
            out
        },
        None => {
            proof {
                assert(lite_token_post(pre, reg@, *req, 0i64, LiteTokenOutcome::Unavailable));
            }
            LiteTokenOutcome::Unavailable
        },
    }
}

/// How a plain lite request ended.
#[derive(Clone, Copy, PartialEq, Eq, Structural)]
pub enum LiteOutcome {
    /// The session does not exist or the secret is wrong.
    BadRequest,
    /// The request was carried out.
    Done,
}

/// Cancels a lite session's outstanding token, both directions; no panel
/// broadcast goes out on this path.
pub fn lite_share_token_cancel(reg: &mut Registry, req: &LiteSessionRequest) -> (r: LiteOutcome)
    ensures
        ({
            let valid = old(reg)@.sessions.contains_key(req.session_id@) && old(reg)@.sessions[
                req.session_id@
            ].id_verification == req.session_verification@;
            &&& (r == LiteOutcome::BadRequest) == !valid
            &&& !valid ==> final(reg)@ == old(reg)@
            &&& (valid && old(reg)@.session_tokens.contains_key(req.session_id@)) ==> final(reg)@
                == (RegistryView {
                tokens: old(reg)@.tokens.remove(old(reg)@.session_tokens[req.session_id@]),
                session_tokens: old(reg)@.session_tokens.remove(req.session_id@),
                ..old(reg)@
            })
            &&& (valid && !old(reg)@.session_tokens.contains_key(req.session_id@)) ==> final(reg)@
                == old(reg)@
        }),
{
    if reg.get_session(req.session_id.as_str(), req.session_verification.as_str()).is_none() {
        return LiteOutcome::BadRequest;
    }
    let _had = crate::tokens::cancel_share_token(reg, req.session_id.as_str());
    LiteOutcome::Done
}

/// Tears a lite session down and tells every local member it is gone.
pub fn lite_erase_session(
    reg: &mut Registry,
    local: &ConversationState,
    req: &LiteSessionRequest,
) -> (r: (LiteOutcome, Vec<Delivery>))
    ensures
        ({
            let valid = old(reg)@.sessions.contains_key(req.session_id@) && old(reg)@.sessions[
                req.session_id@
            ].id_verification == req.session_verification@;
            &&& (r.0 == LiteOutcome::BadRequest) == !valid
            &&& !valid ==> final(reg)@ == old(reg)@ && r.1.deep_view() == Seq::<
                DeliveryView,
            >::empty()
            &&& valid ==> final(reg)@ == crate::lifecycle::teardown(old(reg)@, req.session_id@)
                && is_broadcast(
                r.1.deep_view(),
                local@,
                req.session_id@,
                None,
                WsNotificationView::SessionDeleted,
            )
        }),
{
    if reg.get_session(req.session_id.as_str(), req.session_verification.as_str()).is_none() {
        let out: Vec<Delivery> = Vec::new();
        proof {
            assert(out.deep_view() =~= Seq::<DeliveryView>::empty());
        }
        return (LiteOutcome::BadRequest, out);
    }
    let _cids = crate::lifecycle::erase_session_return_connection_ids(reg, req.session_id.as_str());
    let deleted = local.broadcast_to_session(
        req.session_id.as_str(),
        &WsNotification::SessionDeleted,
    );
    (LiteOutcome::Done, deleted)
}

} // verus!
