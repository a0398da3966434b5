//! The compute parts of file upload: size and session checks, the on-disk
//! name (with its collision rename), and the history/counter commit.  The
//! surrounding program reads the multipart stream and writes the bytes.

use vstd::prelude::*;

use crate::clock::{now_iso, to_epoch};
use crate::conversation::{is_broadcast, ConversationState};
use crate::guid::new_guid;
use crate::models::{Message, MessageView};
use crate::protocol::{Delivery, DeliveryView, WsNotification, WsNotificationView};
use crate::registry::{Registry, RegistryView};
use crate::stats::{message_record_fits, message_recorded_all, record_message_stats};

verus! {

/// The display name an upload goes by: the composer text when one was
/// typed, else the submitted file's own name.
pub open spec fn upload_display_name(composer: Seq<char>, field_name: Seq<char>) -> Seq<char> {
    if composer.len() == 0 {
        field_name
    } else {
        composer
    }
}

/// Picks an upload's display name.
pub fn original_file_name(composer_text: &str, field_name: &str) -> (r: String)
    ensures
        r@ == upload_display_name(composer_text@, field_name@),
{
    if composer_text.is_empty() {
        String::from_str(field_name)
    } else {
        String::from_str(composer_text)
    }
}

/// The last dot of the prefix `s[..i]` at an index of one or more; zero
/// when no such dot exists.
pub open spec fn last_dot_before(s: Seq<char>, i: int) -> int
    decreases i,
{
    if i <= 1 {
        0
    } else if s[i - 1] == '.' {
        i - 1
    } else {
        last_dot_before(s, i - 1)
    }
}

/// The index splitting a file name into stem and extension: the last dot
/// not in first position, or zero when the name has no extension.
pub open spec fn extension_dot(s: Seq<char>) -> int {
    last_dot_before(s, s.len() as int)
}

/// The name a stored upload gets on disk.  An encrypted upload goes by its
/// message identifier; a fresh name is kept as it is; a colliding name gets
/// six characters of the message identifier spliced in before the
/// extension.
pub open spec fn disk_name_text(
    original: Seq<char>,
    mid: Seq<char>,
    dest_exists: bool,
    encrypted: bool,
) -> Seq<char> {
    if encrypted {
        mid + ".enc"@
    } else if !dest_exists {
        original
    } else {
        let d = extension_dot(original);
        if d == 0 {
            original + "_"@ + mid.take(6)
        } else {
            original.take(d) + "_"@ + mid.take(6) + "."@ + original.skip(d + 1)
        }
    }
}

/// Picks the on-disk name for one upload.
pub fn choose_disk_filename(
    original: &str,
    message_id: &str,
    dest_exists: bool,
    encrypted: bool,
) -> (r: String)
    requires
        message_id@.len() >= 6,
    ensures
        r@ == disk_name_text(original@, message_id@, dest_exists, encrypted),
{
    if encrypted {
        let mut s = String::from_str(message_id);
        s.append(".enc");
        proof {
            assert(s@ =~= disk_name_text(original@, message_id@, dest_exists, true));
        }
        return s;
    }
    if !dest_exists {
        return String::from_str(original);
    }
    let n = original.unicode_len();
    let mut d: usize = 0;
    let mut i: usize = 1;
    proof {
        assert(last_dot_before(original@, 1) == 0);
        if n == 0 {
            assert(last_dot_before(original@, 0) == 0);
        }
    }
    while i < n
        invariant
            1 <= i || n == 0,
            i <= n || (n == 0 && i == 1),
            n == original@.len(),
            d == last_dot_before(original@, if n == 0 {
                0int
            } else {
                i as int
            }),
            d < n || d == 0,
        decreases n - i,
    {
        if original.get_char(i) == '.' {
            d = i;
        }
        proof {
            assert(last_dot_before(original@, i as int + 1) == if original@[i as int] == '.' {
                i as int
            } else {
                last_dot_before(original@, i as int)
            });
        }
        i += 1;
    }
    let mid6 = message_id.substring_char(0, 6);
    if d == 0 {
        let mut s = String::from_str(original);
        s.append("_");
        s.append(mid6);
        proof {
            assert(s@ =~= disk_name_text(original@, message_id@, true, false));
        }
        s
    } else {
        let mut s = String::new();
        let stem = original.substring_char(0, d);
        s.append(stem);
        s.append("_");
        s.append(mid6);
        s.append(".");
        let ext = original.substring_char(d + 1, n);
        s.append(ext);
        proof {
            assert(s@ =~= disk_name_text(original@, message_id@, true, false));
        }
        s
    }
}

/// How the checks before an upload ended.
pub enum UploadCheck {
    /// The file is larger than the configured bound.
    TooLarge,
    /// No session identifier came with the upload.
    EmptySessionId,
    /// The named session does not exist.
    MissingSession,
    /// The upload may proceed, under this fresh message identifier.
    Accepted(String),
}

/// Checks an upload before any byte is written: the size bound first, then
/// the session identifier and the session row.
pub fn plan_upload(reg: &Registry, session_id: &str, file_len: u64, max_upload: u64) -> (r:
    UploadCheck)
    ensures
        (r is TooLarge) == (file_len > max_upload),
        (r is EmptySessionId) == (file_len <= max_upload && session_id@.len() == 0),
        (r is MissingSession) == (file_len <= max_upload && session_id@.len() > 0
            && !reg@.sessions.contains_key(session_id@)),
        (r is Accepted) == (file_len <= max_upload && session_id@.len() > 0
            && reg@.sessions.contains_key(session_id@)),
        r matches UploadCheck::Accepted(mid) ==> mid@.len() == 32,
{
    if file_len > max_upload {
        return UploadCheck::TooLarge;
    }
    if session_id.is_empty() {
        return UploadCheck::EmptySessionId;
    }
    if reg.get_session_by_id(session_id).is_none() {
        return UploadCheck::MissingSession;
    }
    UploadCheck::Accepted(new_guid())
}

/// The plain fields of an upload request; an empty string stands for an
/// omitted field.
pub struct UploadFields {
    pub session_id: String,
    pub session_verification: String,
    pub socket_connection_id: String,
    pub encryption_public_key_alias: String,
    pub composer_text: String,
    pub file_name_from_field: String,
}

/// An omitted field reads as nothing.
pub open spec fn opt_of(s: Seq<char>) -> Option<Seq<char>> {
    if s.len() == 0 {
        None
    } else {
        Some(s)
    }
}

/// The stored form of an upload's history row.
pub open spec fn upload_message(
    mid: Seq<char>,
    fields: UploadFields,
    disk: Seq<char>,
    date_sent: Seq<char>,
    epoch: i64,
    file_len: i64,
) -> MessageView {
    MessageView {
        id: mid,
        session_id: fields.session_id@,
        session_id_verification: opt_of(fields.session_verification@),
        socket_connection_id: opt_of(fields.socket_connection_id@),
        encryption_public_key_alias: opt_of(fields.encryption_public_key_alias@),
        text: upload_display_name(fields.composer_text@, fields.file_name_from_field@),
        file_name: Some(disk),
        date_sent: date_sent,
        has_file: true,
        file_size_bytes: Some(file_len),
        is_notification: false,
        date_sent_epoch: epoch,
    }
}

/// Everything an upload commit does: the history row lands with the file
/// attached, the message and file counters tick, and the local members are
/// asked to reload.
pub open spec fn upload_commit_post(
    pre: RegistryView,
    post: RegistryView,
    localv: Map<Seq<char>, Seq<char>>,
    fields: UploadFields,
    mid: Seq<char>,
    disk: Seq<char>,
    file_len: i64,
    date_sent: Seq<char>,
    epoch: i64,
    year: i32,
    month: u32,
    day: u32,
    stamp: Seq<char>,
    reload: Seq<DeliveryView>,
) -> bool {
    let text_len = upload_display_name(
        fields.composer_text@,
        fields.file_name_from_field@,
    ).len() as i64;
    &&& 1 <= month <= 12 && 1 <= day <= 31
    &&& post == (RegistryView {
        messages: pre.messages.push(upload_message(mid, fields, disk, date_sent, epoch, file_len)),
        stats: message_recorded_all(
            pre.stats,
            year,
            month,
            day,
            stamp,
            text_len,
            Some(file_len),
        ),
        ..pre
    })
    &&& is_broadcast(
        reload,
        localv,
        fields.session_id@,
        None,
        WsNotificationView::RequestReloadMessage,
    )
}

/// Commits one upload to history and the counters, after the caller has
/// written the bytes under the chosen disk name.
pub fn commit_upload(
    reg: &mut Registry,
    local: &ConversationState,
    fields: &UploadFields,
    message_id: String,
    disk_filename: String,
    file_len: i64,
) -> (r: Vec<Delivery>)
    requires
        upload_display_name(fields.composer_text@, fields.file_name_from_field@).len()
            <= i64::MAX,
        forall|id: i64|
            #[trigger] message_record_fits(
                old(reg)@.stats,
                id,
                upload_display_name(
                    fields.composer_text@,
                    fields.file_name_from_field@,
                ).len() as i64,
                Some(file_len),
            ),
    ensures
        exists|
            date_sent: Seq<char>,
            epoch: i64,
            year: i32,
            month: u32,
            day: u32,
            stamp: Seq<char>,
        |
            #[trigger] upload_commit_post(
                old(reg)@,
                final(reg)@,
                local@,
                *fields,
                message_id@,
                disk_filename@,
                file_len,
                date_sent,
                epoch,
                year,
                month,
                day,
                stamp,
                r.deep_view(),
            ),
{
    let ghost pre = old(reg)@;
    let ghost mid_v = message_id@;
    let ghost disk_v = disk_filename@;
    let text = original_file_name(fields.composer_text.as_str(), fields.file_name_from_field.as_str());
    let text_len = text.as_str().unicode_len() as i64;
    let date_sent = now_iso();
    let ghost ds_v = date_sent@;
    let epoch = to_epoch();
    let verification = if fields.session_verification.as_str().is_empty() {
        None
    } else {
        Some(fields.session_verification.clone())
    };
    let socket = if fields.socket_connection_id.as_str().is_empty() {
        None
    } else {
        Some(fields.socket_connection_id.clone())
    };
    let alias = if fields.encryption_public_key_alias.as_str().is_empty() {
        None
    } else {
        Some(fields.encryption_public_key_alias.clone())
    };
    let msg = Message {
        id: message_id,
        session_id: fields.session_id.clone(),
        session_id_verification: verification,
        socket_connection_id: socket,
        encryption_public_key_alias: alias,
        text,
        file_name: Some(disk_filename),
        date_sent,
        has_file: true,
        file_size_bytes: Some(file_len),
        is_notification: false,
        date_sent_epoch: epoch,
    };
    proof {
        assert(msg.deep_view() == upload_message(mid_v, *fields, disk_v, ds_v, epoch, file_len));
    }
    reg.insert_message(msg);
    let ghost stats_mid = reg@.stats;
    record_message_stats(reg, text_len, Some(file_len));
    let reload = local.broadcast_to_session(
        fields.session_id.as_str(),
        &WsNotification::RequestReloadMessage,
    );
    proof {
        let (y, m, d, c): (i32, u32, u32, Seq<char>) = choose|
            y: i32,
            m: u32,
            d: u32,
            c: Seq<char>,
        |
            1 <= m <= 12 && 1 <= d <= 31 && reg@.stats == #[trigger] message_recorded_all(
                stats_mid,
                y,
                m,
                d,
                c,
                text_len,
                Some(file_len),
            );
        assert(stats_mid == pre.stats);
        assert(upload_commit_post(
            pre,
            reg@,
            local@,
            *fields,
            mid_v,
            disk_v,
            file_len,
            ds_v,
            epoch,
            y,
            m,
            d,
            c,
            reload.deep_view(),
        ));
    }
    reload
}

/// How the checks before a command-line upload ended.
pub enum CliUploadCheck {
    /// The named session does not exist.
    MissingSession,
    /// The session has no connected client to receive the file.
    NoClients,
    /// The upload may proceed, under this fresh message identifier.
    Accepted(String),
}

/// Checks a command-line upload: the session must exist and have at least
/// one device attached.
pub fn cli_check(reg: &Registry, session_id: &str) -> (r: CliUploadCheck)
    ensures
        (r is MissingSession) == !reg@.sessions.contains_key(session_id@),
        (r is NoClients) == (reg@.sessions.contains_key(session_id@) && reg@.sessions[
            session_id@
        ].connection_ids.len() == 0),
        (r is Accepted) == (reg@.sessions.contains_key(session_id@) && reg@.sessions[
            session_id@
        ].connection_ids.len() > 0),
        r matches CliUploadCheck::Accepted(mid) ==> mid@.len() == 32,
{
    let session = match reg.get_session_by_id(session_id) {
        Some(s) => s,
        None => {
            return CliUploadCheck::MissingSession;
        },
    };
    if session.connection_ids.len() == 0 {
        proof {
            assert(session.deep_view().connection_ids.len() == session.connection_ids@.len());
        }
        return CliUploadCheck::NoClients;
    }
    proof {
        assert(session.deep_view().connection_ids.len() == session.connection_ids@.len());
    }
    CliUploadCheck::Accepted(new_guid())
}

/// Opens a throwaway session for a quick upload: fresh identifier and
/// secret, no devices, with the session counter ticked once.
pub fn quick_create_session(reg: &mut Registry) -> (r: (String, String))
    requires
        forall|id: i64|
            crate::stats::record_fits(
                old(reg)@.stats,
                id,
                crate::models::RecordType::Session,
                1,
            ),
    ensures
        r.0@.len() == 32,
        r.1@.len() == 32,
        exists|created: Seq<char>, year: i32, month: u32, day: u32, stamp: Seq<char>|
            #![trigger crate::handlers::fresh_session(r.0@, r.1@, created), crate::stats::recorded_all(
                old(reg)@.stats,
                year,
                month,
                day,
                stamp,
                crate::models::RecordType::Session,
                1,
            )]
            1 <= month <= 12 && 1 <= day <= 31 && final(reg)@ == (RegistryView {
                sessions: old(reg)@.sessions.insert(
                    r.0@,
                    crate::handlers::fresh_session(r.0@, r.1@, created),
                ),
                stats: crate::stats::recorded_all(
                    old(reg)@.stats,
                    year,
                    month,
                    day,
                    stamp,
                    crate::models::RecordType::Session,
                    1,
                ),
                ..old(reg)@
            }),
{
    let ghost pre = old(reg)@;
    let id = new_guid();
    let id2 = new_guid();
    let created = now_iso();
    let ghost created_v = created@;
    let session = crate::models::Session {
        id: id.clone(),
        id_verification: id2.clone(),
        date_created: created,
        is_lite_session: false,
        cleanup_job_id: None,
        connection_ids: Vec::new(),
    };
    proof {
        assert(session.connection_ids.deep_view() =~= Seq::<Seq<char>>::empty());
        assert(session.deep_view() == crate::handlers::fresh_session(id@, id2@, created_v));
    }
    reg.add_or_update_session(session);
    let ghost stats_mid = reg@.stats;
    crate::stats::record_stats(reg, crate::models::RecordType::Session, 1);
    let result = (id, id2);
    proof {
        let (y, m, d, c): (i32, u32, u32, Seq<char>) = choose|
            y: i32,
            m: u32,
            d: u32,
            c: Seq<char>,
        |
            1 <= m <= 12 && 1 <= d <= 31 && reg@.stats == #[trigger] crate::stats::recorded_all(
                stats_mid,
                y,
                m,
                d,
                c,
                crate::models::RecordType::Session,
                1,
            );
        assert(stats_mid == pre.stats);
        assert(1 <= m <= 12 && 1 <= d <= 31 && reg@ == (RegistryView {
            sessions: pre.sessions.insert(
                result.0@,
                crate::handlers::fresh_session(result.0@, result.1@, created_v),
            ),
            stats: crate::stats::recorded_all(
                pre.stats,
                y,
                m,
                d,
                c,
                crate::models::RecordType::Session,
                1,
            ),
            ..pre
        }));
    }
    result
}

} // verus!
