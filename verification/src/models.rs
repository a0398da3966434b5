//! The data model: sessions, messages, public keys, share tokens and usage
//! counters, each with an abstract view for contracts.

use vstd::prelude::*;

verus! {

/// A durable session row: a shareable identifier/secret pair scoping a set
/// of devices, messages and keys.
pub struct Session {
    pub id: String,
    pub id_verification: String,
    pub date_created: String,
    pub is_lite_session: bool,
    pub cleanup_job_id: Option<String>,
    pub connection_ids: Vec<String>,
}

/// The abstract value of a [`Session`].
pub struct SessionView {
    pub id: Seq<char>,
    pub id_verification: Seq<char>,
    pub date_created: Seq<char>,
    pub is_lite_session: bool,
    pub cleanup_job_id: Option<Seq<char>>,
    pub connection_ids: Seq<Seq<char>>,
}

impl DeepView for Session {
    type V = SessionView;

    open spec fn deep_view(&self) -> SessionView {
        SessionView {
            id: self.id.deep_view(),
            id_verification: self.id_verification.deep_view(),
            date_created: self.date_created.deep_view(),
            is_lite_session: self.is_lite_session,
            cleanup_job_id: self.cleanup_job_id.deep_view(),
            connection_ids: self.connection_ids.deep_view(),
        }
    }
}

impl Clone for Session {
    fn clone(&self) -> (r: Self)
        ensures
            r.deep_view() == self.deep_view(),
    {
        let r = Session {
            id: self.id.clone(),
            id_verification: self.id_verification.clone(),
            date_created: self.date_created.clone(),
            is_lite_session: self.is_lite_session,
            cleanup_job_id: self.cleanup_job_id.clone(),
            connection_ids: self.connection_ids.clone(),
        };
        proof {
            assert(r.connection_ids.deep_view() =~= self.connection_ids.deep_view());
            assert(r.cleanup_job_id.deep_view() == self.cleanup_job_id.deep_view());
        }
        r
    }
}

/// A durable message row, immutable once inserted.
pub struct Message {
    pub id: String,
    pub session_id: String,
    pub session_id_verification: Option<String>,
    pub socket_connection_id: Option<String>,
    pub encryption_public_key_alias: Option<String>,
    pub text: String,
    pub file_name: Option<String>,
    pub date_sent: String,
    pub has_file: bool,
    pub file_size_bytes: Option<i64>,
    pub is_notification: bool,
    pub date_sent_epoch: i64,
}

/// The abstract value of a [`Message`].
pub struct MessageView {
    pub id: Seq<char>,
    pub session_id: Seq<char>,
    pub session_id_verification: Option<Seq<char>>,
    pub socket_connection_id: Option<Seq<char>>,
    pub encryption_public_key_alias: Option<Seq<char>>,
    pub text: Seq<char>,
    pub file_name: Option<Seq<char>>,
    pub date_sent: Seq<char>,
    pub has_file: bool,
    pub file_size_bytes: Option<i64>,
    pub is_notification: bool,
    pub date_sent_epoch: i64,
}

impl DeepView for Message {
    type V = MessageView;

    open spec fn deep_view(&self) -> MessageView {
        MessageView {
            id: self.id.deep_view(),
            session_id: self.session_id.deep_view(),
            session_id_verification: self.session_id_verification.deep_view(),
            socket_connection_id: self.socket_connection_id.deep_view(),
            encryption_public_key_alias: self.encryption_public_key_alias.deep_view(),
            text: self.text.deep_view(),
            file_name: self.file_name.deep_view(),
            date_sent: self.date_sent.deep_view(),
            has_file: self.has_file,
            file_size_bytes: self.file_size_bytes,
            is_notification: self.is_notification,
            date_sent_epoch: self.date_sent_epoch,
        }
    }
}

impl Clone for Message {
    fn clone(&self) -> (r: Self)
        ensures
            r.deep_view() == self.deep_view(),
    {
        Message {
            id: self.id.clone(),
            session_id: self.session_id.clone(),
            session_id_verification: self.session_id_verification.clone(),
            socket_connection_id: self.socket_connection_id.clone(),
            encryption_public_key_alias: self.encryption_public_key_alias.clone(),
            text: self.text.clone(),
            file_name: self.file_name.clone(),
            date_sent: self.date_sent.clone(),
            has_file: self.has_file,
            file_size_bytes: self.file_size_bytes,
            is_notification: self.is_notification,
            date_sent_epoch: self.date_sent_epoch,
        }
    }
}

/// A durable public-key row: one JWK per alias per session.
pub struct PublicKey {
    pub id: String,
    pub session_id: String,
    pub alias: String,
    pub public_key_json: String,
    pub date_created: String,
}

/// The abstract value of a [`PublicKey`].
pub struct PublicKeyView {
    pub id: Seq<char>,
    pub session_id: Seq<char>,
    pub alias: Seq<char>,
    pub public_key_json: Seq<char>,
    pub date_created: Seq<char>,
}

impl DeepView for PublicKey {
    type V = PublicKeyView;

    open spec fn deep_view(&self) -> PublicKeyView {
        PublicKeyView {
            id: self.id.deep_view(),
            session_id: self.session_id.deep_view(),
            alias: self.alias.deep_view(),
            public_key_json: self.public_key_json.deep_view(),
            date_created: self.date_created.deep_view(),
        }
    }
}

impl Clone for PublicKey {
    fn clone(&self) -> (r: Self)
        ensures
            r.deep_view() == self.deep_view(),
    {
        PublicKey {
            id: self.id.clone(),
            session_id: self.session_id.clone(),
            alias: self.alias.clone(),
            public_key_json: self.public_key_json.clone(),
            date_created: self.date_created.clone(),
        }
    }
}

/// The forward share-token binding: a numeric token naming a session.
pub struct ShareToken {
    pub id: i64,
    pub session_id: String,
}

/// The abstract value of a [`ShareToken`].
pub struct ShareTokenView {
    pub id: i64,
    pub session_id: Seq<char>,
}

impl DeepView for ShareToken {
    type V = ShareTokenView;

    open spec fn deep_view(&self) -> ShareTokenView {
        ShareTokenView { id: self.id, session_id: self.session_id.deep_view() }
    }
}

impl Clone for ShareToken {
    fn clone(&self) -> (r: Self)
        ensures
            r.deep_view() == self.deep_view(),
    {
        ShareToken { id: self.id, session_id: self.session_id.clone() }
    }
}

/// The reverse share-token binding: the live token of a session.
pub struct SessionShareToken {
    pub token: i64,
}

impl DeepView for SessionShareToken {
    type V = i64;

    open spec fn deep_view(&self) -> i64 {
        self.token
    }
}

impl Clone for SessionShareToken {
    fn clone(&self) -> (r: Self)
        ensures
            r.deep_view() == self.deep_view(),
    {
        SessionShareToken { token: self.token }
    }
}

/// The reverse connection index: the session a connection is attached to.
pub struct SessionMetaByConnectionId {
    pub session_id: String,
}

impl DeepView for SessionMetaByConnectionId {
    type V = Seq<char>;

    open spec fn deep_view(&self) -> Seq<char> {
        self.session_id.deep_view()
    }
}

impl Clone for SessionMetaByConnectionId {
    fn clone(&self) -> (r: Self)
        ensures
            r.deep_view() == self.deep_view(),
    {
        SessionMetaByConnectionId { session_id: self.session_id.clone() }
    }
}

/// One usage-counter rollup bucket, guarded by an optimistic version.
pub struct Stats {
    pub id: i64,
    pub messages: i64,
    pub messages_size_bytes: i64,
    pub files: i64,
    pub files_size_bytes: i64,
    pub devices: i64,
    pub sessions: i64,
    pub version: i64,
    pub date_created_utc: String,
}

/// The abstract value of a [`Stats`] bucket.
pub struct StatsView {
    pub id: i64,
    pub messages: i64,
    pub messages_size_bytes: i64,
    pub files: i64,
    pub files_size_bytes: i64,
    pub devices: i64,
    pub sessions: i64,
    pub version: i64,
    pub date_created_utc: Seq<char>,
}

impl DeepView for Stats {
    type V = StatsView;

    open spec fn deep_view(&self) -> StatsView {
        StatsView {
            id: self.id,
            messages: self.messages,
            messages_size_bytes: self.messages_size_bytes,
            files: self.files,
            files_size_bytes: self.files_size_bytes,
            devices: self.devices,
            sessions: self.sessions,
            version: self.version,
            date_created_utc: self.date_created_utc.deep_view(),
        }
    }
}

impl Clone for Stats {
    fn clone(&self) -> (r: Self)
        ensures
            r.deep_view() == self.deep_view(),
    {
        Stats {
            id: self.id,
            messages: self.messages,
            messages_size_bytes: self.messages_size_bytes,
            files: self.files,
            files_size_bytes: self.files_size_bytes,
            devices: self.devices,
            sessions: self.sessions,
            version: self.version,
            date_created_utc: self.date_created_utc.clone(),
        }
    }
}

/// The month grouping of the usage report: one label and its day buckets.
pub struct StatMonth {
    pub month: String,
    pub days: Vec<Stats>,
}

/// The abstract value of a [`StatMonth`].
pub struct StatMonthView {
    pub month: Seq<char>,
    pub days: Seq<StatsView>,
}

impl DeepView for StatMonth {
    type V = StatMonthView;

    open spec fn deep_view(&self) -> StatMonthView {
        StatMonthView { month: self.month.deep_view(), days: self.days.deep_view() }
    }
}

/// The year grouping of the usage report: one label and its months.
pub struct StatYear {
    pub year: String,
    pub months: Vec<StatMonth>,
}

/// The abstract value of a [`StatYear`].
pub struct StatYearView {
    pub year: Seq<char>,
    pub months: Seq<StatMonthView>,
}

impl DeepView for StatYear {
    type V = StatYearView;

    open spec fn deep_view(&self) -> StatYearView {
        StatYearView { year: self.year.deep_view(), months: self.months.deep_view() }
    }
}

/// Which counter a plain usage event increments.
#[derive(Clone, Copy, PartialEq, Eq, Structural)]
pub enum RecordType {
    Session,
    Device,
    Message,
}

/// The process configuration, as plain values.
pub struct Config {
    pub port: u16,
    pub data_dir: String,
    pub db_path: String,
    pub upload_dir: String,
    pub max_upload_size_bytes: u64,
    pub max_upload_size_display: String,
    pub session_ttl_hours: u64,
}

} // verus!
