//! The durable registry: session, message and public-key rows, the
//! share-token bindings in both directions, the connection reverse index and
//! the usage-counter rows, modelled as one in-memory value.
//!
//! Every operation states exactly how it changes the registry's view; the
//! surrounding program decides where the value lives and how it persists.

use vstd::prelude::*;

use crate::keyed::{I64Map, StrMap};
use crate::models::{
    Message, MessageView, PublicKey, PublicKeyView, Session, SessionMetaByConnectionId,
    SessionShareToken, SessionView, ShareToken, ShareTokenView, Stats, StatsView,
};
use crate::text::str_eq;

verus! {

/// The session after a connection joined: its identifier is appended to the
/// join-order list unless already present.
pub open spec fn with_connection(s: SessionView, cid: Seq<char>) -> SessionView {
    if s.connection_ids.contains(cid) {
        s
    } else {
        SessionView { connection_ids: s.connection_ids.push(cid), ..s }
    }
}

/// The join-order list with every occurrence of one identifier dropped.
pub open spec fn drop_id(ids: Seq<Seq<char>>, cid: Seq<char>) -> Seq<Seq<char>>
    decreases ids.len(),
{
    if ids.len() == 0 {
        Seq::empty()
    } else {
        drop_id(ids.drop_last(), cid) + (if ids.last() == cid {
            Seq::<Seq<char>>::empty()
        } else {
            seq![ids.last()]
        })
    }
}

/// The session after a connection left: its identifier is dropped from the
/// join-order list.
pub open spec fn without_connection(s: SessionView, cid: Seq<char>) -> SessionView {
    SessionView { connection_ids: drop_id(s.connection_ids, cid), ..s }
}

/// Whether a stored message answers a poll for one session after a cursor.
pub open spec fn message_matches(m: MessageView, sid: Seq<char>, from: i64) -> bool {
    m.session_id == sid && m.date_sent_epoch > from
}

/// The matching messages, newest insertion first.
pub open spec fn messages_newest_first(
    msgs: Seq<MessageView>,
    sid: Seq<char>,
    from: i64,
) -> Seq<MessageView>
    decreases msgs.len(),
{
    if msgs.len() == 0 {
        Seq::empty()
    } else {
        messages_newest_first(msgs.drop_first(), sid, from) + (if message_matches(
            msgs.first(),
            sid,
            from,
        ) {
            seq![msgs.first()]
        } else {
            Seq::<MessageView>::empty()
        })
    }
}

/// The stored messages with one session's rows deleted, order kept.
pub open spec fn messages_without_session(
    msgs: Seq<MessageView>,
    sid: Seq<char>,
) -> Seq<MessageView>
    decreases msgs.len(),
{
    if msgs.len() == 0 {
        Seq::empty()
    } else {
        messages_without_session(msgs.drop_last(), sid) + (if msgs.last().session_id == sid {
            Seq::<MessageView>::empty()
        } else {
            seq![msgs.last()]
        })
    }
}

/// The stored public keys with one session's rows deleted, order kept.
pub open spec fn keys_without_session(
    keys: Seq<PublicKeyView>,
    sid: Seq<char>,
) -> Seq<PublicKeyView>
    decreases keys.len(),
{
    if keys.len() == 0 {
        Seq::empty()
    } else {
        keys_without_session(keys.drop_last(), sid) + (if keys.last().session_id == sid {
            Seq::<PublicKeyView>::empty()
        } else {
            seq![keys.last()]
        })
    }
}

/// The first stored message carrying the given identifier, scanning in
/// storage order.
pub open spec fn find_message(msgs: Seq<MessageView>, mid: Seq<char>) -> Option<MessageView>
    decreases msgs.len(),
{
    if msgs.len() == 0 {
        None
    } else if msgs.first().id == mid {
        Some(msgs.first())
    } else {
        find_message(msgs.drop_first(), mid)
    }
}

/// The first stored public key carrying the given identifier, scanning in
/// storage order.
pub open spec fn find_key(keys: Seq<PublicKeyView>, kid: Seq<char>) -> Option<PublicKeyView>
    decreases keys.len(),
{
    if keys.len() == 0 {
        None
    } else if keys.first().id == kid {
        Some(keys.first())
    } else {
        find_key(keys.drop_first(), kid)
    }
}

/// The abstract state of the whole registry.
pub struct RegistryView {
    pub sessions: Map<Seq<char>, SessionView>,
    pub messages: Seq<MessageView>,
    pub public_keys: Seq<PublicKeyView>,
    pub tokens: Map<i64, ShareTokenView>,
    pub session_tokens: Map<Seq<char>, i64>,
    pub connection_index: Map<Seq<char>, Seq<char>>,
    pub stats: Map<i64, StatsView>,
}

/// The durable store: all rows and indices the core reads and writes.
pub struct Registry {
    sessions: StrMap<Session>,
    messages: Vec<Message>,
    public_keys: Vec<PublicKey>,
    tokens: I64Map<ShareToken>,
    session_tokens: StrMap<SessionShareToken>,
    connection_index: StrMap<SessionMetaByConnectionId>,
    stats: I64Map<Stats>,
}

impl View for Registry {
    type V = RegistryView;

    closed spec fn view(&self) -> RegistryView {
        RegistryView {
            sessions: self.sessions@,
            messages: self.messages.deep_view(),
            public_keys: self.public_keys.deep_view(),
            tokens: self.tokens@,
            session_tokens: self.session_tokens@,
            connection_index: self.connection_index@,
            stats: self.stats@,
        }
    }
}

impl Registry {
    /// An empty store.
    pub fn new() -> (r: Self)
        ensures
            r@.sessions == Map::<Seq<char>, SessionView>::empty(),
            r@.messages == Seq::<MessageView>::empty(),
            r@.public_keys == Seq::<PublicKeyView>::empty(),
            r@.tokens == Map::<i64, ShareTokenView>::empty(),
            r@.session_tokens == Map::<Seq<char>, i64>::empty(),
            r@.connection_index == Map::<Seq<char>, Seq<char>>::empty(),
            r@.stats == Map::<i64, StatsView>::empty(),
    {
        let r = Registry {
            sessions: StrMap::new(),
            messages: Vec::new(),
            public_keys: Vec::new(),
            tokens: I64Map::new(),
            session_tokens: StrMap::new(),
            connection_index: StrMap::new(),
            stats: I64Map::new(),
        };
        proof {
            assert(r@.messages =~= Seq::<MessageView>::empty());
            assert(r@.public_keys =~= Seq::<PublicKeyView>::empty());
        }
        r
    }

    // --- Sessions ---

    /// The session row with the given identifier, if any.
    pub fn get_session_by_id(&self, id: &str) -> (r: Option<Session>)
        ensures
            match r {
                Some(s) => self@.sessions.contains_key(id@) && s.deep_view() == self@.sessions[id@],
                None => !self@.sessions.contains_key(id@),
            },
    {
        match self.sessions.get(id) {
            Some(s) => Some(s.clone()),
            None => None,
        }
    }

    /// The session row, handed out only when the verification secret matches.
    pub fn get_session(&self, id: &str, id2: &str) -> (r: Option<Session>)
        ensures
            match r {
                Some(s) => self@.sessions.contains_key(id@) && s.deep_view() == self@.sessions[id@]
                    && self@.sessions[id@].id_verification == id2@,
                None => !self@.sessions.contains_key(id@) || self@.sessions[id@].id_verification
                    != id2@,
            },
    {
        match self.get_session_by_id(id) {
            Some(s) => {
                if str_eq(s.id_verification.as_str(), id2) {
                    Some(s)
                } else {
                    None
                }
            },
            None => None,
        }
    }

    /// Writes the session row under its own identifier.
    pub fn add_or_update_session(&mut self, session: Session)
        ensures
            final(self)@ == (RegistryView {
                sessions: old(self)@.sessions.insert(
                    session.id.deep_view(),
                    session.deep_view(),
                ),
                ..old(self)@
            }),
    {
        let key = session.id.clone();
        self.sessions.insert(key, session);
    }

    /// Deletes the session row, if present.
    pub fn delete_session(&mut self, id: &str)
        ensures
            final(self)@ == (RegistryView { sessions: old(self)@.sessions.remove(id@), ..old(
                self,
            )@ }),
    {
        self.sessions.remove(id);
    }

    // --- Messages ---

    /// The first stored message with the given identifier, if any.
    pub fn get_message_by_id(&self, id: &str) -> (r: Option<Message>)
        ensures
            match r {
                Some(m) => find_message(self@.messages, id@) == Some(m.deep_view()),
                None => find_message(self@.messages, id@) is None,
            },
    {
        let n = self.messages.len();
        proof {
            assert(self@.messages.len() == self.messages@.len());
            assert(self@.messages.skip(0) =~= self@.messages);
        }
        let mut i: usize = 0;
        while i < n
            invariant
                i <= n,
                n == self.messages@.len(),
                self@.messages == self.messages.deep_view(),
                self@.messages.len() == n,
                find_message(self@.messages, id@) == find_message(
                    self@.messages.skip(i as int),
                    id@,
                ),
            decreases n - i,
        {
            proof {
                assert(self@.messages.skip(i as int).drop_first() =~= self@.messages.skip(
                    i as int + 1,
                ));
                assert(self@.messages.skip(i as int).first() == self@.messages[i as int]);
            }
            let m = &self.messages[i];
            if str_eq(m.id.as_str(), id) {
                proof {
                    assert(find_message(self@.messages, id@) == Some(self@.messages[i as int]));
                }
                return Some(m.clone());
            }
            i += 1;
        }
        proof {
            assert(self@.messages.skip(n as int) =~= Seq::<MessageView>::empty());
        }
        None
    }

    /// The messages of one session newer than the cursor, newest first.
    pub fn get_messages_by_session(&self, session_id: &str, from_epoch: i64) -> (r: Vec<Message>)
        ensures
            r.deep_view() == messages_newest_first(self@.messages, session_id@, from_epoch),
    {
        let n = self.messages.len();
        proof {
            assert(self@.messages.len() == self.messages@.len());
            assert(self@.messages.skip(n as int) =~= Seq::<MessageView>::empty());
        }
        let mut out: Vec<Message> = Vec::new();
        let mut i: usize = n;
        while i > 0
            invariant
                i <= n,
                n == self.messages@.len(),
                self@.messages == self.messages.deep_view(),
                self@.messages.len() == n,
                out.deep_view() == messages_newest_first(
                    self@.messages.skip(i as int),
                    session_id@,
                    from_epoch,
                ),
            decreases i,
        {
            i -= 1;
            let m = &self.messages[i];
            let ghost pre_out = out.deep_view();
            let matches = str_eq(m.session_id.as_str(), session_id) && m.date_sent_epoch
                > from_epoch;
            if matches {
                out.push(m.clone());
            }
            proof {
                let tail = self@.messages.skip(i as int);
                assert(tail.drop_first() =~= self@.messages.skip(i as int + 1));
                assert(tail.first() == self@.messages[i as int]);
                if matches {
                    assert(out.deep_view() =~= pre_out.push(self@.messages[i as int]));
                    assert(out.deep_view() =~= messages_newest_first(
                        tail,
                        session_id@,
                        from_epoch,
                    ));
                } else {
                    assert(out.deep_view() =~= messages_newest_first(
                        tail,
                        session_id@,
                        from_epoch,
                    ));
                }
            }
        }
        proof {
            assert(self@.messages.skip(0) =~= self@.messages);
        }
        out
    }

    /// Appends one message row.
    pub fn insert_message(&mut self, msg: Message)
        ensures
            final(self)@ == (RegistryView {
                messages: old(self)@.messages.push(msg.deep_view()),
                ..old(self)@
            }),
    {
        let ghost pre = self.messages.deep_view();
        let ghost m = msg.deep_view();
        self.messages.push(msg);
        proof {
            assert(self.messages.deep_view() =~= pre.push(m));
        }
    }

    /// Deletes every message of one session; returns how many went.
    pub fn delete_all_messages_by_session(&mut self, session_id: &str) -> (r: u64)
        ensures
            final(self)@ == (RegistryView {
                messages: messages_without_session(old(self)@.messages, session_id@),
                ..old(self)@
            }),
            r == old(self)@.messages.len() - final(self)@.messages.len(),
    {
        let ghost all = self.messages.deep_view();
        let n = self.messages.len();
        proof {
            assert(all.len() == self.messages@.len());
        }
        let mut kept: Vec<Message> = Vec::new();
        let mut removed: u64 = 0;
        let mut i: usize = 0;
        while i < n
            invariant
                i <= n,
                n == all.len(),
                self.messages.deep_view() == all,
                self.messages@.len() == n,
                kept.deep_view() == messages_without_session(all.take(i as int), session_id@),
                removed == i - kept.deep_view().len(),
            decreases n - i,
        {
            let m = &self.messages[i];
            let ghost pre_kept = kept.deep_view();
            if str_eq(m.session_id.as_str(), session_id) {
                removed += 1;
            } else {
                kept.push(m.clone());
            }
            proof {
                let t = all.take(i as int + 1);
                assert(t.drop_last() =~= all.take(i as int));
                assert(t.last() == all[i as int]);
                if all[i as int].session_id == session_id@ {
                    assert(kept.deep_view() =~= messages_without_session(t, session_id@));
                } else {
                    assert(kept.deep_view() =~= pre_kept.push(all[i as int]));
                    assert(kept.deep_view() =~= messages_without_session(t, session_id@));
                }
            }
            i += 1;
        }
        proof {
            assert(all.take(n as int) =~= all);
        }
        self.messages = kept;
        removed
    }

    // --- Connection tracking ---

    /// Appends the connection to the session's join-order list, if the
    /// session exists and the connection is not yet listed.
    pub fn add_connection_id(&mut self, session_id: &str, connection_id: &str) -> (r: bool)
        ensures
            r == old(self)@.sessions.contains_key(session_id@),
            r ==> final(self)@ == (RegistryView {
                sessions: old(self)@.sessions.insert(
                    session_id@,
                    with_connection(old(self)@.sessions[session_id@], connection_id@),
                ),
                ..old(self)@
            }),
            !r ==> final(self)@ == old(self)@,
    {
        let mut session = match self.get_session_by_id(session_id) {
            Some(s) => s,
            None => {
                return false;
            },
        };
        let ghost pre = session.deep_view();
        if !contains_str(&session.connection_ids, connection_id) {
            let mut cid = String::new();
            cid.append(connection_id);
            let ghost pre_ids = session.connection_ids.deep_view();
            session.connection_ids.push(cid);
            proof {
                assert(session.connection_ids.deep_view() =~= pre_ids.push(connection_id@));
            }
        }
        proof {
            assert(session.deep_view() == with_connection(pre, connection_id@));
        }
        let mut key = String::new();
        key.append(session_id);
        self.sessions.insert(key, session);
        true
    }

    /// Registers the connection durably: in the session's join-order list
    /// and in the reverse index.
    pub fn track_client(&mut self, session_id: &str, connection_id: &str) -> (r: bool)
        ensures
            r == old(self)@.sessions.contains_key(session_id@),
            r ==> final(self)@ == (RegistryView {
                sessions: old(self)@.sessions.insert(
                    session_id@,
                    with_connection(old(self)@.sessions[session_id@], connection_id@),
                ),
                connection_index: old(self)@.connection_index.insert(connection_id@, session_id@),
                ..old(self)@
            }),
            !r ==> final(self)@ == old(self)@,
    {
        if !self.add_connection_id(session_id, connection_id) {
            return false;
        }
        let mut cid = String::new();
        cid.append(connection_id);
        let mut sid = String::new();
        sid.append(session_id);
        self.connection_index.insert(cid, SessionMetaByConnectionId { session_id: sid });
        true
    }

    /// Unregisters the connection: drops it from its session's join-order
    /// list and from the reverse index, and names the session it left.
    pub fn untrack_client_return_session_id(&mut self, connection_id: &str) -> (r: Option<String>)
        ensures
            match r {
                Some(sid) => {
                    let s = old(self)@.connection_index[connection_id@];
                    &&& old(self)@.connection_index.contains_key(connection_id@)
                    &&& sid@ == s
                    &&& old(self)@.sessions.contains_key(s)
                    &&& final(self)@ == (RegistryView {
                        sessions: old(self)@.sessions.insert(
                            s,
                            without_connection(old(self)@.sessions[s], connection_id@),
                        ),
                        connection_index: old(self)@.connection_index.remove(connection_id@),
                        ..old(self)@
                    })
                },
                None => final(self)@ == old(self)@ && (!old(self)@.connection_index.contains_key(
                    connection_id@,
                ) || !old(self)@.sessions.contains_key(
                    old(self)@.connection_index[connection_id@],
                )),
            },
    {
        let sid = match self.connection_index.get(connection_id) {
            Some(meta) => meta.session_id.clone(),
            None => {
                return None;
            },
        };
        let mut session = match self.get_session_by_id(sid.as_str()) {
            Some(s) => s,
            None => {
                return None;
            },
        };
        let ghost pre = session.deep_view();
        let mut kept: Vec<String> = Vec::new();
        let n = session.connection_ids.len();
        proof {
            assert(pre.connection_ids.len() == session.connection_ids@.len());
        }
        let mut i: usize = 0;
        while i < n
            invariant
                i <= n,
                n == session.connection_ids@.len(),
                session.connection_ids.deep_view() == pre.connection_ids,
                pre.connection_ids.len() == n,
                kept.deep_view() == drop_id(pre.connection_ids.take(i as int), connection_id@),
            decreases n - i,
        {
            let c = &session.connection_ids[i];
            let ghost pre_kept = kept.deep_view();
            if !str_eq(c.as_str(), connection_id) {
                kept.push(c.clone());
            }
            proof {
                let t = pre.connection_ids.take(i as int + 1);
                assert(t.drop_last() =~= pre.connection_ids.take(i as int));
                assert(t.last() == pre.connection_ids[i as int]);
                if pre.connection_ids[i as int] == connection_id@ {
                    assert(kept.deep_view() =~= drop_id(t, connection_id@));
                } else {
                    assert(kept.deep_view() =~= pre_kept.push(pre.connection_ids[i as int]));
                    assert(kept.deep_view() =~= drop_id(t, connection_id@));
                }
            }
            i += 1;
        }
        proof {
            assert(pre.connection_ids.take(n as int) =~= pre.connection_ids);
        }
        session.connection_ids = kept;
        proof {
            assert(session.deep_view() == without_connection(pre, connection_id@));
        }
        self.sessions.insert(sid.clone(), session);
        self.connection_index.remove(connection_id);
        Some(sid)
    }

    /// Drops one connection's reverse-index entry, if present.
    pub fn remove_connection_entry(&mut self, connection_id: &str)
        ensures
            final(self)@ == (RegistryView {
                connection_index: old(self)@.connection_index.remove(connection_id@),
                ..old(self)@
            }),
    {
        self.connection_index.remove(connection_id);
    }

    /// The join-order list of one session; empty when the session is absent.
    pub fn find_client(&self, session_id: &str) -> (r: Vec<String>)
        ensures
            r.deep_view() == if self@.sessions.contains_key(session_id@) {
                self@.sessions[session_id@].connection_ids
            } else {
                Seq::<Seq<char>>::empty()
            },
    {
        match self.get_session_by_id(session_id) {
            Some(s) => s.connection_ids,
            None => {
                let r: Vec<String> = Vec::new();
                proof {
                    assert(r.deep_view() =~= Seq::<Seq<char>>::empty());
                }
                r
            },
        }
    }

    // --- Share-token bindings ---

    /// The forward binding of a numeric token, if live.
    pub fn get_share_token(&self, token: i64) -> (r: Option<ShareToken>)
        ensures
            match r {
                Some(t) => self@.tokens.contains_key(token) && t.deep_view() == self@.tokens[token],
                None => !self@.tokens.contains_key(token),
            },
    {
        match self.tokens.get(token) {
            Some(t) => Some(t.clone()),
            None => None,
        }
    }

    /// Whether a numeric token is currently bound.
    pub fn token_exists(&self, token: i64) -> (r: bool)
        ensures
            r == self@.tokens.contains_key(token),
    {
        self.tokens.contains_key(token)
    }

    /// The live token of a session, if one is outstanding.
    pub fn get_session_token(&self, session_id: &str) -> (r: Option<i64>)
        ensures
            match r {
                Some(t) => self@.session_tokens.contains_key(session_id@) && t
                    == self@.session_tokens[session_id@],
                None => !self@.session_tokens.contains_key(session_id@),
            },
    {
        match self.session_tokens.get(session_id) {
            Some(t) => Some(t.token),
            None => None,
        }
    }

    /// Writes the bidirectional binding of a fresh token.
    pub fn bind_token(&mut self, token: i64, session_id: &str)
        ensures
            final(self)@ == (RegistryView {
                tokens: old(self)@.tokens.insert(
                    token,
                    ShareTokenView { id: token, session_id: session_id@ },
                ),
                session_tokens: old(self)@.session_tokens.insert(session_id@, token),
                ..old(self)@
            }),
    {
        let mut sid = String::new();
        sid.append(session_id);
        self.tokens.insert(token, ShareToken { id: token, session_id: sid });
        let mut sid2 = String::new();
        sid2.append(session_id);
        self.session_tokens.insert(sid2, SessionShareToken { token });
    }

    /// Drops the forward binding of a numeric token.
    pub fn remove_share_token(&mut self, token: i64)
        ensures
            final(self)@ == (RegistryView { tokens: old(self)@.tokens.remove(token), ..old(
                self,
            )@ }),
    {
        self.tokens.remove(token);
    }

    /// Drops the reverse binding of a session's token.
    pub fn remove_session_token(&mut self, session_id: &str)
        ensures
            final(self)@ == (RegistryView {
                session_tokens: old(self)@.session_tokens.remove(session_id@),
                ..old(self)@
            }),
    {
        self.session_tokens.remove(session_id);
    }

    // --- Public keys ---

    /// Appends one public-key row.
    pub fn insert_public_key(&mut self, key: PublicKey)
        ensures
            final(self)@ == (RegistryView {
                public_keys: old(self)@.public_keys.push(key.deep_view()),
                ..old(self)@
            }),
    {
        let ghost pre = self.public_keys.deep_view();
        let ghost k = key.deep_view();
        self.public_keys.push(key);
        proof {
            assert(self.public_keys.deep_view() =~= pre.push(k));
        }
    }

    /// The first stored public key with the given identifier, if any.
    pub fn get_public_key_by_id(&self, id: &str) -> (r: Option<PublicKey>)
        ensures
            match r {
                Some(k) => find_key(self@.public_keys, id@) == Some(k.deep_view()),
                None => find_key(self@.public_keys, id@) is None,
            },
    {
        let n = self.public_keys.len();
        proof {
            assert(self@.public_keys.len() == self.public_keys@.len());
            assert(self@.public_keys.skip(0) =~= self@.public_keys);
        }
        let mut i: usize = 0;
        while i < n
            invariant
                i <= n,
                n == self.public_keys@.len(),
                self@.public_keys == self.public_keys.deep_view(),
                self@.public_keys.len() == n,
                find_key(self@.public_keys, id@) == find_key(
                    self@.public_keys.skip(i as int),
                    id@,
                ),
            decreases n - i,
        {
            proof {
                assert(self@.public_keys.skip(i as int).drop_first() =~= self@.public_keys.skip(
                    i as int + 1,
                ));
                assert(self@.public_keys.skip(i as int).first() == self@.public_keys[i as int]);
            }
            let k = &self.public_keys[i];
            if str_eq(k.id.as_str(), id) {
                proof {
                    assert(find_key(self@.public_keys, id@) == Some(self@.public_keys[i as int]));
                }
                return Some(k.clone());
            }
            i += 1;
        }
        proof {
            assert(self@.public_keys.skip(n as int) =~= Seq::<PublicKeyView>::empty());
        }
        None
    }

    /// Deletes every public key of one session.
    pub fn delete_public_keys_by_session(&mut self, session_id: &str)
        ensures
            final(self)@ == (RegistryView {
                public_keys: keys_without_session(old(self)@.public_keys, session_id@),
                ..old(self)@
            }),
    {
        let ghost all = self.public_keys.deep_view();
        let n = self.public_keys.len();
        proof {
            assert(all.len() == self.public_keys@.len());
        }
        let mut kept: Vec<PublicKey> = Vec::new();
        let mut i: usize = 0;
        while i < n
            invariant
                i <= n,
                n == all.len(),
                self.public_keys.deep_view() == all,
                self.public_keys@.len() == n,
                kept.deep_view() == keys_without_session(all.take(i as int), session_id@),
            decreases n - i,
        {
            let k = &self.public_keys[i];
            let ghost pre_kept = kept.deep_view();
            if !str_eq(k.session_id.as_str(), session_id) {
                kept.push(k.clone());
            }
            proof {
                let t = all.take(i as int + 1);
                assert(t.drop_last() =~= all.take(i as int));
                assert(t.last() == all[i as int]);
                if all[i as int].session_id == session_id@ {
                    assert(kept.deep_view() =~= keys_without_session(t, session_id@));
                } else {
                    assert(kept.deep_view() =~= pre_kept.push(all[i as int]));
                    assert(kept.deep_view() =~= keys_without_session(t, session_id@));
                }
            }
            i += 1;
        }
        proof {
            assert(all.take(n as int) =~= all);
        }
        self.public_keys = kept;
    }

    // --- Usage counters ---

    /// The stored rollup bucket with the given composite id, if any.
    pub fn stats_row(&self, id: i64) -> (r: Option<Stats>)
        ensures
            match r {
                Some(s) => self@.stats.contains_key(id) && s.deep_view() == self@.stats[id],
                None => !self@.stats.contains_key(id),
            },
    {
        match self.stats.get(id) {
            Some(s) => Some(s.clone()),
            None => None,
        }
    }

    /// The composite ids of all stored rollup buckets, without duplicates.
    pub fn stats_ids(&self) -> (r: Vec<i64>)
        ensures
            forall|k: i64| r@.contains(k) <==> self@.stats.contains_key(k),
            forall|a: int, b: int| 0 <= a < b < r@.len() ==> r@[a] != r@[b],
    {
        self.stats.keys()
    }

    /// Commits a rollup bucket only if nobody raced it: the write lands when
    /// the bucket is new, or when the stored version is exactly one behind.
    pub fn upsert_stats_guarded(&mut self, row: Stats) -> (r: bool)
        ensures
            r == (!old(self)@.stats.contains_key(row.id) || old(self)@.stats[row.id].version
                == row.version - 1),
            r ==> final(self)@ == (RegistryView {
                stats: old(self)@.stats.insert(row.id, row.deep_view()),
                ..old(self)@
            }),
            !r ==> final(self)@ == old(self)@,
    {
        let fresh = match self.stats.get(row.id) {
            Some(stored) => row.version > i64::MIN && stored.version == row.version - 1,
            None => true,
        };
        if fresh {
            self.stats.insert(row.id, row);
            true
        } else {
            false
        }
    }
}

/// Whether the vector holds the given characters as one of its entries.
pub fn contains_str(v: &Vec<String>, x: &str) -> (r: bool)
    ensures
        r == v.deep_view().contains(x@),
{
    let n = v.len();
    proof {
        assert(v.deep_view().len() == v@.len());
    }
    let mut i: usize = 0;
    while i < n
        invariant
            i <= n,
            n == v@.len(),
            v.deep_view().len() == n,
            forall|j: int| 0 <= j < i ==> v.deep_view()[j] != x@,
        decreases n - i,
    {
        if str_eq(v[i].as_str(), x) {
            proof {
                assert(v.deep_view()[i as int] == x@);
            }
            return true;
        }
        i += 1;
    }
    proof {
        if v.deep_view().contains(x@) {
            let j = choose|j: int| 0 <= j < v.deep_view().len() && v.deep_view()[j] == x@;
            assert(v.deep_view()[j] != x@);
        }
    }
    false
}

} // verus!
