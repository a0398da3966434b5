//! Session teardown: one cascading, idempotent delete, reached from three
//! independent triggers (the TTL timer, an explicit erase, and the last
//! device disconnecting).

use vstd::prelude::*;

use crate::models::MessageView;
use crate::models::PublicKeyView;
use crate::registry::{
    keys_without_session, messages_without_session, Registry, RegistryView,
};

verus! {

/// The connection reverse index with a batch of identifiers dropped.
pub open spec fn index_without_ids(
    index: Map<Seq<char>, Seq<char>>,
    ids: Seq<Seq<char>>,
) -> Map<Seq<char>, Seq<char>>
    decreases ids.len(),
{
    if ids.len() == 0 {
        index
    } else {
        index_without_ids(index, ids.drop_last()).remove(ids.last())
    }
}

/// The registry after one session was torn down.  With the session row
/// already absent nothing changes; otherwise its messages, public keys,
/// tracked connections, outstanding share token and finally the row itself
/// are all deleted.
pub open spec fn teardown(reg: RegistryView, sid: Seq<char>) -> RegistryView {
    if !reg.sessions.contains_key(sid) {
        reg
    } else {
        let s = reg.sessions[sid];
        RegistryView {
            sessions: reg.sessions.remove(sid),
            messages: messages_without_session(reg.messages, sid),
            public_keys: keys_without_session(reg.public_keys, sid),
            connection_index: index_without_ids(reg.connection_index, s.connection_ids),
            tokens: if reg.session_tokens.contains_key(sid) {
                reg.tokens.remove(reg.session_tokens[sid])
            } else {
                reg.tokens
            },
            session_tokens: reg.session_tokens.remove(sid),
            stats: reg.stats,
        }
    }
}

/// Tears the session down and names the connections that were attached when
/// it began, so callers can still notify their sockets.  The caller owns the
/// removal of the session's upload directory, attempted in every case.
pub fn erase_session_return_connection_ids(reg: &mut Registry, session_id: &str) -> (r: Vec<
    String,
>)
    ensures
        final(reg)@ == teardown(old(reg)@, session_id@),
        r.deep_view() == if old(reg)@.sessions.contains_key(session_id@) {
            old(reg)@.sessions[session_id@].connection_ids
        } else {
            Seq::<Seq<char>>::empty()
        },
{
    let session = match reg.get_session_by_id(session_id) {
        Some(s) => s,
        None => {
            let r: Vec<String> = Vec::new();
            proof {
                assert(r.deep_view() =~= Seq::<Seq<char>>::empty());
            }
            return r;
        },
    };
    let _deleted = reg.delete_all_messages_by_session(session_id);
    reg.delete_public_keys_by_session(session_id);

    let ghost ids = session.deep_view().connection_ids;
    let ghost index0 = reg@.connection_index;
    let n = session.connection_ids.len();
    proof {
        assert(ids.len() == session.connection_ids@.len());
    }
    proof {
        assert(ids.take(0) =~= Seq::<Seq<char>>::empty());
    }
    let mut i: usize = 0;
    while i < n
        invariant
            i <= n,
            n == session.connection_ids@.len(),
            session.connection_ids.deep_view() == ids,
            ids.len() == n,
            reg@.connection_index == index_without_ids(index0, ids.take(i as int)),
            index0 == old(reg)@.connection_index,
            reg@.messages == messages_without_session(old(reg)@.messages, session_id@),
            reg@.public_keys == keys_without_session(old(reg)@.public_keys, session_id@),
            reg@.sessions == old(reg)@.sessions,
            reg@.tokens == old(reg)@.tokens,
            reg@.session_tokens == old(reg)@.session_tokens,
            reg@.stats == old(reg)@.stats,
        decreases n - i,
    {
        let cid = &session.connection_ids[i];
        reg.remove_connection_entry(cid.as_str());
        proof {
            let t = ids.take(i as int + 1);
            assert(t.drop_last() =~= ids.take(i as int));
            assert(t.last() == ids[i as int]);
        }
        i += 1;
    }
    proof {
        assert(ids.take(n as int) =~= ids);
    }

    let _had_token = crate::tokens::cancel_share_token(reg, session_id);
    reg.delete_session(session_id);
    proof {
        let pre = old(reg)@;
        if !pre.session_tokens.contains_key(session_id@) {
            assert(pre.session_tokens.remove(session_id@) =~= pre.session_tokens);
        }
        assert(reg@ == teardown(pre, session_id@));
    }
    session.connection_ids
}

/// Teardown is idempotent: running it again on its own result changes
/// nothing, however the runs interleave with the session already gone.
pub proof fn lemma_teardown_idempotent(reg: RegistryView, sid: Seq<char>)
    ensures
        teardown(teardown(reg, sid), sid) == teardown(reg, sid),
{
}

/// No message of the torn-down session survives.
pub proof fn lemma_messages_cleared(msgs: Seq<MessageView>, sid: Seq<char>)
    ensures
        forall|i: int|
            0 <= i < messages_without_session(msgs, sid).len() ==> (
            #[trigger] messages_without_session(msgs, sid)[i]).session_id != sid,
    decreases msgs.len(),
{
    if msgs.len() > 0 {
        lemma_messages_cleared(msgs.drop_last(), sid);
        let r = messages_without_session(msgs, sid);
        let p = messages_without_session(msgs.drop_last(), sid);
        assert forall|i: int| 0 <= i < r.len() implies (#[trigger] r[i]).session_id != sid by {
            if i < p.len() {
                assert(r[i] == p[i]);
            } else {
                assert(r[i] == msgs.last());
            }
        }
    }
}

/// No public key of the torn-down session survives.
pub proof fn lemma_keys_cleared(keys: Seq<PublicKeyView>, sid: Seq<char>)
    ensures
        forall|i: int|
            0 <= i < keys_without_session(keys, sid).len() ==> (#[trigger] keys_without_session(
                keys,
                sid,
            )[i]).session_id != sid,
    decreases keys.len(),
{
    if keys.len() > 0 {
        lemma_keys_cleared(keys.drop_last(), sid);
        let r = keys_without_session(keys, sid);
        let p = keys_without_session(keys.drop_last(), sid);
        assert forall|i: int| 0 <= i < r.len() implies (#[trigger] r[i]).session_id != sid by {
            if i < p.len() {
                assert(r[i] == p[i]);
            } else {
                assert(r[i] == keys.last());
            }
        }
    }
}

/// After a teardown nothing of the session remains: no row, no messages, no
/// public keys, no share token in either direction.
pub proof fn lemma_teardown_clears(reg: RegistryView, sid: Seq<char>)
    requires
        reg.sessions.contains_key(sid),
    ensures
        !teardown(reg, sid).sessions.contains_key(sid),
        forall|i: int|
            0 <= i < teardown(reg, sid).messages.len() ==> (#[trigger] teardown(
                reg,
                sid,
            ).messages[i]).session_id != sid,
        forall|i: int|
            0 <= i < teardown(reg, sid).public_keys.len() ==> (#[trigger] teardown(
                reg,
                sid,
            ).public_keys[i]).session_id != sid,
        !teardown(reg, sid).session_tokens.contains_key(sid),
        reg.session_tokens.contains_key(sid) ==> !teardown(reg, sid).tokens.contains_key(
            reg.session_tokens[sid],
        ),
{
    lemma_messages_cleared(reg.messages, sid);
    lemma_keys_cleared(reg.public_keys, sid);
}

} // verus!
