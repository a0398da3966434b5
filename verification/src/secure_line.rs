//! The secure-line relay: an independent two-party channel keyed by a line
//! identifier, fully process-local, with its own pairing trigger and a
//! one-shot message handoff used by the PIN-free side channel.

use vstd::prelude::*;

use crate::guid::new_guid;
use crate::keyed::StrMap;
use crate::models::RecordType;
use crate::protocol::{SecureLineDelivery, SecureLineDeliveryView, SecureLineNotification,
    SecureLineNotificationView};
use crate::registry::{contains_str, Registry};
use crate::stats::{
    message_record_fits, message_recorded_all, record_message_stats, record_stats, recorded_all,
    bucket_or_new, record_fits,
};
use crate::text::str_eq;

verus! {

/// The per-process secure-line tables.
pub struct SecureLineState {
    connections: StrMap<String>,
    sessions: StrMap<Vec<String>>,
    messages: StrMap<String>,
}

/// The abstract state of the secure-line tables.
pub struct SecureLineStateView {
    pub connections: Map<Seq<char>, Seq<char>>,
    pub sessions: Map<Seq<char>, Seq<Seq<char>>>,
    pub messages: Map<Seq<char>, Seq<char>>,
}

impl View for SecureLineState {
    type V = SecureLineStateView;

    closed spec fn view(&self) -> SecureLineStateView {
        SecureLineStateView {
            connections: self.connections@,
            sessions: self.sessions@,
            messages: self.messages@,
        }
    }
}

/// One event for each resident participant of a line, in join order, minus
/// an excluded sender when one is given.
pub open spec fn line_deliveries(
    participants: Seq<Seq<char>>,
    except: Option<Seq<char>>,
    conns: Map<Seq<char>, Seq<char>>,
    n: SecureLineNotificationView,
) -> Seq<SecureLineDeliveryView>
    decreases participants.len(),
{
    if participants.len() == 0 {
        Seq::empty()
    } else {
        let rest = line_deliveries(participants.drop_last(), except, conns, n);
        let p = participants.last();
        if conns.contains_key(p) && match except {
            Some(e) => p != e,
            None => true,
        } {
            rest.push(SecureLineDeliveryView { to: p, event: n })
        } else {
            rest
        }
    }
}

impl SecureLineState {
    /// Empty tables.
    pub fn new() -> (r: Self)
        ensures
            r@.connections == Map::<Seq<char>, Seq<char>>::empty(),
            r@.sessions == Map::<Seq<char>, Seq<Seq<char>>>::empty(),
            r@.messages == Map::<Seq<char>, Seq<char>>::empty(),
    {
        SecureLineState {
            connections: StrMap::new(),
            sessions: StrMap::new(),
            messages: StrMap::new(),
        }
    }

    /// Stores a one-shot handoff payload under an identifier.
    pub fn post_message(&mut self, id: &str, data: &str)
        ensures
            final(self)@ == (SecureLineStateView {
                messages: old(self)@.messages.insert(id@, data@),
                ..old(self)@
            }),
    {
        self.messages.insert(String::from_str(id), String::from_str(data));
    }

    /// Consumes a one-shot handoff payload: the first read removes it.
    pub fn take_message(&mut self, id: &str) -> (r: Option<String>)
        ensures
            match r {
                Some(d) => old(self)@.messages.contains_key(id@) && d@ == old(
                    self,
                )@.messages[id@],
                None => !old(self)@.messages.contains_key(id@),
            },
            final(self)@ == (SecureLineStateView {
                messages: old(self)@.messages.remove(id@),
                ..old(self)@
            }),
    {
        let r = match self.messages.get(id) {
            Some(d) => Some(d.clone()),
            None => None,
        };
        self.messages.remove(id);
        r
    }

    /// Queues one event for each resident participant of a line, in join
    /// order, minus an excluded sender.
    fn deliver(&self, line_id: &str, except: Option<&str>, n: &SecureLineNotification) -> (r: Vec<
        SecureLineDelivery,
    >)
        ensures
            r.deep_view() == line_deliveries(
                if self@.sessions.contains_key(line_id@) {
                    self@.sessions[line_id@]
                } else {
                    Seq::<Seq<char>>::empty()
                },
                match except {
                    Some(e) => Some(e@),
                    None => None,
                },
                self@.connections,
                n.deep_view(),
            ),
    {
        let ghost exc: Option<Seq<char>> = match except {
            Some(e) => Some(e@),
            None => None,
        };
        let empty_list: Vec<String> = Vec::new();
        let participants: &Vec<String> = match self.sessions.get(line_id) {
            Some(l) => l,
            None => &empty_list,
        };
        let ghost plist = participants.deep_view();
        proof {
            if !self@.sessions.contains_key(line_id@) {
                assert(plist =~= Seq::<Seq<char>>::empty());
            }
        }
        let mut out: Vec<SecureLineDelivery> = Vec::new();
        let n_p = participants.len();
        proof {
            assert(plist.len() == participants@.len());
            assert(plist.take(0) =~= Seq::<Seq<char>>::empty());
        }
        let mut i: usize = 0;
        while i < n_p
            invariant
                i <= n_p,
                n_p == participants@.len(),
                participants.deep_view() == plist,
                plist.len() == n_p,
                exc == (match except {
                    Some(e) => Some(e@),
                    None => None,
                }),
                out.deep_view() == line_deliveries(
                    plist.take(i as int),
                    exc,
                    self@.connections,
                    n.deep_view(),
                ),
            decreases n_p - i,
        {
            let p = &participants[i];
            let excluded: bool;
            match except {
                Some(e) => {
                    excluded = str_eq(p.as_str(), e);
                    proof {
                        assert(exc == Some(e@));
                        assert(excluded == (plist[i as int] == exc->0));
                    }
                },
                None => {
                    excluded = false;
                    proof {
                        assert(exc is None);
                    }
                },
            }
            let ghost pre_out = out.deep_view();
            if !excluded && self.connections.contains_key(p.as_str()) {
                out.push(SecureLineDelivery { to: p.clone(), event: n.clone() });
                proof {
                    assert(out.deep_view() =~= pre_out.push(
                        SecureLineDeliveryView { to: plist[i as int], event: n.deep_view() },
                    ));
                }
            }
            proof {
                let tk = plist.take(i as int + 1);
                assert(tk.drop_last() =~= plist.take(i as int));
                assert(tk.last() == plist[i as int]);
                assert(out.deep_view() =~= line_deliveries(
                    tk,
                    exc,
                    self@.connections,
                    n.deep_view(),
                ));
            }
            i += 1;
        }
        proof {
            assert(plist.take(n_p as int) =~= plist);
        }
        out
    }
}

/// What joining a line produced, by purpose.
pub struct LineInitEffects {
    /// Whether the join was taken; a full line refuses silently.
    pub joined: bool,
    /// The "Start" broadcast on reaching two participants.
    pub start: Vec<SecureLineDelivery>,
    /// The pairing pair on reaching two participants.
    pub key_exchange: Vec<SecureLineDelivery>,
}

/// The abstract value of [`LineInitEffects`].
pub struct LineInitEffectsView {
    pub joined: bool,
    pub start: Seq<SecureLineDeliveryView>,
    pub key_exchange: Seq<SecureLineDeliveryView>,
}

impl DeepView for LineInitEffects {
    type V = LineInitEffectsView;

    open spec fn deep_view(&self) -> LineInitEffectsView {
        LineInitEffectsView {
            joined: self.joined,
            start: self.start.deep_view(),
            key_exchange: self.key_exchange.deep_view(),
        }
    }
}

/// The key-exchange pair of a line: the first joiner answers, the second
/// opens, each named to the other under one fresh identifier; a device not
/// resident here is skipped.
pub open spec fn line_kx_deliveries(
    first: Seq<char>,
    second: Seq<char>,
    pka: Seq<char>,
    conns: Map<Seq<char>, Seq<char>>,
) -> Seq<SecureLineDeliveryView> {
    (if conns.contains_key(first) {
        seq![
            SecureLineDeliveryView {
                to: first,
                event: SecureLineNotificationView::StartKeyExchange {
                    peer_id: second,
                    pka: pka,
                    initiate: false,
                },
            },
        ]
    } else {
        Seq::<SecureLineDeliveryView>::empty()
    }) + (if conns.contains_key(second) {
        seq![
            SecureLineDeliveryView {
                to: second,
                event: SecureLineNotificationView::StartKeyExchange {
                    peer_id: first,
                    pka: pka,
                    initiate: true,
                },
            },
        ]
    } else {
        Seq::<SecureLineDeliveryView>::empty()
    })
}

/// Everything a line join does: the connection is noted, the join-order
/// list grows unless the line already has two participants, and on reaching
/// exactly two the message and device counters tick and the "Start"
/// broadcast plus the key-exchange pair go out.
pub open spec fn line_init_post(
    pre_stats: Map<i64, crate::models::StatsView>,
    post_stats: Map<i64, crate::models::StatsView>,
    pre: SecureLineStateView,
    post: SecureLineStateView,
    lid: Seq<char>,
    conn: Seq<char>,
    year: i32,
    month: u32,
    day: u32,
    created: Seq<char>,
    year2: i32,
    month2: u32,
    day2: u32,
    created2: Seq<char>,
    pka: Seq<char>,
    e: LineInitEffectsView,
) -> bool {
    let list0 = if pre.sessions.contains_key(lid) {
        pre.sessions[lid]
    } else {
        Seq::<Seq<char>>::empty()
    };
    let refused = list0.len() >= 2;
    let list1 = if refused || list0.contains(conn) {
        list0
    } else {
        list0.push(conn)
    };
    let paired = !refused && list1.len() > 1;
    &&& post.connections == pre.connections.insert(conn, lid)
    &&& post.sessions == pre.sessions.insert(lid, list1)
    &&& post.messages == pre.messages
    &&& e.joined == !refused
    &&& paired ==> {
        &&& 1 <= month <= 12 && 1 <= day <= 31 && 1 <= month2 <= 12 && 1 <= day2 <= 31
        &&& post_stats == recorded_all(
            recorded_all(pre_stats, year, month, day, created, RecordType::Message, 2),
            year2,
            month2,
            day2,
            created2,
            RecordType::Device,
            1,
        )
        &&& e.start == line_deliveries(
            list1,
            None,
            post.connections,
            SecureLineNotificationView::Broadcast { event: "Start"@, data: None },
        )
        &&& pka.len() == 32
        &&& e.key_exchange == line_kx_deliveries(list1[0], list1[1], pka, post.connections)
    }
    &&& !paired ==> {
        &&& post_stats == pre_stats
        &&& e.start == Seq::<SecureLineDeliveryView>::empty()
        &&& e.key_exchange == Seq::<SecureLineDeliveryView>::empty()
    }
}

/// Handles an `init` frame: joins the line unless it is full, and on
/// reaching two participants records the usage tick and starts the pairing.
pub fn line_init(
    reg: &mut Registry,
    line: &mut SecureLineState,
    line_id: &str,
    connection_id: &str,
) -> (r: LineInitEffects)
    requires
        forall|id: i64|
            {
                let b = #[trigger] bucket_or_new(old(reg)@.stats, id, Seq::<char>::empty());
                &&& b.messages + 2 <= i64::MAX
                &&& b.devices + 1 <= i64::MAX
                &&& b.version + 1 < i64::MAX
                &&& b.id == id
            },
    ensures
        final(reg)@.sessions == old(reg)@.sessions,
        final(reg)@.messages == old(reg)@.messages,
        final(reg)@.public_keys == old(reg)@.public_keys,
        final(reg)@.tokens == old(reg)@.tokens,
        final(reg)@.session_tokens == old(reg)@.session_tokens,
        final(reg)@.connection_index == old(reg)@.connection_index,
        exists|
            year: i32,
            month: u32,
            day: u32,
            created: Seq<char>,
            year2: i32,
            month2: u32,
            day2: u32,
            created2: Seq<char>,
            pka: Seq<char>,
        |
            #[trigger] line_init_post(
                old(reg)@.stats,
                final(reg)@.stats,
                old(line)@,
                final(line)@,
                line_id@,
                connection_id@,
                year,
                month,
                day,
                created,
                year2,
                month2,
                day2,
                created2,
                pka,
                r.deep_view(),
            ),
{
    let ghost pre = line@;
    let ghost pre_stats = reg@.stats;
    line.connections.insert(String::from_str(connection_id), String::from_str(line_id));

    let empty_list: Vec<String> = Vec::new();
    let list0: Vec<String> = match line.sessions.get(line_id) {
        Some(l) => l.clone(),
        None => empty_list,
    };
    proof {
        if !pre.sessions.contains_key(line_id@) {
            assert(list0.deep_view() =~= Seq::<Seq<char>>::empty());
        }
        assert(list0.deep_view().len() == list0@.len());
    }
    if list0.len() >= 2 {
        line.sessions.insert(String::from_str(line_id), list0);
        let r = LineInitEffects { joined: false, start: Vec::new(), key_exchange: Vec::new() };
        proof {
            assert(r.deep_view().start =~= Seq::<SecureLineDeliveryView>::empty());
            assert(r.deep_view().key_exchange =~= Seq::<SecureLineDeliveryView>::empty());
            assert(line_init_post(
                pre_stats,
                reg@.stats,
                pre,
                line@,
                line_id@,
                connection_id@,
                2000i32,
                1u32,
                1u32,
                Seq::<char>::empty(),
                2000i32,
                1u32,
                1u32,
                Seq::<char>::empty(),
                Seq::new(32nat, |i: int| 'a'),
                r.deep_view(),
            ));
        }
        return r;
    }
    let mut list1 = list0;
    let ghost l0 = list1.deep_view();
    if !contains_str(&list1, connection_id) {
        list1.push(String::from_str(connection_id));
        proof {
            assert(list1.deep_view() =~= l0.push(connection_id@));
        }
    }
    let ghost l1 = list1.deep_view();
    let paired = list1.len() > 1;
    let first = if paired {
        list1[0].clone()
    } else {
        String::new()
    };
    let second = if paired {
        list1[1].clone()
    } else {
        String::new()
    };
    line.sessions.insert(String::from_str(line_id), list1);

    if !paired {
        let r = LineInitEffects { joined: true, start: Vec::new(), key_exchange: Vec::new() };
        proof {
            assert(r.deep_view().start =~= Seq::<SecureLineDeliveryView>::empty());
            assert(r.deep_view().key_exchange =~= Seq::<SecureLineDeliveryView>::empty());
            assert(line_init_post(
                pre_stats,
                reg@.stats,
                pre,
                line@,
                line_id@,
                connection_id@,
                2000i32,
                1u32,
                1u32,
                Seq::<char>::empty(),
                2000i32,
                1u32,
                1u32,
                Seq::<char>::empty(),
                Seq::new(32nat, |i: int| 'a'),
                r.deep_view(),
            ));
        }
        return r;
    }

    record_stats(reg, RecordType::Message, 2);
    let ghost stats_mid = reg@.stats;
    proof {
        assert forall|id: i64| record_fits(stats_mid, id, RecordType::Device, 1) by {
            let b0 = bucket_or_new(pre_stats, id, Seq::<char>::empty());
            assert(b0.devices + 1 <= i64::MAX && b0.version + 1 < i64::MAX && b0.id == id);
        }
    }
    record_stats(reg, RecordType::Device, 1);

    let start = line.deliver(
        line_id,
        None,
        &SecureLineNotification::Broadcast { event: String::from_str("Start"), data: None },
    );

    let pka = new_guid();
    let mut key_exchange: Vec<SecureLineDelivery> = Vec::new();
    if line.connections.contains_key(first.as_str()) {
        key_exchange.push(
            SecureLineDelivery {
                to: first.clone(),
                event: SecureLineNotification::StartKeyExchange {
                    peer_id: second.clone(),
                    pka: pka.clone(),
                    initiate: false,
                },
            },
        );
    }
    if line.connections.contains_key(second.as_str()) {
        key_exchange.push(
            SecureLineDelivery {
                to: second.clone(),
                event: SecureLineNotification::StartKeyExchange {
                    peer_id: first.clone(),
                    pka: pka.clone(),
                    initiate: true,
                },
            },
        );
    }
    let r = LineInitEffects { joined: true, start, key_exchange };
    proof {
        assert(r.deep_view().key_exchange =~= line_kx_deliveries(
            l1[0],
            l1[1],
            pka@,
            line@.connections,
        ));
        let (y1, m1, d1, c1): (i32, u32, u32, Seq<char>) = choose|
            y1: i32,
            m1: u32,
            d1: u32,
            c1: Seq<char>,
        |
            1 <= m1 <= 12 && 1 <= d1 <= 31 && stats_mid == #[trigger] recorded_all(
                pre_stats,
                y1,
                m1,
                d1,
                c1,
                RecordType::Message,
                2,
            );
        let (y2, m2, d2, c2): (i32, u32, u32, Seq<char>) = choose|
            y2: i32,
            m2: u32,
            d2: u32,
            c2: Seq<char>,
        |
            1 <= m2 <= 12 && 1 <= d2 <= 31 && reg@.stats == #[trigger] recorded_all(
                stats_mid,
                y2,
                m2,
                d2,
                c2,
                RecordType::Device,
                1,
            );
        assert(line_init_post(
            pre_stats,
            reg@.stats,
            pre,
            line@,
            line_id@,
            connection_id@,
            y1,
            m1,
            d1,
            c1,
            y2,
            m2,
            d2,
            c2,
            pka@,
            r.deep_view(),
        ));
    }
    r
}

/// A broadcast frame's accounted size: the event name plus the payload.
pub open spec fn frame_size(event: Seq<char>, data: Option<Seq<char>>) -> int {
    event.len() + (match data {
        Some(d) => d.len() as int,
        None => 0,
    })
}

/// Everything a line broadcast does: the message counters tick once with
/// the frame's payload size, and the event reaches the participants — all
/// of them when `all` asks for it, otherwise everyone but the sender.
pub open spec fn line_broadcast_post(
    pre_stats: Map<i64, crate::models::StatsView>,
    post_stats: Map<i64, crate::models::StatsView>,
    linev: SecureLineStateView,
    conn: Seq<char>,
    bound: Option<Seq<char>>,
    event: Seq<char>,
    data: Option<Seq<char>>,
    all: Option<bool>,
    size: i64,
    year: i32,
    month: u32,
    day: u32,
    created: Seq<char>,
    r: Seq<SecureLineDeliveryView>,
) -> bool {
    match bound {
        None => post_stats == pre_stats && r == Seq::<SecureLineDeliveryView>::empty(),
        Some(lid) => {
            let exc: Option<Seq<char>> = if all == Some(true) {
                None
            } else {
                Some(conn)
            };
            &&& size == frame_size(event, data)
            &&& 1 <= month <= 12 && 1 <= day <= 31
            &&& post_stats == message_recorded_all(
                pre_stats,
                year,
                month,
                day,
                created,
                size,
                None,
            )
            &&& r == line_deliveries(
                if linev.sessions.contains_key(lid) {
                    linev.sessions[lid]
                } else {
                    Seq::<Seq<char>>::empty()
                },
                exc,
                linev.connections,
                SecureLineNotificationView::Broadcast { event, data },
            )
        },
    }
}

/// Handles a `broadcast` frame.
pub fn line_broadcast(
    reg: &mut Registry,
    line: &SecureLineState,
    connection_id: &str,
    line_id: Option<&String>,
    event: String,
    data: Option<String>,
    all: Option<bool>,
) -> (r: Vec<SecureLineDelivery>)
    requires
        frame_size(event@, data.deep_view()) <= i64::MAX,
        forall|id: i64|
            #[trigger] message_record_fits(
                old(reg)@.stats,
                id,
                frame_size(event@, data.deep_view()) as i64,
                None,
            ),
    ensures
        final(reg)@.sessions == old(reg)@.sessions,
        final(reg)@.messages == old(reg)@.messages,
        final(reg)@.public_keys == old(reg)@.public_keys,
        final(reg)@.tokens == old(reg)@.tokens,
        final(reg)@.session_tokens == old(reg)@.session_tokens,
        final(reg)@.connection_index == old(reg)@.connection_index,
        exists|size: i64, year: i32, month: u32, day: u32, created: Seq<char>|
            #[trigger] line_broadcast_post(
                old(reg)@.stats,
                final(reg)@.stats,
                line@,
                connection_id@,
                line_id.deep_view(),
                event@,
                data.deep_view(),
                all,
                size,
                year,
                month,
                day,
                created,
                r.deep_view(),
            ),
{
    let ghost pre_stats = reg@.stats;
    let lid = match line_id {
        Some(l) => l,
        None => {
            let r: Vec<SecureLineDelivery> = Vec::new();
            proof {
                assert(r.deep_view() =~= Seq::<SecureLineDeliveryView>::empty());
                assert(line_broadcast_post(
                    pre_stats,
                    reg@.stats,
                    line@,
                    connection_id@,
                    line_id.deep_view(),
                    event@,
                    data.deep_view(),
                    all,
                    0i64,
                    2000i32,
                    1u32,
                    1u32,
                    Seq::<char>::empty(),
                    r.deep_view(),
                ));
            }
            return r;
        },
    };
    let data_len: i64 = match &data {
        Some(d) => d.as_str().unicode_len() as i64,
        None => 0,
    };
    let msg_size: i64 = event.as_str().unicode_len() as i64 + data_len;
    record_message_stats(reg, msg_size, None);
    let send_all = match all {
        Some(true) => true,
        _ => false,
    };
    let ghost event_v = event@;
    let ghost data_v = data.deep_view();
    let n = SecureLineNotification::Broadcast { event, data };
    let r = if send_all {
        line.deliver(lid.as_str(), None, &n)
    } else {
        line.deliver(lid.as_str(), Some(connection_id), &n)
    };
    proof {
        let (y, m, d, c): (i32, u32, u32, Seq<char>) = choose|
            y: i32,
            m: u32,
            d: u32,
            c: Seq<char>,
        |
            1 <= m <= 12 && 1 <= d <= 31 && reg@.stats == #[trigger] message_recorded_all(
                pre_stats,
                y,
                m,
                d,
                c,
                msg_size,
                None,
            );
        assert(line_broadcast_post(
            pre_stats,
            reg@.stats,
            line@,
            connection_id@,
            line_id.deep_view(),
            event_v,
            data_v,
            all,
            msg_size,
            y,
            m,
            d,
            c,
            r.deep_view(),
        ));
    }
    r
}

/// Everything a line peer call does: one message tick, and the callback to
/// every resident participant but the sender.
pub open spec fn line_call_peer_post(
    pre_stats: Map<i64, crate::models::StatsView>,
    post_stats: Map<i64, crate::models::StatsView>,
    linev: SecureLineStateView,
    conn: Seq<char>,
    bound: Option<Seq<char>>,
    method: Seq<char>,
    param: Seq<char>,
    year: i32,
    month: u32,
    day: u32,
    created: Seq<char>,
    r: Seq<SecureLineDeliveryView>,
) -> bool {
    match bound {
        None => post_stats == pre_stats && r == Seq::<SecureLineDeliveryView>::empty(),
        Some(lid) => {
            &&& 1 <= month <= 12 && 1 <= day <= 31
            &&& post_stats == recorded_all(
                pre_stats,
                year,
                month,
                day,
                created,
                RecordType::Message,
                1,
            )
            &&& r == line_deliveries(
                if linev.sessions.contains_key(lid) {
                    linev.sessions[lid]
                } else {
                    Seq::<Seq<char>>::empty()
                },
                Some(conn),
                linev.connections,
                SecureLineNotificationView::Callback { method, data: param },
            )
        },
    }
}

/// Handles a `callPeer` frame on a line.
pub fn line_call_peer(
    reg: &mut Registry,
    line: &SecureLineState,
    connection_id: &str,
    line_id: Option<&String>,
    method: String,
    param: String,
) -> (r: Vec<SecureLineDelivery>)
    requires
        forall|id: i64| record_fits(old(reg)@.stats, id, RecordType::Message, 1),
    ensures
        final(reg)@.sessions == old(reg)@.sessions,
        final(reg)@.messages == old(reg)@.messages,
        final(reg)@.public_keys == old(reg)@.public_keys,
        final(reg)@.tokens == old(reg)@.tokens,
        final(reg)@.session_tokens == old(reg)@.session_tokens,
        final(reg)@.connection_index == old(reg)@.connection_index,
        exists|year: i32, month: u32, day: u32, created: Seq<char>|
            #[trigger] line_call_peer_post(
                old(reg)@.stats,
                final(reg)@.stats,
                line@,
                connection_id@,
                line_id.deep_view(),
                method@,
                param@,
                year,
                month,
                day,
                created,
                r.deep_view(),
            ),
{
    let ghost pre_stats = reg@.stats;
    let lid = match line_id {
        Some(l) => l,
        None => {
            let r: Vec<SecureLineDelivery> = Vec::new();
            proof {
                assert(r.deep_view() =~= Seq::<SecureLineDeliveryView>::empty());
                assert(line_call_peer_post(
                    pre_stats,
                    reg@.stats,
                    line@,
                    connection_id@,
                    line_id.deep_view(),
                    method@,
                    param@,
                    2000i32,
                    1u32,
                    1u32,
                    Seq::<char>::empty(),
                    r.deep_view(),
                ));
            }
            return r;
        },
    };
    record_stats(reg, RecordType::Message, 1);
    let ghost method_v = method@;
    let ghost param_v = param@;
    let n = SecureLineNotification::Callback { method, data: param };
    let r = line.deliver(lid.as_str(), Some(connection_id), &n);
    proof {
        let (y, m, d, c): (i32, u32, u32, Seq<char>) = choose|
            y: i32,
            m: u32,
            d: u32,
            c: Seq<char>,
        |
            1 <= m <= 12 && 1 <= d <= 31 && reg@.stats == #[trigger] recorded_all(
                pre_stats,
                y,
                m,
                d,
                c,
                RecordType::Message,
                1,
            );
        assert(line_call_peer_post(
            pre_stats,
            reg@.stats,
            line@,
            connection_id@,
            line_id.deep_view(),
            method_v,
            param_v,
            y,
            m,
            d,
            c,
            r.deep_view(),
        ));
    }
    r
}

/// The join-order list with every occurrence of one identifier dropped.
pub open spec fn list_without(ids: Seq<Seq<char>>, cid: Seq<char>) -> Seq<Seq<char>> {
    crate::registry::drop_id(ids, cid)
}

/// Everything a line disconnect does: the connection is forgotten, the
/// remaining resident participants get the terminal "GONE" broadcast, and
/// the leaver drops off the join-order list.
pub open spec fn line_disconnect_post(
    pre: SecureLineStateView,
    post: SecureLineStateView,
    conn: Seq<char>,
    bound: Option<Seq<char>>,
    r: Seq<SecureLineDeliveryView>,
) -> bool {
    match bound {
        None => post == pre && r == Seq::<SecureLineDeliveryView>::empty(),
        Some(lid) => {
            let dropped = SecureLineStateView {
                connections: pre.connections.remove(conn),
                ..pre
            };
            if pre.sessions.contains_key(lid) {
                &&& post == (SecureLineStateView {
                    sessions: dropped.sessions.insert(
                        lid,
                        list_without(pre.sessions[lid], conn),
                    ),
                    ..dropped
                })
                &&& r == line_deliveries(
                    pre.sessions[lid],
                    Some(conn),
                    dropped.connections,
                    SecureLineNotificationView::Broadcast {
                        event: "GONE"@,
                        data: Some(Seq::<char>::empty()),
                    },
                )
            } else {
                post == dropped && r == Seq::<SecureLineDeliveryView>::empty()
            }
        },
    }
}

/// Handles a line socket going away.
pub fn line_disconnect(
    line: &mut SecureLineState,
    connection_id: &str,
    line_id: Option<&String>,
) -> (r: Vec<SecureLineDelivery>)
    ensures
        line_disconnect_post(
            old(line)@,
            final(line)@,
            connection_id@,
            line_id.deep_view(),
            r.deep_view(),
        ),
{
    let ghost pre = line@;
    let lid = match line_id {
        Some(l) => l,
        None => {
            let r: Vec<SecureLineDelivery> = Vec::new();
            proof {
                assert(r.deep_view() =~= Seq::<SecureLineDeliveryView>::empty());
            }
            return r;
        },
    };
    line.connections.remove(connection_id);
    let participants: Vec<String> = match line.sessions.get(lid.as_str()) {
        Some(l) => l.clone(),
        None => {
            let r: Vec<SecureLineDelivery> = Vec::new();
            proof {
                assert(r.deep_view() =~= Seq::<SecureLineDeliveryView>::empty());
            }
            return r;
        },
    };
    let gone = SecureLineNotification::Broadcast {
        event: String::from_str("GONE"),
        data: Some(String::new()),
    };
    let r = line.deliver(lid.as_str(), Some(connection_id), &gone);

    let ghost plist = participants.deep_view();
    let mut kept: Vec<String> = Vec::new();
    let n = participants.len();
    proof {
        assert(plist.len() == participants@.len());
        assert(plist.take(0) =~= Seq::<Seq<char>>::empty());
    }
    let mut i: usize = 0;
    while i < n
        invariant
            i <= n,
            n == participants@.len(),
            participants.deep_view() == plist,
            plist.len() == n,
            kept.deep_view() == crate::registry::drop_id(plist.take(i as int), connection_id@),
        decreases n - i,
    {
        let c = &participants[i];
        let ghost pre_kept = kept.deep_view();
        if !str_eq(c.as_str(), connection_id) {
            kept.push(c.clone());
        }
        proof {
            let tk = plist.take(i as int + 1);
            assert(tk.drop_last() =~= plist.take(i as int));
            assert(tk.last() == plist[i as int]);
            if plist[i as int] != connection_id@ {
                assert(kept.deep_view() =~= pre_kept.push(plist[i as int]));
            }
        }
        i += 1;
    }
    proof {
        assert(plist.take(n as int) =~= plist);
    }
    line.sessions.insert(String::from_str(lid.as_str()), kept);
    proof {
        assert(line_disconnect_post(
            pre,
            line@,
            connection_id@,
            line_id.deep_view(),
            r.deep_view(),
        ));
    }
    r
}


/// A one-shot handoff submission on the PIN-free side channel.
pub struct PostMessageRequest {
    pub id: Option<String>,
    pub data: Option<String>,
}

/// How a handoff submission ended.
pub enum LineMessageOutcome {
    /// The identifier or the payload was missing or empty.
    BadRequest,
    /// The payload was stored under the echoed identifier.
    Created(String),
}

/// Stores a one-shot handoff payload; missing or empty fields reject.
pub fn post_line_message(line: &mut SecureLineState, req: &PostMessageRequest) -> (r:
    LineMessageOutcome)
    ensures
        ({
            let ok = (req.id matches Some(id) && id@.len() > 0) && (req.data matches Some(d)
                && d@.len() > 0);
            &&& (r is BadRequest) == !ok
            &&& !ok ==> final(line)@ == old(line)@
            &&& r matches LineMessageOutcome::Created(echoed) ==> {
                &&& ok
                &&& echoed@ == req.id->0@
                &&& final(line)@ == (SecureLineStateView {
                    messages: old(line)@.messages.insert(req.id->0@, req.data->0@),
                    ..old(line)@
                })
            }
        }),
{
    let id = match &req.id {
        Some(id) => {
            if id.as_str().is_empty() {
                return LineMessageOutcome::BadRequest;
            }
            id
        },
        None => {
            return LineMessageOutcome::BadRequest;
        },
    };
    let data = match &req.data {
        Some(d) => {
            if d.as_str().is_empty() {
                return LineMessageOutcome::BadRequest;
            }
            d
        },
        None => {
            return LineMessageOutcome::BadRequest;
        },
    };
    line.post_message(id.as_str(), data.as_str());
    LineMessageOutcome::Created(id.clone())
}

/// A one-shot handoff read.
pub struct GetMessageQuery {
    pub id: String,
}

/// Reads and consumes a one-shot handoff payload.
pub fn get_line_message(line: &mut SecureLineState, query: &GetMessageQuery) -> (r: Option<String>)
    ensures
        match r {
            Some(d) => old(line)@.messages.contains_key(query.id@) && d@ == old(
                line,
            )@.messages[query.id@],
            None => !old(line)@.messages.contains_key(query.id@),
        },
        final(line)@ == (SecureLineStateView {
            messages: old(line)@.messages.remove(query.id@),
            ..old(line)@
        }),
{
    line.take_message(query.id.as_str())
}

} // verus!
