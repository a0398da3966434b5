//! The conversation relay: the per-process connection table, broadcast
//! fan-out, the pairing trigger on device joins, and the cascading teardown
//! on last-device disconnect.
//!
//! Every handler returns the events it wants delivered, each addressed to
//! one connection's outbound channel; the surrounding program owns the
//! sockets and performs the sends.

use vstd::prelude::*;

use crate::guid::new_guid;
use crate::keyed::StrMap;
use crate::lifecycle::{erase_session_return_connection_ids, teardown};
use crate::models::{MessageView, RecordType};
use crate::protocol::{ClientMessage, ClientMessageView, Delivery, DeliveryView, WsNotification, WsNotificationView};
use crate::registry::{with_connection, without_connection, Registry, RegistryView};
use crate::stats::{record_fits, record_stats};
use crate::text::{format_token, str_eq, token_text};
use crate::tokens::cancel_share_token;

verus! {

/// The per-process conversation table: which session each locally-resident
/// connection belongs to.
pub struct ConversationState {
    connections: StrMap<String>,
}

impl View for ConversationState {
    type V = Map<Seq<char>, Seq<char>>;

    closed spec fn view(&self) -> Map<Seq<char>, Seq<char>> {
        self.connections@
    }
}

/// Whether a connection is locally resident and attached to the session.
pub open spec fn is_member(
    conns: Map<Seq<char>, Seq<char>>,
    sid: Seq<char>,
    cid: Seq<char>,
) -> bool {
    conns.contains_key(cid) && conns[cid] == sid
}

/// What a broadcast hands back: one event per locally-resident member of
/// the session (minus an excluded sender, when one is given), each exactly
/// once, in no promised order.
pub open spec fn is_broadcast(
    r: Seq<DeliveryView>,
    conns: Map<Seq<char>, Seq<char>>,
    sid: Seq<char>,
    except: Option<Seq<char>>,
    n: WsNotificationView,
) -> bool {
    &&& forall|i: int| 0 <= i < r.len() ==> (#[trigger] r[i]).event == n
    &&& forall|k: Seq<char>|
        (exists|i: int| 0 <= i < r.len() && (#[trigger] r[i]).to == k) <==> (is_member(
            conns,
            sid,
            k,
        ) && match except {
            Some(e) => k != e,
            None => true,
        })
    &&& forall|i: int, j: int| 0 <= i < j < r.len() ==> (#[trigger] r[i]).to != (#[trigger] r[j]).to
}

impl ConversationState {
    /// An empty table.
    pub fn new() -> (r: Self)
        ensures
            r@ == Map::<Seq<char>, Seq<char>>::empty(),
    {
        ConversationState { connections: StrMap::new() }
    }

    /// Binds a locally-resident connection to a session, replacing any
    /// earlier affiliation of the same socket.
    pub fn bind(&mut self, connection_id: &str, session_id: &str)
        ensures
            final(self)@ == old(self)@.insert(connection_id@, session_id@),
    {
        let mut cid = String::new();
        cid.append(connection_id);
        let mut sid = String::new();
        sid.append(session_id);
        self.connections.insert(cid, sid);
    }

    /// Forgets a locally-resident connection.
    pub fn unbind(&mut self, connection_id: &str)
        ensures
            final(self)@ == old(self)@.remove(connection_id@),
    {
        self.connections.remove(connection_id);
    }

    /// The session a locally-resident connection is attached to, if any.
    pub fn session_of(&self, connection_id: &str) -> (r: Option<String>)
        ensures
            match r {
                Some(s) => self@.contains_key(connection_id@) && s@ == self@[connection_id@],
                None => !self@.contains_key(connection_id@),
            },
    {
        match self.connections.get(connection_id) {
            Some(s) => Some(s.clone()),
            None => None,
        }
    }

    /// Whether the connection is resident in this process.
    pub fn resident(&self, connection_id: &str) -> (r: bool)
        ensures
            r == self@.contains_key(connection_id@),
    {
        self.connections.contains_key(connection_id)
    }

    /// Queues one event for every locally-resident member of the session.
    pub fn broadcast_to_session(&self, session_id: &str, n: &WsNotification) -> (r: Vec<Delivery>)
        ensures
            is_broadcast(r.deep_view(), self@, session_id@, None, n.deep_view()),
    {
        let members = self.connections.keys_with_value(session_id);
        let ghost keys = members.deep_view();
        let mut out: Vec<Delivery> = Vec::new();
        let n_members = members.len();
        proof {
            assert(keys.len() == members@.len());
        }
        let mut i: usize = 0;
        while i < n_members
            invariant
                i <= n_members,
                n_members == members@.len(),
                members.deep_view() == keys,
                keys.len() == n_members,
                out.deep_view().len() == i,
                forall|j: int|
                    0 <= j < i ==> (#[trigger] out.deep_view()[j]) == (DeliveryView {
                        to: keys[j],
                        event: n.deep_view(),
                    }),
            decreases n_members - i,
        {
            let ghost pre = out.deep_view();
            out.push(Delivery { to: members[i].clone(), event: n.clone() });
            proof {
                assert(out.deep_view() =~= pre.push(
                    DeliveryView { to: keys[i as int], event: n.deep_view() },
                ));
            }
            i += 1;
        }
        proof {
            let r = out.deep_view();
            assert forall|k: Seq<char>| (exists|i: int|
                0 <= i < r.len() && (#[trigger] r[i]).to == k) <==> (is_member(
                self@,
                session_id@,
                k,
            )) by {
                if exists|i: int| 0 <= i < r.len() && (#[trigger] r[i]).to == k {
                    let i = choose|i: int| 0 <= i < r.len() && (#[trigger] r[i]).to == k;
                    assert(keys[i] == k);
                    assert(keys.contains(k));
                }
                if is_member(self@, session_id@, k) {
                    assert(keys.contains(k));
                    let j = choose|j: int| 0 <= j < keys.len() && keys[j] == k;
                    assert(r[j].to == k);
                }
            }
        }
        out
    }

    /// Queues one event for every locally-resident member except the sender.
    pub fn broadcast_to_session_except(
        &self,
        session_id: &str,
        except_id: &str,
        n: &WsNotification,
    ) -> (r: Vec<Delivery>)
        ensures
            is_broadcast(r.deep_view(), self@, session_id@, Some(except_id@), n.deep_view()),
    {
        let members = self.connections.keys_with_value(session_id);
        let ghost keys = members.deep_view();
        let mut out: Vec<Delivery> = Vec::new();
        let n_members = members.len();
        proof {
            assert(keys.len() == members@.len());
            assert forall|a: int, b: int| 0 <= a < b < keys.len() implies keys[a] != keys[b] by {
                assert(members.deep_view()[a] != members.deep_view()[b]);
            }
        }
        let mut i: usize = 0;
        while i < n_members
            invariant
                i <= n_members,
                n_members == members@.len(),
                members.deep_view() == keys,
                keys.len() == n_members,
                forall|a: int, b: int| 0 <= a < b < keys.len() ==> keys[a] != keys[b],
                forall|j: int|
                    0 <= j < out.deep_view().len() ==> (#[trigger] out.deep_view()[j]).event
                        == n.deep_view(),
                forall|j: int|
                    0 <= j < out.deep_view().len() ==> (#[trigger] out.deep_view()[j]).to
                        != except_id@,
                forall|j: int|
                    0 <= j < out.deep_view().len() ==> keys.take(i as int).contains(
                        (#[trigger] out.deep_view()[j]).to,
                    ),
                forall|j: int|
                    0 <= j < i && keys[j] != except_id@ ==> exists|a: int|
                        0 <= a < out.deep_view().len() && (#[trigger] out.deep_view()[a]).to
                            == keys[j],
                forall|a: int, b: int|
                    0 <= a < b < out.deep_view().len() ==> (#[trigger] out.deep_view()[a]).to != (
                    #[trigger] out.deep_view()[b]).to,
            decreases n_members - i,
        {
            let ghost pre = out.deep_view();
            if !str_eq(members[i].as_str(), except_id) {
                out.push(Delivery { to: members[i].clone(), event: n.clone() });
                proof {
                    assert(out.deep_view() =~= pre.push(
                        DeliveryView { to: keys[i as int], event: n.deep_view() },
                    ));
                    assert forall|a: int, b: int|
                        0 <= a < b < out.deep_view().len() implies (
                    #[trigger] out.deep_view()[a]).to != (#[trigger] out.deep_view()[b]).to by {
                        if b == out.deep_view().len() - 1 {
                            assert(keys.take(i as int).contains(out.deep_view()[a].to));
                            let j = choose|j: int|
                                0 <= j < i && keys[j] == out.deep_view()[a].to;
                            assert(keys[j] != keys[i as int]);
                        }
                    }
                }
            }
            proof {
                assert forall|j: int|
                    0 <= j < i + 1 && keys[j] != except_id@ implies exists|a: int|
                        0 <= a < out.deep_view().len() && (#[trigger] out.deep_view()[a]).to
                            == keys[j] by {
                    if j == i as int {
                        assert(keys[i as int] != except_id@);
                        assert(out.deep_view()[out.deep_view().len() - 1].to == keys[i as int]);
                    } else {
                        let a = choose|a: int|
                            0 <= a < pre.len() && (#[trigger] pre[a]).to == keys[j];
                        assert(out.deep_view()[a].to == keys[j]);
                    }
                }
            }
            proof {
                assert(keys.take(i as int + 1).drop_last() =~= keys.take(i as int));
                assert forall|j: int|
                    0 <= j < out.deep_view().len() implies keys.take(i as int + 1).contains(
                    (#[trigger] out.deep_view()[j]).to,
                ) by {
                    if j < pre.len() {
                        let a = choose|a: int| 0 <= a < i && keys[a] == out.deep_view()[j].to;
                        assert(keys.take(i as int + 1)[a] == keys[a]);
                    } else {
                        assert(keys.take(i as int + 1)[i as int] == keys[i as int]);
                    }
                }
            }
            i += 1;
        }
        proof {
            let r = out.deep_view();
            assert(keys.take(n_members as int) =~= keys);
            assert forall|k: Seq<char>| (exists|i: int|
                0 <= i < r.len() && (#[trigger] r[i]).to == k) <==> (is_member(
                self@,
                session_id@,
                k,
            ) && k != except_id@) by {
                if exists|i: int| 0 <= i < r.len() && (#[trigger] r[i]).to == k {
                    let i = choose|i: int| 0 <= i < r.len() && (#[trigger] r[i]).to == k;
                    assert(keys.contains(k));
                }
                if is_member(self@, session_id@, k) && k != except_id@ {
                    assert(keys.contains(k));
                    let j = choose|j: int| 0 <= j < keys.len() && keys[j] == k;
                    assert(exists|a: int| 0 <= a < r.len() && (#[trigger] r[a]).to == keys[j]);
                }
            }
        }
        out
    }
}

/// The first entry of the join-order list that is not the newcomer: the
/// pairing partner chosen by arrival order.
pub open spec fn first_other(ids: Seq<Seq<char>>, cid: Seq<char>) -> Option<Seq<char>>
    decreases ids.len(),
{
    if ids.len() == 0 {
        None
    } else if ids.first() != cid {
        Some(ids.first())
    } else {
        first_other(ids.drop_first(), cid)
    }
}

/// The key-exchange pair for one pairing trigger: the standing partner is
/// told to answer (`initiate: false`), the newcomer to open (`initiate:
/// true`), each referencing the other and sharing one fresh correlation
/// identifier; a device not resident in this process is skipped silently.
pub open spec fn kx_deliveries(
    partner: Seq<char>,
    newcomer: Seq<char>,
    pka: Seq<char>,
    partner_resident: bool,
    newcomer_resident: bool,
) -> Seq<DeliveryView> {
    (if partner_resident {
        seq![
            DeliveryView {
                to: partner,
                event: WsNotificationView::StartKeyExchange {
                    peer_id: newcomer,
                    pka: pka,
                    initiate: false,
                },
            },
        ]
    } else {
        Seq::<DeliveryView>::empty()
    }) + (if newcomer_resident {
        seq![
            DeliveryView {
                to: newcomer,
                event: WsNotificationView::StartKeyExchange {
                    peer_id: partner,
                    pka: pka,
                    initiate: true,
                },
            },
        ]
    } else {
        Seq::<DeliveryView>::empty()
    })
}

/// What one pairing trigger emits under a given correlation identifier:
/// nothing when the newcomer has no partner; otherwise the key-exchange
/// pair for the arrival-order partner, skipping non-resident devices.
pub open spec fn pairing_emitted(
    r: Seq<DeliveryView>,
    sessions: Map<Seq<char>, crate::models::SessionView>,
    conns: Map<Seq<char>, Seq<char>>,
    sid: Seq<char>,
    newcomer: Seq<char>,
    pka: Seq<char>,
) -> bool {
    let ids = if sessions.contains_key(sid) {
        sessions[sid].connection_ids
    } else {
        Seq::<Seq<char>>::empty()
    };
    if first_other(ids, newcomer) is None {
        r == Seq::<DeliveryView>::empty()
    } else {
        let partner = first_other(ids, newcomer)->0;
        r == kx_deliveries(
            partner,
            newcomer,
            pka,
            conns.contains_key(partner),
            conns.contains_key(newcomer),
        )
    }
}

/// Runs one pairing trigger: picks the arrival-order partner for the
/// newcomer and queues the two `StartKeyExchange` events.
///
/// When both endpoints are resident, exactly one pair is emitted, with
/// opposite `initiate` flags, each naming the other's connection id and
/// both carrying the same fresh correlation identifier.
pub fn init_key_exchange(
    reg: &Registry,
    local: &ConversationState,
    session_id: &str,
    new_device_id: &str,
) -> (r: Vec<Delivery>)
    ensures
        exists|pka: Seq<char>|
            pka.len() == 32 && #[trigger] pairing_emitted(
                r.deep_view(),
                reg@.sessions,
                local@,
                session_id@,
                new_device_id@,
                pka,
            ),
{
    let clients = reg.find_client(session_id);
    let ghost ids = clients.deep_view();

    let n = clients.len();
    proof {
        assert(ids.len() == clients@.len());
    }
    proof {
        assert(ids.skip(0) =~= ids);
    }
    let mut i: usize = 0;
    let mut found: usize = n;
    while i < n
        invariant
            i <= n,
            found <= n,
            n == clients@.len(),
            clients.deep_view() == ids,
            ids.len() == n,
            found == n ==> first_other(ids, new_device_id@) == first_other(
                ids.skip(i as int),
                new_device_id@,
            ),
            found < n ==> ids[found as int] != new_device_id@ && first_other(
                ids,
                new_device_id@,
            ) == Some(ids[found as int]),
        decreases n - i,
    {
        proof {
            if found == n {
                assert(ids.skip(i as int).drop_first() =~= ids.skip(i as int + 1));
                assert(ids.skip(i as int).first() == ids[i as int]);
            }
        }
        if found == n && !str_eq(clients[i].as_str(), new_device_id) {
            found = i;
        }
        i += 1;
    }
    if found == n {
        proof {
            assert(ids.skip(n as int) =~= Seq::<Seq<char>>::empty());
        }
        let r: Vec<Delivery> = Vec::new();
        proof {
            assert(r.deep_view() =~= Seq::<DeliveryView>::empty());
            let pka_w = Seq::new(32nat, |i: int| 'a');
            assert(pka_w.len() == 32);
            assert(pairing_emitted(
                r.deep_view(),
                reg@.sessions,
                local@,
                session_id@,
                new_device_id@,
                pka_w,
            ));
        }
        return r;
    }
    let first_id = &clients[found];

    let pka = new_guid();
    let mut newcomer = String::new();
    newcomer.append(new_device_id);
    proof {
        assert(newcomer@ =~= new_device_id@);
    }
    let mut out: Vec<Delivery> = Vec::new();
    let partner_resident = local.resident(first_id.as_str());
    if partner_resident {
        out.push(
            Delivery {
                to: first_id.clone(),
                event: WsNotification::StartKeyExchange {
                    peer_id: newcomer.clone(),
                    pka: pka.clone(),
                    initiate: false,
                },
            },
        );
    }
    let newcomer_resident = local.resident(new_device_id);
    if newcomer_resident {
        out.push(
            Delivery {
                to: newcomer,
                event: WsNotification::StartKeyExchange {
                    peer_id: first_id.clone(),
                    pka: pka.clone(),
                    initiate: true,
                },
            },
        );
    }
    proof {
        assert(first_other(ids, new_device_id@) == Some(ids[found as int]));
        assert(out.deep_view() =~= kx_deliveries(
            ids[found as int],
            new_device_id@,
            pka@,
            local@.contains_key(ids[found as int]),
            local@.contains_key(new_device_id@),
        ));
        assert(pka@.len() == 32 && out.deep_view() == kx_deliveries(
            ids[found as int],
            new_device_id@,
            pka@,
            local@.contains_key(ids[found as int]),
            local@.contains_key(new_device_id@),
        ));
        let fo = first_other(ids, new_device_id@);
        assert(fo == Some(ids[found as int]));
        assert(fo->0 == ids[found as int]);
        assert(pairing_emitted(
            out.deep_view(),
            reg@.sessions,
            local@,
            session_id@,
            new_device_id@,
            pka@,
        ));
    }
    out
}

/// When both devices of a pairing trigger are resident, the emitted pair is
/// exactly two events with opposite `initiate` flags, each addressed to one
/// device and naming the other as its peer, under one shared identifier.
pub proof fn lemma_pairing_pair(
    partner: Seq<char>,
    newcomer: Seq<char>,
    pka: Seq<char>,
)
    ensures
        ({
            let r = kx_deliveries(partner, newcomer, pka, true, true);
            &&& r.len() == 2
            &&& r[0].to == partner
            &&& r[0].event == (WsNotificationView::StartKeyExchange {
                peer_id: newcomer,
                pka: pka,
                initiate: false,
            })
            &&& r[1].to == newcomer
            &&& r[1].event == (WsNotificationView::StartKeyExchange {
                peer_id: partner,
                pka: pka,
                initiate: true,
            })
        }),
{
    let r = kx_deliveries(partner, newcomer, pka, true, true);
    assert(r.len() == 2);
}


/// The events a fresh socket gets before any frame: its acknowledgment.
pub open spec fn open_ack(conn: Seq<char>) -> Seq<DeliveryView> {
    seq![DeliveryView { to: conn, event: WsNotificationView::Connected { connection_id: conn } }]
}

/// Accepts a new socket: counts the device in the usage rollups and queues
/// the `Connected` acknowledgment for the socket itself.
pub fn on_open(reg: &mut Registry, connection_id: &str) -> (r: Vec<Delivery>)
    requires
        forall|id: i64|
            record_fits(old(reg)@.stats, id, RecordType::Device, 1),
    ensures
        r.deep_view() == open_ack(connection_id@),
        final(reg)@.sessions == old(reg)@.sessions,
        final(reg)@.messages == old(reg)@.messages,
        final(reg)@.public_keys == old(reg)@.public_keys,
        final(reg)@.tokens == old(reg)@.tokens,
        final(reg)@.session_tokens == old(reg)@.session_tokens,
        final(reg)@.connection_index == old(reg)@.connection_index,
        exists|year: i32, month: u32, day: u32, created: Seq<char>|
            1 <= month <= 12 && 1 <= day <= 31 && final(reg)@.stats
                == #[trigger] crate::stats::recorded_all(
                old(reg)@.stats,
                year,
                month,
                day,
                created,
                RecordType::Device,
                1,
            ),
{
    record_stats(reg, RecordType::Device, 1);
    let mut conn = String::new();
    conn.append(connection_id);
    let mut out: Vec<Delivery> = Vec::new();
    out.push(
        Delivery {
            to: conn.clone(),
            event: WsNotification::Connected { connection_id: conn },
        },
    );
    proof {
        assert(out.deep_view() =~= open_ack(connection_id@));
    }
    out
}

/// The registry after a connect: the device joins the durable join-order
/// list and the reverse index; reaching two or more devices cancels any
/// outstanding share token.  A connect on an unknown session leaves the
/// store untouched.
pub open spec fn connect_registry(
    pre: RegistryView,
    sid: Seq<char>,
    conn: Seq<char>,
) -> RegistryView {
    if !pre.sessions.contains_key(sid) {
        pre
    } else {
        let joined = with_connection(pre.sessions[sid], conn);
        let joined_reg = RegistryView {
            sessions: pre.sessions.insert(sid, joined),
            connection_index: pre.connection_index.insert(conn, sid),
            ..pre
        };
        if joined.connection_ids.len() > 1 && joined_reg.session_tokens.contains_key(sid) {
            RegistryView {
                tokens: joined_reg.tokens.remove(joined_reg.session_tokens[sid]),
                session_tokens: joined_reg.session_tokens.remove(sid),
                ..joined_reg
            }
        } else {
            joined_reg
        }
    }
}

/// The live device count a connect reports: the durable join-order list's
/// length after the join, zero for an unknown session.
pub open spec fn device_count_after(pre: RegistryView, sid: Seq<char>, conn: Seq<char>) -> nat {
    if pre.sessions.contains_key(sid) {
        with_connection(pre.sessions[sid], conn).connection_ids.len()
    } else {
        0
    }
}

/// What a connect queues, by purpose.
pub struct ConnectEffects {
    /// A `ShowSharePanel` re-announcement to the newcomer, when a token is
    /// outstanding.
    pub token_panel: Vec<Delivery>,
    /// The `SetNumberOfDevices` broadcast to every local member.
    pub device_count: Vec<Delivery>,
    /// The pairing pair, on reaching two or more devices.
    pub key_exchange: Vec<Delivery>,
    /// The `HideSharePanel` broadcast after the token was cancelled.
    pub hide_panel: Vec<Delivery>,
}

/// The abstract value of [`ConnectEffects`].
pub struct ConnectEffectsView {
    pub token_panel: Seq<DeliveryView>,
    pub device_count: Seq<DeliveryView>,
    pub key_exchange: Seq<DeliveryView>,
    pub hide_panel: Seq<DeliveryView>,
}

impl DeepView for ConnectEffects {
    type V = ConnectEffectsView;

    open spec fn deep_view(&self) -> ConnectEffectsView {
        ConnectEffectsView {
            token_panel: self.token_panel.deep_view(),
            device_count: self.device_count.deep_view(),
            key_exchange: self.key_exchange.deep_view(),
            hide_panel: self.hide_panel.deep_view(),
        }
    }
}

/// Everything a connect does, over the abstract states: the registry and
/// table transitions and each queued segment.
pub open spec fn connect_post(
    pre_reg: RegistryView,
    post_reg: RegistryView,
    pre_local: Map<Seq<char>, Seq<char>>,
    post_local: Map<Seq<char>, Seq<char>>,
    sid: Seq<char>,
    conn: Seq<char>,
    e: ConnectEffectsView,
) -> bool {
    let count = device_count_after(pre_reg, sid, conn);
    &&& post_reg == connect_registry(pre_reg, sid, conn)
    &&& post_local == pre_local.insert(conn, sid)
    &&& e.token_panel == if pre_reg.session_tokens.contains_key(sid) {
        seq![
            DeliveryView {
                to: conn,
                event: WsNotificationView::ShowSharePanel {
                    token: crate::text::token_text(pre_reg.session_tokens[sid] as int),
                },
            },
        ]
    } else {
        Seq::<DeliveryView>::empty()
    }
    &&& is_broadcast(
        e.device_count,
        post_local,
        sid,
        None,
        WsNotificationView::SetNumberOfDevices { count: count as usize },
    )
    &&& count > 1 ==> exists|pka: Seq<char>|
        pka.len() == 32 && #[trigger] pairing_emitted(
            e.key_exchange,
            post_reg.sessions,
            post_local,
            sid,
            conn,
            pka,
        )
    &&& count <= 1 ==> e.key_exchange == Seq::<DeliveryView>::empty()
    &&& (count > 1 && pre_reg.session_tokens.contains_key(sid)) ==> is_broadcast(
        e.hide_panel,
        post_local,
        sid,
        None,
        WsNotificationView::HideSharePanel,
    )
    &&& !(count > 1 && pre_reg.session_tokens.contains_key(sid)) ==> e.hide_panel
        == Seq::<DeliveryView>::empty()
}

/// Handles a `connect` frame: registers the connection durably and locally,
/// re-announces any outstanding share panel to the newcomer, broadcasts the
/// new device count, and on reaching two or more devices runs the pairing
/// protocol and cancels the outstanding share token.
pub fn connect(
    reg: &mut Registry,
    local: &mut ConversationState,
    session_id: &str,
    connection_id: &str,
) -> (r: ConnectEffects)
    ensures
        connect_post(
            old(reg)@,
            final(reg)@,
            old(local)@,
            final(local)@,
            session_id@,
            connection_id@,
            r.deep_view(),
        ),
{
    let _registered = reg.track_client(session_id, connection_id);
    local.bind(connection_id, session_id);

    let mut token_panel: Vec<Delivery> = Vec::new();
    if let Some(t) = reg.get_session_token(session_id) {
        let mut conn = String::new();
        conn.append(connection_id);
        token_panel.push(
            Delivery { to: conn, event: WsNotification::ShowSharePanel { token: format_token(t) } },
        );
    }
    proof {
        if old(reg)@.session_tokens.contains_key(session_id@) {
            assert(token_panel.deep_view() =~= seq![
                DeliveryView {
                    to: connection_id@,
                    event: WsNotificationView::ShowSharePanel {
                        token: crate::text::token_text(
                            old(reg)@.session_tokens[session_id@] as int,
                        ),
                    },
                },
            ]);
        } else {
            assert(token_panel.deep_view() =~= Seq::<DeliveryView>::empty());
        }
    }

    let clients = reg.find_client(session_id);
    let num_devices = clients.len();
    proof {
        assert(clients.deep_view().len() == clients@.len());
    }
    let device_count = local.broadcast_to_session(
        session_id,
        &WsNotification::SetNumberOfDevices { count: num_devices },
    );

    let mut key_exchange: Vec<Delivery> = Vec::new();
    let mut hide_panel: Vec<Delivery> = Vec::new();
    let ghost sessions_mid = reg@.sessions;
    let ghost local_mid = local@;
    if num_devices > 1 {
        key_exchange = init_key_exchange(reg, local, session_id, connection_id);
        if cancel_share_token(reg, session_id) {
            hide_panel = local.broadcast_to_session(session_id, &WsNotification::HideSharePanel);
        }
    }
    proof {
        assert(key_exchange.deep_view().len() == 0 ==> key_exchange.deep_view() =~= Seq::<
            DeliveryView,
        >::empty());
        assert(hide_panel.deep_view().len() == 0 ==> hide_panel.deep_view() =~= Seq::<
            DeliveryView,
        >::empty());
        let pre = old(reg)@;
        let sid = session_id@;
        let conn = connection_id@;
        let count = device_count_after(pre, sid, conn);
        assert(num_devices as nat == count);
        assert(reg@ == connect_registry(pre, sid, conn));
        assert(local@ == old(local)@.insert(conn, sid));
        let ev = ConnectEffectsView {
            token_panel: token_panel.deep_view(),
            device_count: device_count.deep_view(),
            key_exchange: key_exchange.deep_view(),
            hide_panel: hide_panel.deep_view(),
        };
        if num_devices > 1 {
            let pka = choose|pka: Seq<char>|
                pka.len() == 32 && #[trigger] pairing_emitted(
                    key_exchange.deep_view(),
                    sessions_mid,
                    local_mid,
                    sid,
                    conn,
                    pka,
                );
            assert(reg@.sessions == sessions_mid && local@ == local_mid);
            assert(pairing_emitted(ev.key_exchange, reg@.sessions, local@, sid, conn, pka));
        }
        assert(count > 1 ==> exists|pka: Seq<char>|
            pka.len() == 32 && #[trigger] pairing_emitted(
                ev.key_exchange,
                reg@.sessions,
                local@,
                sid,
                conn,
                pka,
            ));
        assert(is_broadcast(
            ev.device_count,
            local@,
            sid,
            None,
            WsNotificationView::SetNumberOfDevices { count: count as usize },
        ));
        assert(connect_post(pre, reg@, old(local)@, local@, sid, conn, ev));
    }
    let r = ConnectEffects { token_panel, device_count, key_exchange, hide_panel };
    proof {
        assert(r.deep_view() == ConnectEffectsView {
            token_panel: r.token_panel.deep_view(),
            device_count: r.device_count.deep_view(),
            key_exchange: r.key_exchange.deep_view(),
            hide_panel: r.hide_panel.deep_view(),
        });
    }
    r
}


/// A system notification row as it lands in message history.
pub open spec fn notification_message(
    mid: Seq<char>,
    sid: Seq<char>,
    conn: Seq<char>,
    text: Seq<char>,
    date_sent: Seq<char>,
    epoch: i64,
) -> MessageView {
    MessageView {
        id: mid,
        session_id: sid,
        session_id_verification: None,
        socket_connection_id: Some(conn),
        encryption_public_key_alias: None,
        text: text,
        file_name: None,
        date_sent: date_sent,
        has_file: false,
        file_size_bytes: None,
        is_notification: true,
        date_sent_epoch: epoch,
    }
}

/// Inserts a system notification into the session's history and asks every
/// local member to reload their message list.
pub fn add_session_notification(
    reg: &mut Registry,
    local: &ConversationState,
    session_id: &str,
    message: &str,
    connection_id: &str,
) -> (r: Vec<Delivery>)
    ensures
        exists|mid: Seq<char>, ds: Seq<char>, ep: i64|
            mid.len() == 32 && final(reg)@ == (RegistryView {
                messages: old(reg)@.messages.push(
                    #[trigger] notification_message(
                        mid,
                        session_id@,
                        connection_id@,
                        message@,
                        ds,
                        ep,
                    ),
                ),
                ..old(reg)@
            }),
        is_broadcast(
            r.deep_view(),
            local@,
            session_id@,
            None,
            WsNotificationView::RequestReloadMessage,
        ),
{
    let id = new_guid();
    let date = crate::clock::now_iso();
    let epoch = crate::clock::to_epoch();
    let ghost mid_v = id@;
    let ghost ds_v = date@;
    let msg = crate::models::Message {
        id,
        session_id: String::from_str(session_id),
        session_id_verification: None,
        socket_connection_id: Some(String::from_str(connection_id)),
        encryption_public_key_alias: None,
        text: String::from_str(message),
        file_name: None,
        date_sent: date,
        has_file: false,
        file_size_bytes: None,
        is_notification: true,
        date_sent_epoch: epoch,
    };
    proof {
        assert(msg.deep_view() == notification_message(
            mid_v,
            session_id@,
            connection_id@,
            message@,
            ds_v,
            epoch,
        ));
    }
    reg.insert_message(msg);
    local.broadcast_to_session(session_id, &WsNotification::RequestReloadMessage)
}

/// The history notice posted after a broadcast call: a plain connection
/// notice, with a bookmark hint appended exactly when the session reached
/// its second device.
pub open spec fn joined_notice_text(second_device: bool) -> Seq<char> {
    if second_device {
        "A new device connected.<br/><i class=\"fa fa-lock\"></i> Message is end to end encrypted."@
            + "<hr/><div class='text-info'>Frequently share data between these devices?<br/><span class='small'>Bookmark this page on each devices to quickly connect your devices.</span></div>"@
    } else {
        "A new device connected.<br/><i class=\"fa fa-lock\"></i> Message is end to end encrypted."@
    }
}

/// What a peer call queues, by purpose.
pub struct CallPeerEffects {
    /// The `Callback` relayed to the addressed peers.
    pub callback: Vec<Delivery>,
    /// The reload request after the history notice, for broadcast calls.
    pub reload: Vec<Delivery>,
}

/// The abstract value of [`CallPeerEffects`].
pub struct CallPeerEffectsView {
    pub callback: Seq<DeliveryView>,
    pub reload: Seq<DeliveryView>,
}

impl DeepView for CallPeerEffects {
    type V = CallPeerEffectsView;

    open spec fn deep_view(&self) -> CallPeerEffectsView {
        CallPeerEffectsView {
            callback: self.callback.deep_view(),
            reload: self.reload.deep_view(),
        }
    }
}

/// Everything a peer call does.  "ALL" relays to every other local member
/// of the sender's session and posts a history notice; a named peer gets
/// the callback alone, and only from a joined sender, silently dropped when
/// the peer is not resident here.
pub open spec fn call_peer_post(
    pre_reg: RegistryView,
    post_reg: RegistryView,
    localv: Map<Seq<char>, Seq<char>>,
    sender: Seq<char>,
    bound: Option<Seq<char>>,
    peer: Seq<char>,
    method: Seq<char>,
    param: Seq<char>,
    mid: Seq<char>,
    ds: Seq<char>,
    ep: i64,
    e: CallPeerEffectsView,
) -> bool {
    if peer == "ALL"@ {
        match bound {
            Some(sid) => {
                let count = if pre_reg.sessions.contains_key(sid) {
                    pre_reg.sessions[sid].connection_ids.len() as int
                } else {
                    0
                };
                let notice = joined_notice_text(count == 2);
                &&& is_broadcast(
                    e.callback,
                    localv,
                    sid,
                    Some(sender),
                    WsNotificationView::Callback { method, data: param },
                )
                &&& mid.len() == 32
                &&& post_reg == (RegistryView {
                    messages: pre_reg.messages.push(
                        notification_message(mid, sid, sender, notice, ds, ep),
                    ),
                    ..pre_reg
                })
                &&& is_broadcast(
                    e.reload,
                    localv,
                    sid,
                    None,
                    WsNotificationView::RequestReloadMessage,
                )
            },
            None => post_reg == pre_reg && e.callback == Seq::<DeliveryView>::empty() && e.reload
                == Seq::<DeliveryView>::empty(),
        }
    } else {
        &&& post_reg == pre_reg
        &&& e.reload == Seq::<DeliveryView>::empty()
        &&& e.callback == if bound is Some && localv.contains_key(peer) {
            seq![
                DeliveryView {
                    to: peer,
                    event: WsNotificationView::Callback { method, data: param },
                },
            ]
        } else {
            Seq::<DeliveryView>::empty()
        }
    }
}

/// Handles a `callPeer` frame.
pub fn call_peer(
    reg: &mut Registry,
    local: &ConversationState,
    connection_id: &str,
    session_id: Option<&String>,
    peer_id: &str,
    method: String,
    param: String,
) -> (r: CallPeerEffects)
    ensures
        exists|mid: Seq<char>, ds: Seq<char>, ep: i64|
            #[trigger] call_peer_post(
                old(reg)@,
                final(reg)@,
                local@,
                connection_id@,
                session_id.deep_view(),
                peer_id@,
                method@,
                param@,
                mid,
                ds,
                ep,
                r.deep_view(),
            ),
{
    let ghost pre = old(reg)@;
    if str_eq(peer_id, "ALL") {
        let sid = match session_id {
            Some(s) => s,
            None => {
                let r = CallPeerEffects { callback: Vec::new(), reload: Vec::new() };
                proof {
                    assert(r.deep_view().callback =~= Seq::<DeliveryView>::empty());
                    assert(r.deep_view().reload =~= Seq::<DeliveryView>::empty());
                    assert(call_peer_post(
                        old(reg)@,
                        reg@,
                        local@,
                        connection_id@,
                        session_id.deep_view(),
                        peer_id@,
                        method@,
                        param@,
                        Seq::new(32nat, |i: int| 'a'),
                        Seq::<char>::empty(),
                        0i64,
                        r.deep_view(),
                    ));
                }
                return r;
            },
        };
        let callback = local.broadcast_to_session_except(
            sid.as_str(),
            connection_id,
            &WsNotification::Callback { method, data: param },
        );
        let clients = reg.find_client(sid.as_str());
        let num_devices = clients.len();
        proof {
            assert(clients.deep_view().len() == clients@.len());
        }
        let mut notice = String::from_str(
            "A new device connected.<br/><i class=\"fa fa-lock\"></i> Message is end to end encrypted.",
        );
        if num_devices == 2 {
            notice.append(
                "<hr/><div class='text-info'>Frequently share data between these devices?<br/><span class='small'>Bookmark this page on each devices to quickly connect your devices.</span></div>",
            );
        }
        proof {
            let count = if pre.sessions.contains_key(sid@) {
                pre.sessions[sid@].connection_ids.len() as int
            } else {
                0
            };
            assert(notice@ == joined_notice_text(count == 2));
        }
        let ghost mid_reg = reg@;
        let reload = add_session_notification(
            reg,
            local,
            sid.as_str(),
            notice.as_str(),
            connection_id,
        );
        let r = CallPeerEffects { callback, reload };
        proof {
            assert(r.deep_view().callback == callback.deep_view());
            let count = if pre.sessions.contains_key(sid@) {
                pre.sessions[sid@].connection_ids.len() as int
            } else {
                0
            };
            let (mid, ds, ep): (Seq<char>, Seq<char>, i64) = choose|
                mid: Seq<char>,
                ds: Seq<char>,
                ep: i64,
            |
                mid.len() == 32 && reg@ == (RegistryView {
                    messages: mid_reg.messages.push(
                        #[trigger] notification_message(mid, sid@, connection_id@, notice@, ds, ep),
                    ),
                    ..mid_reg
                });
            assert(mid_reg == pre);
            assert(notice@ == joined_notice_text(count == 2));
            assert(mid.len() == 32 && reg@ == (RegistryView {
                messages: pre.messages.push(
                    notification_message(
                        mid,
                        sid@,
                        connection_id@,
                        joined_notice_text(count == 2),
                        ds,
                        ep,
                    ),
                ),
                ..pre
            }));
            let ev = CallPeerEffectsView {
                callback: callback.deep_view(),
                reload: reload.deep_view(),
            };
            assert(r.deep_view() == ev);
            assert(call_peer_post(
                pre,
                reg@,
                local@,
                connection_id@,
                session_id.deep_view(),
                peer_id@,
                method@,
                param@,
                mid,
                ds,
                ep,
                ev,
            ));
        }
        r
    } else {
        let mut callback: Vec<Delivery> = Vec::new();
        if session_id.is_some() && local.resident(peer_id) {
            callback.push(
                Delivery {
                    to: String::from_str(peer_id),
                    event: WsNotification::Callback { method, data: param },
                },
            );
            proof {
                assert(callback.deep_view() =~= seq![
                    DeliveryView {
                        to: peer_id@,
                        event: WsNotificationView::Callback { method: method@, data: param@ },
                    },
                ]);
            }
        } else {
            proof {
                assert(callback.deep_view() =~= Seq::<DeliveryView>::empty());
            }
        }
        let r = CallPeerEffects { callback, reload: Vec::new() };
        proof {
            assert(r.deep_view().reload =~= Seq::<DeliveryView>::empty());
            assert(r.deep_view().callback == callback.deep_view());
            assert(call_peer_post(
                old(reg)@,
                reg@,
                local@,
                connection_id@,
                session_id.deep_view(),
                peer_id@,
                method@,
                param@,
                Seq::new(32nat, |i: int| 'a'),
                Seq::<char>::empty(),
                0i64,
                r.deep_view(),
            ));
        }
        r
    }
}

/// Everything a `share` frame does: an outstanding token is re-announced;
/// otherwise a fresh one is drawn and announced, or, if the draw streak
/// never found a free number, nothing happens.
pub open spec fn share_post(
    pre_reg: RegistryView,
    post_reg: RegistryView,
    localv: Map<Seq<char>, Seq<char>>,
    bound: Option<Seq<char>>,
    t: i64,
    panel: Seq<DeliveryView>,
) -> bool {
    match bound {
        None => post_reg == pre_reg && panel == Seq::<DeliveryView>::empty(),
        Some(sid) => {
            if pre_reg.session_tokens.contains_key(sid) {
                &&& post_reg == pre_reg
                &&& is_broadcast(
                    panel,
                    localv,
                    sid,
                    None,
                    WsNotificationView::ShowSharePanel {
                        token: crate::text::token_text(pre_reg.session_tokens[sid] as int),
                    },
                )
            } else {
                ||| (100000 <= t && !pre_reg.tokens.contains_key(t) && post_reg == (RegistryView {
                    tokens: pre_reg.tokens.insert(
                        t,
                        crate::models::ShareTokenView { id: t, session_id: sid },
                    ),
                    session_tokens: pre_reg.session_tokens.insert(sid, t),
                    ..pre_reg
                }) && is_broadcast(
                    panel,
                    localv,
                    sid,
                    None,
                    WsNotificationView::ShowSharePanel {
                        token: crate::text::token_text(t as int),
                    },
                ))
                ||| (post_reg == pre_reg && panel == Seq::<DeliveryView>::empty())
            }
        },
    }
}

/// Handles a `share` frame.
pub fn share(
    reg: &mut Registry,
    local: &ConversationState,
    session_id: Option<&String>,
) -> (r: Vec<Delivery>)
    ensures
        exists|t: i64|
            #[trigger] share_post(
                old(reg)@,
                final(reg)@,
                local@,
                session_id.deep_view(),
                t,
                r.deep_view(),
            ),
{
    let sid = match session_id {
        Some(s) => s,
        None => {
            let r: Vec<Delivery> = Vec::new();
            proof {
                assert(r.deep_view() =~= Seq::<DeliveryView>::empty());
                assert(share_post(
                    old(reg)@,
                    reg@,
                    local@,
                    session_id.deep_view(),
                    0i64,
                    r.deep_view(),
                ));
            }
            return r;
        },
    };
    if let Some(t) = reg.get_session_token(sid.as_str()) {
        let r = local.broadcast_to_session(
            sid.as_str(),
            &WsNotification::ShowSharePanel { token: format_token(t) },
        );
        proof {
            assert(share_post(old(reg)@, reg@, local@, session_id.deep_view(), t, r.deep_view()));
        }
        r
    } else {
        match crate::tokens::create_new_share_token(reg, sid.as_str()) {
            Some(t) => {
                let r = local.broadcast_to_session(
                    sid.as_str(),
                    &WsNotification::ShowSharePanel { token: format_token(t) },
                );
                proof {
                    assert(share_post(
                        old(reg)@,
                        reg@,
                        local@,
                        session_id.deep_view(),
                        t,
                        r.deep_view(),
                    ));
                }
                r
            },
            None => {
                let r: Vec<Delivery> = Vec::new();
                proof {
                    assert(r.deep_view() =~= Seq::<DeliveryView>::empty());
                    assert(share_post(
                        old(reg)@,
                        reg@,
                        local@,
                        session_id.deep_view(),
                        0i64,
                        r.deep_view(),
                    ));
                }
                r
            },
        }
    }
}

/// Everything a `cancelShare` frame does: an outstanding token is dropped
/// in both directions and the panel hidden; otherwise nothing happens.
pub open spec fn cancel_share_post(
    pre_reg: RegistryView,
    post_reg: RegistryView,
    localv: Map<Seq<char>, Seq<char>>,
    bound: Option<Seq<char>>,
    hide: Seq<DeliveryView>,
) -> bool {
    match bound {
        None => post_reg == pre_reg && hide == Seq::<DeliveryView>::empty(),
        Some(sid) => {
            if pre_reg.session_tokens.contains_key(sid) {
                &&& post_reg == (RegistryView {
                    tokens: pre_reg.tokens.remove(pre_reg.session_tokens[sid]),
                    session_tokens: pre_reg.session_tokens.remove(sid),
                    ..pre_reg
                })
                &&& is_broadcast(hide, localv, sid, None, WsNotificationView::HideSharePanel)
            } else {
                post_reg == pre_reg && hide == Seq::<DeliveryView>::empty()
            }
        },
    }
}

/// Handles a `cancelShare` frame.
pub fn cancel_share(
    reg: &mut Registry,
    local: &ConversationState,
    session_id: Option<&String>,
) -> (r: Vec<Delivery>)
    ensures
        cancel_share_post(old(reg)@, final(reg)@, local@, session_id.deep_view(), r.deep_view()),
{
    let sid = match session_id {
        Some(s) => s,
        None => {
            let r: Vec<Delivery> = Vec::new();
            proof {
                assert(r.deep_view() =~= Seq::<DeliveryView>::empty());
            }
            return r;
        },
    };
    if cancel_share_token(reg, sid.as_str()) {
        local.broadcast_to_session(sid.as_str(), &WsNotification::HideSharePanel)
    } else {
        let r: Vec<Delivery> = Vec::new();
        proof {
            assert(r.deep_view() =~= Seq::<DeliveryView>::empty());
        }
        r
    }
}

/// What an `eraseSession` frame produces.
pub struct EraseEffects {
    /// The `SessionDeleted` broadcast to every local member.
    pub deleted: Vec<Delivery>,
    /// The session whose upload directory the caller must now remove.
    pub upload_cleanup: Option<String>,
}

/// The abstract value of [`EraseEffects`].
pub struct EraseEffectsView {
    pub deleted: Seq<DeliveryView>,
    pub upload_cleanup: Option<Seq<char>>,
}

impl DeepView for EraseEffects {
    type V = EraseEffectsView;

    open spec fn deep_view(&self) -> EraseEffectsView {
        EraseEffectsView {
            deleted: self.deleted.deep_view(),
            upload_cleanup: self.upload_cleanup.deep_view(),
        }
    }
}

/// Everything an `eraseSession` frame does: the full cascading teardown,
/// then the farewell broadcast.
pub open spec fn erase_post(
    pre_reg: RegistryView,
    post_reg: RegistryView,
    localv: Map<Seq<char>, Seq<char>>,
    bound: Option<Seq<char>>,
    e: EraseEffectsView,
) -> bool {
    match bound {
        None => post_reg == pre_reg && e.deleted == Seq::<DeliveryView>::empty()
            && e.upload_cleanup is None,
        Some(sid) => {
            &&& post_reg == teardown(pre_reg, sid)
            &&& is_broadcast(e.deleted, localv, sid, None, WsNotificationView::SessionDeleted)
            &&& e.upload_cleanup == Some(sid)
        },
    }
}

/// Handles an `eraseSession` frame.
pub fn erase_session(
    reg: &mut Registry,
    local: &ConversationState,
    session_id: Option<&String>,
) -> (r: EraseEffects)
    ensures
        erase_post(old(reg)@, final(reg)@, local@, session_id.deep_view(), r.deep_view()),
{
    let sid = match session_id {
        Some(s) => s,
        None => {
            let r = EraseEffects { deleted: Vec::new(), upload_cleanup: None };
            proof {
                assert(r.deep_view().deleted =~= Seq::<DeliveryView>::empty());
            }
            return r;
        },
    };
    let _cids = erase_session_return_connection_ids(reg, sid.as_str());
    let deleted = local.broadcast_to_session(sid.as_str(), &WsNotification::SessionDeleted);
    EraseEffects { deleted, upload_cleanup: Some(sid.clone()) }
}


/// The registry after the durable untracking step of a disconnect: the
/// reverse index names the session, the connection leaves its join-order
/// list and the index entry goes; with either link missing, nothing moves.
pub open spec fn untracked_registry(pre: RegistryView, conn: Seq<char>) -> RegistryView {
    if pre.connection_index.contains_key(conn) && pre.sessions.contains_key(
        pre.connection_index[conn],
    ) {
        let s = pre.connection_index[conn];
        RegistryView {
            sessions: pre.sessions.insert(s, without_connection(pre.sessions[s], conn)),
            connection_index: pre.connection_index.remove(conn),
            ..pre
        }
    } else {
        pre
    }
}

/// What a disconnect produces, by purpose.
pub struct DisconnectEffects {
    /// The `SetNumberOfDevices` broadcast with the new count.
    pub device_count: Vec<Delivery>,
    /// The `SessionDeleted` broadcast, when the count reached zero.
    pub session_deleted: Vec<Delivery>,
    /// The reload request after the disconnect notice, when devices remain.
    pub reload: Vec<Delivery>,
    /// The session whose upload directory the caller must now remove.
    pub upload_cleanup: Option<String>,
}

/// The abstract value of [`DisconnectEffects`].
pub struct DisconnectEffectsView {
    pub device_count: Seq<DeliveryView>,
    pub session_deleted: Seq<DeliveryView>,
    pub reload: Seq<DeliveryView>,
    pub upload_cleanup: Option<Seq<char>>,
}

impl DeepView for DisconnectEffects {
    type V = DisconnectEffectsView;

    open spec fn deep_view(&self) -> DisconnectEffectsView {
        DisconnectEffectsView {
            device_count: self.device_count.deep_view(),
            session_deleted: self.session_deleted.deep_view(),
            reload: self.reload.deep_view(),
            upload_cleanup: self.upload_cleanup.deep_view(),
        }
    }
}

/// Everything a disconnect does: the device is untracked durably and
/// locally; a lite session is left alone past that; otherwise the new count
/// is broadcast, and either the whole session is torn down (count zero) or
/// the remaining devices get a disconnect notice.
pub open spec fn disconnect_post(
    pre_reg: RegistryView,
    post_reg: RegistryView,
    pre_local: Map<Seq<char>, Seq<char>>,
    post_local: Map<Seq<char>, Seq<char>>,
    conn: Seq<char>,
    bound: Option<Seq<char>>,
    mid: Seq<char>,
    ds: Seq<char>,
    ep: i64,
    e: DisconnectEffectsView,
) -> bool {
    match bound {
        None => {
            &&& post_reg == pre_reg
            &&& post_local == pre_local
            &&& e.device_count == Seq::<DeliveryView>::empty()
            &&& e.session_deleted == Seq::<DeliveryView>::empty()
            &&& e.reload == Seq::<DeliveryView>::empty()
            &&& e.upload_cleanup is None
        },
        Some(sid) => {
            let m = untracked_registry(pre_reg, conn);
            let lite = m.sessions.contains_key(sid) && m.sessions[sid].is_lite_session;
            let count = if m.sessions.contains_key(sid) {
                m.sessions[sid].connection_ids.len() as int
            } else {
                0
            };
            &&& post_local == pre_local.remove(conn)
            &&& lite ==> {
                &&& post_reg == m
                &&& e.device_count == Seq::<DeliveryView>::empty()
                &&& e.session_deleted == Seq::<DeliveryView>::empty()
                &&& e.reload == Seq::<DeliveryView>::empty()
                &&& e.upload_cleanup is None
            }
            &&& (!lite && count == 0) ==> {
                &&& post_reg == teardown(m, sid)
                &&& is_broadcast(
                    e.device_count,
                    post_local,
                    sid,
                    None,
                    WsNotificationView::SetNumberOfDevices { count: 0 },
                )
                &&& is_broadcast(
                    e.session_deleted,
                    post_local,
                    sid,
                    None,
                    WsNotificationView::SessionDeleted,
                )
                &&& e.reload == Seq::<DeliveryView>::empty()
                &&& e.upload_cleanup == Some(sid)
            }
            &&& (!lite && count > 0) ==> {
                &&& mid.len() == 32
                &&& post_reg == (RegistryView {
                    messages: m.messages.push(
                        notification_message(
                            mid,
                            sid,
                            conn,
                            "A device was disconnected."@,
                            ds,
                            ep,
                        ),
                    ),
                    ..m
                })
                &&& is_broadcast(
                    e.device_count,
                    post_local,
                    sid,
                    None,
                    WsNotificationView::SetNumberOfDevices { count: count as usize },
                )
                &&& is_broadcast(
                    e.reload,
                    post_local,
                    sid,
                    None,
                    WsNotificationView::RequestReloadMessage,
                )
                &&& e.session_deleted == Seq::<DeliveryView>::empty()
                &&& e.upload_cleanup is None
            }
        },
    }
}

/// Handles a socket going away: untracks the device, and either notifies
/// the remaining devices or, when the last device of a non-lite session
/// left, tears the session down.
pub fn handle_disconnect(
    reg: &mut Registry,
    local: &mut ConversationState,
    connection_id: &str,
    session_id: Option<&String>,
) -> (r: DisconnectEffects)
    ensures
        exists|mid: Seq<char>, ds: Seq<char>, ep: i64|
            #[trigger] disconnect_post(
                old(reg)@,
                final(reg)@,
                old(local)@,
                final(local)@,
                connection_id@,
                session_id.deep_view(),
                mid,
                ds,
                ep,
                r.deep_view(),
            ),
{
    let ghost pre = old(reg)@;
    let sid = match session_id {
        Some(s) => s,
        None => {
            let r = DisconnectEffects {
                device_count: Vec::new(),
                session_deleted: Vec::new(),
                reload: Vec::new(),
                upload_cleanup: None,
            };
            proof {
                assert(r.deep_view().device_count =~= Seq::<DeliveryView>::empty());
                assert(r.deep_view().session_deleted =~= Seq::<DeliveryView>::empty());
                assert(r.deep_view().reload =~= Seq::<DeliveryView>::empty());
                assert(disconnect_post(
                    pre,
                    reg@,
                    old(local)@,
                    local@,
                    connection_id@,
                    session_id.deep_view(),
                    Seq::new(32nat, |i: int| 'a'),
                    Seq::<char>::empty(),
                    0i64,
                    r.deep_view(),
                ));
            }
            return r;
        },
    };
    let _left = reg.untrack_client_return_session_id(connection_id);
    local.unbind(connection_id);
    proof {
        assert(reg@ == untracked_registry(pre, connection_id@));
    }
    let ghost m = reg@;

    let mut is_lite = false;
    if let Some(session) = reg.get_session_by_id(sid.as_str()) {
        if session.is_lite_session {
            is_lite = true;
        }
    }
    if is_lite {
        let r = DisconnectEffects {
            device_count: Vec::new(),
            session_deleted: Vec::new(),
            reload: Vec::new(),
            upload_cleanup: None,
        };
        proof {
            assert(r.deep_view().device_count =~= Seq::<DeliveryView>::empty());
            assert(r.deep_view().session_deleted =~= Seq::<DeliveryView>::empty());
            assert(r.deep_view().reload =~= Seq::<DeliveryView>::empty());
            assert(disconnect_post(
                pre,
                reg@,
                old(local)@,
                local@,
                connection_id@,
                session_id.deep_view(),
                Seq::new(32nat, |i: int| 'a'),
                Seq::<char>::empty(),
                0i64,
                r.deep_view(),
            ));
        }
        return r;
    }

    let clients = reg.find_client(sid.as_str());
    let num_devices = clients.len();
    proof {
        assert(clients.deep_view().len() == clients@.len());
    }
    let device_count = local.broadcast_to_session(
        sid.as_str(),
        &WsNotification::SetNumberOfDevices { count: num_devices },
    );

    if num_devices == 0 {
        let _cids = erase_session_return_connection_ids(reg, sid.as_str());
        let session_deleted = local.broadcast_to_session(
            sid.as_str(),
            &WsNotification::SessionDeleted,
        );
        let r = DisconnectEffects {
            device_count,
            session_deleted,
            reload: Vec::new(),
            upload_cleanup: Some(sid.clone()),
        };
        proof {
            assert(r.deep_view().reload =~= Seq::<DeliveryView>::empty());
            assert(r.deep_view().device_count == device_count.deep_view());
            assert(r.deep_view().session_deleted == session_deleted.deep_view());
            assert(disconnect_post(
                pre,
                reg@,
                old(local)@,
                local@,
                connection_id@,
                session_id.deep_view(),
                Seq::new(32nat, |i: int| 'a'),
                Seq::<char>::empty(),
                0i64,
                r.deep_view(),
            ));
        }
        r
    } else {
        let ghost mid_reg = reg@;
        let reload = add_session_notification(
            reg,
            local,
            sid.as_str(),
            "A device was disconnected.",
            connection_id,
        );
        let r = DisconnectEffects {
            device_count,
            session_deleted: Vec::new(),
            reload,
            upload_cleanup: None,
        };
        proof {
            let (mid, ds, ep): (Seq<char>, Seq<char>, i64) = choose|
                mid: Seq<char>,
                ds: Seq<char>,
                ep: i64,
            |
                mid.len() == 32 && reg@ == (RegistryView {
                    messages: mid_reg.messages.push(
                        #[trigger] notification_message(
                            mid,
                            sid@,
                            connection_id@,
                            "A device was disconnected."@,
                            ds,
                            ep,
                        ),
                    ),
                    ..mid_reg
                });
            assert(r.deep_view().session_deleted =~= Seq::<DeliveryView>::empty());
            assert(r.deep_view().device_count == device_count.deep_view());
            assert(r.deep_view().reload == reload.deep_view());
            assert(disconnect_post(
                pre,
                reg@,
                old(local)@,
                local@,
                connection_id@,
                session_id.deep_view(),
                mid,
                ds,
                ep,
                r.deep_view(),
            ));
        }
        r
    }
}


/// What one client frame produced, by frame kind.
pub enum ClientEffects {
    Connected(ConnectEffects),
    CalledPeer(CallPeerEffects),
    Shared(Vec<Delivery>),
    CancelledShare(Vec<Delivery>),
    Erased(EraseEffects),
}

/// Everything one dispatched client frame does: which effects come back,
/// how the registry, the local table and the socket's session binding move.
pub open spec fn handled(
    msg: ClientMessageView,
    pre_reg: RegistryView,
    post_reg: RegistryView,
    pre_local: Map<Seq<char>, Seq<char>>,
    post_local: Map<Seq<char>, Seq<char>>,
    conn: Seq<char>,
    pre_sid: Option<Seq<char>>,
    post_sid: Option<Seq<char>>,
    mid: Seq<char>,
    ds: Seq<char>,
    ep: i64,
    t: i64,
    r: ClientEffects,
) -> bool {
    match msg {
        ClientMessageView::Connect { session_id: sid } => {
            &&& post_sid == Some(sid)
            &&& r matches ClientEffects::Connected(e) && connect_post(
                pre_reg,
                post_reg,
                pre_local,
                post_local,
                sid,
                conn,
                e.deep_view(),
            )
        },
        ClientMessageView::CallPeer { peer_id, method, param } => {
            &&& post_sid == pre_sid
            &&& post_local == pre_local
            &&& r matches ClientEffects::CalledPeer(e) && call_peer_post(
                pre_reg,
                post_reg,
                pre_local,
                conn,
                pre_sid,
                peer_id,
                method,
                param,
                mid,
                ds,
                ep,
                e.deep_view(),
            )
        },
        ClientMessageView::Share => {
            &&& post_sid == pre_sid
            &&& post_local == pre_local
            &&& r matches ClientEffects::Shared(panel) && share_post(
                pre_reg,
                post_reg,
                pre_local,
                pre_sid,
                t,
                panel.deep_view(),
            )
        },
        ClientMessageView::CancelShare => {
            &&& post_sid == pre_sid
            &&& post_local == pre_local
            &&& r matches ClientEffects::CancelledShare(hide) && cancel_share_post(
                pre_reg,
                post_reg,
                pre_local,
                pre_sid,
                hide.deep_view(),
            )
        },
        ClientMessageView::EraseSession => {
            &&& post_sid == pre_sid
            &&& post_local == pre_local
            &&& r matches ClientEffects::Erased(e) && erase_post(
                pre_reg,
                post_reg,
                pre_local,
                pre_sid,
                e.deep_view(),
            )
        },
    }
}

/// Dispatches one parsed client frame against the relay state.
///
/// This is the per-connection protocol machine: a socket starts unbound,
/// its first `connect` binds it to a session, and every other frame acts
/// only through that binding — unbound frames fall through to the
/// individual handlers, which leave all state untouched for them.
pub fn handle_client_message(
    reg: &mut Registry,
    local: &mut ConversationState,
    connection_id: &str,
    session_id: &mut Option<String>,
    msg: ClientMessage,
) -> (r: ClientEffects)
    ensures
        exists|mid: Seq<char>, ds: Seq<char>, ep: i64, t: i64|
            #[trigger] handled(
                msg.deep_view(),
                old(reg)@,
                final(reg)@,
                old(local)@,
                final(local)@,
                connection_id@,
                old(session_id).deep_view(),
                final(session_id).deep_view(),
                mid,
                ds,
                ep,
                t,
                r,
            ),
{
    let ghost msg_v = msg.deep_view();
    let ghost pre_sid_v = session_id.deep_view();
    match msg {
        ClientMessage::Connect { session_id: sid } => {
            let ghost sid_v = sid@;
            let e = connect(reg, local, sid.as_str(), connection_id);
            proof {
                assert(connect_post(
                    old(reg)@,
                    reg@,
                    old(local)@,
                    local@,
                    sid_v,
                    connection_id@,
                    e.deep_view(),
                ));
            }
            *session_id = Some(sid);
            proof {
                assert(session_id.deep_view() == Some(sid_v));
            }
            let out = ClientEffects::Connected(e);
            proof {
                assert(handled(
                    msg_v,
                    old(reg)@,
                    reg@,
                    old(local)@,
                    local@,
                    connection_id@,
                    pre_sid_v,
                    session_id.deep_view(),
                    Seq::new(32nat, |i: int| 'a'),
                    Seq::<char>::empty(),
                    0i64,
                    0i64,
                    out,
                ));
            }
            out
        },
        ClientMessage::CallPeer { peer_id, method, param } => {
            let bound = session_id.as_ref();
            let ghost bound_v = bound.deep_view();
            let ghost peer_v = peer_id@;
            let ghost method_v = method@;
            let ghost param_v = param@;
            proof {
                assert(bound_v == session_id.deep_view());
            }
            let e = call_peer(reg, local, connection_id, bound, peer_id.as_str(), method, param);
            proof {
                let (mid, ds, ep): (Seq<char>, Seq<char>, i64) = choose|
                    mid: Seq<char>,
                    ds: Seq<char>,
                    ep: i64,
                |
                    #[trigger] call_peer_post(
                        old(reg)@,
                        reg@,
                        old(local)@,
                        connection_id@,
                        bound_v,
                        peer_v,
                        method_v,
                        param_v,
                        mid,
                        ds,
                        ep,
                        e.deep_view(),
                    );
                assert(exists|mid2: Seq<char>, ds2: Seq<char>, ep2: i64|
                    #[trigger] call_peer_post(
                        old(reg)@,
                        reg@,
                        old(local)@,
                        connection_id@,
                        session_id.deep_view(),
                        peer_v,
                        method_v,
                        param_v,
                        mid2,
                        ds2,
                        ep2,
                        e.deep_view(),
                    )) by {
                    assert(call_peer_post(
                        old(reg)@,
                        reg@,
                        old(local)@,
                        connection_id@,
                        session_id.deep_view(),
                        peer_v,
                        method_v,
                        param_v,
                        mid,
                        ds,
                        ep,
                        e.deep_view(),
                    ));
                }
                let out = ClientEffects::CalledPeer(e);
                assert(handled(
                    msg_v,
                    old(reg)@,
                    reg@,
                    old(local)@,
                    local@,
                    connection_id@,
                    pre_sid_v,
                    session_id.deep_view(),
                    mid,
                    ds,
                    ep,
                    0i64,
                    out,
                ));
            }
            ClientEffects::CalledPeer(e)
        },
        ClientMessage::Share => {
            let bound = session_id.as_ref();
            let ghost bound_v = bound.deep_view();
            proof {
                assert(bound_v == session_id.deep_view());
            }
            let panel = share(reg, local, bound);
            proof {
                let t = choose|t: i64|
                    #[trigger] share_post(
                        old(reg)@,
                        reg@,
                        old(local)@,
                        bound_v,
                        t,
                        panel.deep_view(),
                    );
                assert(exists|t2: i64|
                    #[trigger] share_post(
                        old(reg)@,
                        reg@,
                        old(local)@,
                        session_id.deep_view(),
                        t2,
                        panel.deep_view(),
                    )) by {
                    assert(share_post(
                        old(reg)@,
                        reg@,
                        old(local)@,
                        session_id.deep_view(),
                        t,
                        panel.deep_view(),
                    ));
                }
                let out = ClientEffects::Shared(panel);
                assert(handled(
                    msg_v,
                    old(reg)@,
                    reg@,
                    old(local)@,
                    local@,
                    connection_id@,
                    pre_sid_v,
                    session_id.deep_view(),
                    Seq::new(32nat, |i: int| 'a'),
                    Seq::<char>::empty(),
                    0i64,
                    t,
                    out,
                ));
            }
            ClientEffects::Shared(panel)
        },
        ClientMessage::CancelShare => {
            let bound = session_id.as_ref();
            let ghost bound_v = bound.deep_view();
            proof {
                assert(bound_v == session_id.deep_view());
            }
            let hide = cancel_share(reg, local, bound);
            proof {
                assert(cancel_share_post(
                    old(reg)@,
                    reg@,
                    old(local)@,
                    session_id.deep_view(),
                    hide.deep_view(),
                ));
            }
            let out = ClientEffects::CancelledShare(hide);
            proof {
                assert(handled(
                    msg_v,
                    old(reg)@,
                    reg@,
                    old(local)@,
                    local@,
                    connection_id@,
                    pre_sid_v,
                    session_id.deep_view(),
                    Seq::new(32nat, |i: int| 'a'),
                    Seq::<char>::empty(),
                    0i64,
                    0i64,
                    out,
                ));
            }
            out
        },
        ClientMessage::EraseSession => {
            let bound = session_id.as_ref();
            let ghost bound_v = bound.deep_view();
            proof {
                assert(bound_v == session_id.deep_view());
            }
            let e = erase_session(reg, local, bound);
            proof {
                assert(erase_post(
                    old(reg)@,
                    reg@,
                    old(local)@,
                    session_id.deep_view(),
                    e.deep_view(),
                ));
            }
            let out = ClientEffects::Erased(e);
            proof {
                assert(handled(
                    msg_v,
                    old(reg)@,
                    reg@,
                    old(local)@,
                    local@,
                    connection_id@,
                    pre_sid_v,
                    session_id.deep_view(),
                    Seq::new(32nat, |i: int| 'a'),
                    Seq::<char>::empty(),
                    0i64,
                    0i64,
                    out,
                ));
            }
            out
        },
    }
}


/// A session after a run of connects, joined one at a time in order.
pub open spec fn joined_all(s: crate::models::SessionView, ids: Seq<Seq<char>>) -> crate::models::SessionView
    decreases ids.len(),
{
    if ids.len() == 0 {
        s
    } else {
        with_connection(joined_all(s, ids.drop_last()), ids.last())
    }
}

/// Serialised connects all land: joining pairwise-distinct fresh devices
/// one at a time appends each to the join-order list, so the device count
/// read back equals the count of connects.
pub proof fn lemma_serial_connects(s: crate::models::SessionView, ids: Seq<Seq<char>>)
    requires
        forall|a: int, b: int| 0 <= a < b < ids.len() ==> ids[a] != ids[b],
        forall|a: int| 0 <= a < ids.len() ==> !s.connection_ids.contains(#[trigger] ids[a]),
    ensures
        joined_all(s, ids).connection_ids == s.connection_ids + ids,
        joined_all(s, ids).connection_ids.len() == s.connection_ids.len() + ids.len(),
    decreases ids.len(),
{
    if ids.len() == 0 {
        assert(joined_all(s, ids).connection_ids =~= s.connection_ids + ids);
    } else {
        let pre = ids.drop_last();
        lemma_serial_connects(s, pre);
        let j = joined_all(s, pre);
        assert forall|k: int|
            0 <= k < j.connection_ids.len() implies j.connection_ids[k] != ids.last() by {
            if k < s.connection_ids.len() {
                assert(s.connection_ids.contains(j.connection_ids[k]));
            } else {
                assert(j.connection_ids[k] == pre[k - s.connection_ids.len()]);
                assert(ids[k - s.connection_ids.len()] != ids[ids.len() - 1]);
            }
        }
        assert(!j.connection_ids.contains(ids.last()));
        assert(joined_all(s, ids).connection_ids =~= s.connection_ids + ids);
    }
}

} // verus!
