//! The two relay channels' message vocabularies, with abstract views, and
//! the mapping from in-process notifications to wire messages.

use vstd::prelude::*;

verus! {

/// A frame a conversation client sends to the relay.
pub enum ClientMessage {
    Connect { session_id: String },
    CallPeer { peer_id: String, method: String, param: String },
    Share,
    CancelShare,
    EraseSession,
}

/// The abstract value of a [`ClientMessage`].
pub enum ClientMessageView {
    Connect { session_id: Seq<char> },
    CallPeer { peer_id: Seq<char>, method: Seq<char>, param: Seq<char> },
    Share,
    CancelShare,
    EraseSession,
}

impl DeepView for ClientMessage {
    type V = ClientMessageView;

    open spec fn deep_view(&self) -> ClientMessageView {
        match self {
            ClientMessage::Connect { session_id } => ClientMessageView::Connect {
                session_id: session_id.deep_view(),
            },
            ClientMessage::CallPeer { peer_id, method, param } => ClientMessageView::CallPeer {
                peer_id: peer_id.deep_view(),
                method: method.deep_view(),
                param: param.deep_view(),
            },
            ClientMessage::Share => ClientMessageView::Share,
            ClientMessage::CancelShare => ClientMessageView::CancelShare,
            ClientMessage::EraseSession => ClientMessageView::EraseSession,
        }
    }
}

/// A frame the relay sends to a conversation client.
pub enum ServerMessage {
    Connected { connection_id: String },
    RequestReloadMessage,
    ShowSharePanel { token: String },
    HideSharePanel,
    SessionDeleted,
    SetNumberOfDevices { count: usize },
    StartKeyExchange { peer_id: String, pka: String, initiate: bool },
    Callback { method: String, data: String },
}

/// The abstract value of a [`ServerMessage`].
pub enum ServerMessageView {
    Connected { connection_id: Seq<char> },
    RequestReloadMessage,
    ShowSharePanel { token: Seq<char> },
    HideSharePanel,
    SessionDeleted,
    SetNumberOfDevices { count: usize },
    StartKeyExchange { peer_id: Seq<char>, pka: Seq<char>, initiate: bool },
    Callback { method: Seq<char>, data: Seq<char> },
}

impl DeepView for ServerMessage {
    type V = ServerMessageView;

    open spec fn deep_view(&self) -> ServerMessageView {
        match self {
            ServerMessage::Connected { connection_id } => ServerMessageView::Connected {
                connection_id: connection_id.deep_view(),
            },
            ServerMessage::RequestReloadMessage => ServerMessageView::RequestReloadMessage,
            ServerMessage::ShowSharePanel { token } => ServerMessageView::ShowSharePanel {
                token: token.deep_view(),
            },
            ServerMessage::HideSharePanel => ServerMessageView::HideSharePanel,
            ServerMessage::SessionDeleted => ServerMessageView::SessionDeleted,
            ServerMessage::SetNumberOfDevices { count } => ServerMessageView::SetNumberOfDevices {
                count: *count,
            },
            ServerMessage::StartKeyExchange { peer_id, pka, initiate } => {
                ServerMessageView::StartKeyExchange {
                    peer_id: peer_id.deep_view(),
                    pka: pka.deep_view(),
                    initiate: *initiate,
                }
            },
            ServerMessage::Callback { method, data } => ServerMessageView::Callback {
                method: method.deep_view(),
                data: data.deep_view(),
            },
        }
    }
}

/// An event queued for one conversation connection's outbound channel.
pub enum WsNotification {
    RequestReloadMessage,
    ShowSharePanel { token: String },
    HideSharePanel,
    SessionDeleted,
    SetNumberOfDevices { count: usize },
    StartKeyExchange { peer_id: String, pka: String, initiate: bool },
    Callback { method: String, data: String },
    Connected { connection_id: String },
}

/// The abstract value of a [`WsNotification`].
pub enum WsNotificationView {
    RequestReloadMessage,
    ShowSharePanel { token: Seq<char> },
    HideSharePanel,
    SessionDeleted,
    SetNumberOfDevices { count: usize },
    StartKeyExchange { peer_id: Seq<char>, pka: Seq<char>, initiate: bool },
    Callback { method: Seq<char>, data: Seq<char> },
    Connected { connection_id: Seq<char> },
}

impl DeepView for WsNotification {
    type V = WsNotificationView;

    open spec fn deep_view(&self) -> WsNotificationView {
        match self {
            WsNotification::RequestReloadMessage => WsNotificationView::RequestReloadMessage,
            WsNotification::ShowSharePanel { token } => WsNotificationView::ShowSharePanel {
                token: token.deep_view(),
            },
            WsNotification::HideSharePanel => WsNotificationView::HideSharePanel,
            WsNotification::SessionDeleted => WsNotificationView::SessionDeleted,
            WsNotification::SetNumberOfDevices { count } => {
                WsNotificationView::SetNumberOfDevices { count: *count }
            },
            WsNotification::StartKeyExchange { peer_id, pka, initiate } => {
                WsNotificationView::StartKeyExchange {
                    peer_id: peer_id.deep_view(),
                    pka: pka.deep_view(),
                    initiate: *initiate,
                }
            },
            WsNotification::Callback { method, data } => WsNotificationView::Callback {
                method: method.deep_view(),
                data: data.deep_view(),
            },
            WsNotification::Connected { connection_id } => WsNotificationView::Connected {
                connection_id: connection_id.deep_view(),
            },
        }
    }
}

impl Clone for WsNotification {
    fn clone(&self) -> (r: Self)
        ensures
            r.deep_view() == self.deep_view(),
    {
        match self {
            WsNotification::RequestReloadMessage => WsNotification::RequestReloadMessage,
            WsNotification::ShowSharePanel { token } => WsNotification::ShowSharePanel {
                token: token.clone(),
            },
            WsNotification::HideSharePanel => WsNotification::HideSharePanel,
            WsNotification::SessionDeleted => WsNotification::SessionDeleted,
            WsNotification::SetNumberOfDevices { count } => WsNotification::SetNumberOfDevices {
                count: *count,
            },
            WsNotification::StartKeyExchange { peer_id, pka, initiate } => {
                WsNotification::StartKeyExchange {
                    peer_id: peer_id.clone(),
                    pka: pka.clone(),
                    initiate: *initiate,
                }
            },
            WsNotification::Callback { method, data } => WsNotification::Callback {
                method: method.clone(),
                data: data.clone(),
            },
            WsNotification::Connected { connection_id } => WsNotification::Connected {
                connection_id: connection_id.clone(),
            },
        }
    }
}

/// The wire message carrying a queued notification to a conversation client.
pub open spec fn server_message_of(n: WsNotificationView) -> ServerMessageView {
    match n {
        WsNotificationView::RequestReloadMessage => ServerMessageView::RequestReloadMessage,
        WsNotificationView::ShowSharePanel { token } => ServerMessageView::ShowSharePanel { token },
        WsNotificationView::HideSharePanel => ServerMessageView::HideSharePanel,
        WsNotificationView::SessionDeleted => ServerMessageView::SessionDeleted,
        WsNotificationView::SetNumberOfDevices { count } => ServerMessageView::SetNumberOfDevices {
            count,
        },
        WsNotificationView::StartKeyExchange { peer_id, pka, initiate } => {
            ServerMessageView::StartKeyExchange { peer_id, pka, initiate }
        },
        WsNotificationView::Callback { method, data } => ServerMessageView::Callback {
            method,
            data,
        },
        WsNotificationView::Connected { connection_id } => ServerMessageView::Connected {
            connection_id,
        },
    }
}

/// Turns a queued notification into the wire message sent to the client.
pub fn to_server_message(n: WsNotification) -> (r: ServerMessage)
    ensures
        r.deep_view() == server_message_of(n.deep_view()),
{
    match n {
        WsNotification::RequestReloadMessage => ServerMessage::RequestReloadMessage,
        WsNotification::ShowSharePanel { token } => ServerMessage::ShowSharePanel { token },
        WsNotification::HideSharePanel => ServerMessage::HideSharePanel,
        WsNotification::SessionDeleted => ServerMessage::SessionDeleted,
        WsNotification::SetNumberOfDevices { count } => ServerMessage::SetNumberOfDevices { count },
        WsNotification::StartKeyExchange { peer_id, pka, initiate } => {
            ServerMessage::StartKeyExchange { peer_id, pka, initiate }
        },
        WsNotification::Callback { method, data } => ServerMessage::Callback {
            method,
            data: data,
        },
        WsNotification::Connected { connection_id } => ServerMessage::Connected { connection_id },
    }
}

/// A frame a secure-line client sends to the relay.
pub enum SecureLineClientMessage {
    Init { id: String },
    Broadcast { event: String, data: Option<String>, all: Option<bool> },
    CallPeer { peer_id: String, method: String, param: String },
}

/// The abstract value of a [`SecureLineClientMessage`].
pub enum SecureLineClientMessageView {
    Init { id: Seq<char> },
    Broadcast { event: Seq<char>, data: Option<Seq<char>>, all: Option<bool> },
    CallPeer { peer_id: Seq<char>, method: Seq<char>, param: Seq<char> },
}

impl DeepView for SecureLineClientMessage {
    type V = SecureLineClientMessageView;

    open spec fn deep_view(&self) -> SecureLineClientMessageView {
        match self {
            SecureLineClientMessage::Init { id } => SecureLineClientMessageView::Init {
                id: id.deep_view(),
            },
            SecureLineClientMessage::Broadcast { event, data, all } => {
                SecureLineClientMessageView::Broadcast {
                    event: event.deep_view(),
                    data: data.deep_view(),
                    all: *all,
                }
            },
            SecureLineClientMessage::CallPeer { peer_id, method, param } => {
                SecureLineClientMessageView::CallPeer {
                    peer_id: peer_id.deep_view(),
                    method: method.deep_view(),
                    param: param.deep_view(),
                }
            },
        }
    }
}

/// A frame the relay sends to a secure-line client.
pub enum SecureLineServerMessage {
    Broadcast { event: String, data: Option<String> },
    StartKeyExchange { peer_id: String, pka: String, initiate: bool },
    Callback { method: String, data: String },
}

/// The abstract value of a [`SecureLineServerMessage`].
pub enum SecureLineServerMessageView {
    Broadcast { event: Seq<char>, data: Option<Seq<char>> },
    StartKeyExchange { peer_id: Seq<char>, pka: Seq<char>, initiate: bool },
    Callback { method: Seq<char>, data: Seq<char> },
}

impl DeepView for SecureLineServerMessage {
    type V = SecureLineServerMessageView;

    open spec fn deep_view(&self) -> SecureLineServerMessageView {
        match self {
            SecureLineServerMessage::Broadcast { event, data } => {
                SecureLineServerMessageView::Broadcast {
                    event: event.deep_view(),
                    data: data.deep_view(),
                }
            },
            SecureLineServerMessage::StartKeyExchange { peer_id, pka, initiate } => {
                SecureLineServerMessageView::StartKeyExchange {
                    peer_id: peer_id.deep_view(),
                    pka: pka.deep_view(),
                    initiate: *initiate,
                }
            },
            SecureLineServerMessage::Callback { method, data } => {
                SecureLineServerMessageView::Callback {
                    method: method.deep_view(),
                    data: data.deep_view(),
                }
            },
        }
    }
}

/// An event queued for one secure-line connection's outbound channel.
pub enum SecureLineNotification {
    Broadcast { event: String, data: Option<String> },
    StartKeyExchange { peer_id: String, pka: String, initiate: bool },
    Callback { method: String, data: String },
}

/// The abstract value of a [`SecureLineNotification`].
pub enum SecureLineNotificationView {
    Broadcast { event: Seq<char>, data: Option<Seq<char>> },
    StartKeyExchange { peer_id: Seq<char>, pka: Seq<char>, initiate: bool },
    Callback { method: Seq<char>, data: Seq<char> },
}

impl DeepView for SecureLineNotification {
    type V = SecureLineNotificationView;

    open spec fn deep_view(&self) -> SecureLineNotificationView {
        match self {
            SecureLineNotification::Broadcast { event, data } => {
                SecureLineNotificationView::Broadcast {
                    event: event.deep_view(),
                    data: data.deep_view(),
                }
            },
            SecureLineNotification::StartKeyExchange { peer_id, pka, initiate } => {
                SecureLineNotificationView::StartKeyExchange {
                    peer_id: peer_id.deep_view(),
                    pka: pka.deep_view(),
                    initiate: *initiate,
                }
            },
            SecureLineNotification::Callback { method, data } => {
                SecureLineNotificationView::Callback {
                    method: method.deep_view(),
                    data: data.deep_view(),
                }
            },
        }
    }
}

impl Clone for SecureLineNotification {
    fn clone(&self) -> (r: Self)
        ensures
            r.deep_view() == self.deep_view(),
    {
        match self {
            SecureLineNotification::Broadcast { event, data } => {
                SecureLineNotification::Broadcast { event: event.clone(), data: data.clone() }
            },
            SecureLineNotification::StartKeyExchange { peer_id, pka, initiate } => {
                SecureLineNotification::StartKeyExchange {
                    peer_id: peer_id.clone(),
                    pka: pka.clone(),
                    initiate: *initiate,
                }
            },
            SecureLineNotification::Callback { method, data } => {
                SecureLineNotification::Callback { method: method.clone(), data: data.clone() }
            },
        }
    }
}

/// The wire message carrying a queued notification to a secure-line client.
pub open spec fn secure_line_server_message_of(
    n: SecureLineNotificationView,
) -> SecureLineServerMessageView {
    match n {
        SecureLineNotificationView::Broadcast { event, data } => {
            SecureLineServerMessageView::Broadcast { event, data }
        },
        SecureLineNotificationView::StartKeyExchange { peer_id, pka, initiate } => {
            SecureLineServerMessageView::StartKeyExchange { peer_id, pka, initiate }
        },
        SecureLineNotificationView::Callback { method, data } => {
            SecureLineServerMessageView::Callback { method, data }
        },
    }
}

/// Turns a queued secure-line notification into its wire message.
pub fn to_secure_line_server_message(n: SecureLineNotification) -> (r: SecureLineServerMessage)
    ensures
        r.deep_view() == secure_line_server_message_of(n.deep_view()),
{
    match n {
        SecureLineNotification::Broadcast { event, data } => SecureLineServerMessage::Broadcast {
            event,
            data,
        },
        SecureLineNotification::StartKeyExchange { peer_id, pka, initiate } => {
            SecureLineServerMessage::StartKeyExchange { peer_id, pka, initiate }
        },
        SecureLineNotification::Callback { method, data } => SecureLineServerMessage::Callback {
            method,
            data,
        },
    }
}

/// One queued delivery: an event bound for one connection's channel.
pub struct Delivery {
    pub to: String,
    pub event: WsNotification,
}

/// The abstract value of a [`Delivery`].
pub struct DeliveryView {
    pub to: Seq<char>,
    pub event: WsNotificationView,
}

impl DeepView for Delivery {
    type V = DeliveryView;

    open spec fn deep_view(&self) -> DeliveryView {
        DeliveryView { to: self.to.deep_view(), event: self.event.deep_view() }
    }
}

/// One queued secure-line delivery.
pub struct SecureLineDelivery {
    pub to: String,
    pub event: SecureLineNotification,
}

/// The abstract value of a [`SecureLineDelivery`].
pub struct SecureLineDeliveryView {
    pub to: Seq<char>,
    pub event: SecureLineNotificationView,
}

impl DeepView for SecureLineDelivery {
    type V = SecureLineDeliveryView;

    open spec fn deep_view(&self) -> SecureLineDeliveryView {
        SecureLineDeliveryView { to: self.to.deep_view(), event: self.event.deep_view() }
    }
}

} // verus!
