//! The data that SimplePass keeps and exchanges.
//!
//! Each type has a view in which every text is a `Seq<char>`; contracts speak of
//! the views.

use crate::text::{clone_opt, opt_text};
use vstd::prelude::*;

verus! {

/// Every fallible operation reports its failure as a sentence for the user.
pub type AppResult<T> = Result<T, String>;

/// UDP port of the discovery broadcasts.
pub const DISCOVERY_PORT: u16 = 45937;

/// TCP port of the peer transport.
pub const TRANSPORT_PORT: u16 = 45938;

/// First field of every discovery packet.
pub const DISCOVERY_MAGIC: &'static str = "simplepass:v1";

/// A peer silent for longer than this is offline.
pub const PEER_OFFLINE_AFTER_MS: i64 = 9_000;

/// Bytes of a file sent in one chunk.
pub const FILE_CHUNK_SIZE: usize = 65_536;

/// Largest declared size accepted for an incoming file: 50 GiB.
pub const MAX_INCOMING_FILE_SIZE: u64 = 53_687_091_200;

/// Largest staged file of which the sender keeps a durable copy: 10 MiB.
pub const MAX_SENDER_PERSIST_BYTES: u64 = 10_485_760;

/// Largest single line read off a connection: 1 MiB.
pub const MAX_LINE_BYTES: u64 = 1_048_576;

/// Largest avatar data URL stored or forwarded, in bytes: 256 KiB.
pub const MAX_AVATAR_LEN: usize = 262_144;

/// Most transfer rows kept in the history.
pub const MAX_PERSISTED_TRANSFERS: usize = 200;

/// Most inbound connections handled at once.
pub const MAX_CONNECTION_THREADS: usize = 128;

/// Longest peer-supplied device name kept, in characters.
pub const MAX_DEVICE_NAME_LEN: usize = 80;

/// Most peers kept; paired peers are never evicted to make room.
pub const MAX_PEERS: usize = 256;

/// Largest file assembled in the staging area: 2 GiB.
pub const MAX_STAGED_FILE_SIZE: u64 = 2_147_483_648;

/// Least time between two automatic openings of received content.
pub const AUTO_OPEN_MIN_INTERVAL_MS: i64 = 1200;

/// The view of an outcome: that of the value, or the text of the failure.
pub open spec fn outcome<T: View>(r: AppResult<T>) -> Result<T::V, Seq<char>> {
    match r {
        Ok(value) => Ok(value@),
        Err(failure) => Err(failure@),
    }
}

/// The views of the items of a sequence.
pub open spec fn views<T: View>(s: Seq<T>) -> Seq<T::V> {
    s.map_values(|x: T| x@)
}

/// This computer's own settings and identity.
#[derive(Debug)]
pub struct SetupState {
    /// Whether the first-launch naming has been done.
    pub configured: bool,
    pub device_id: String,
    /// Base64 of this device's X25519 secret.
    pub identity_secret: String,
    pub device_name: String,
    pub start_at_login: bool,
    pub avatar: Option<String>,
    /// Whether the always-on-top floating desktop icon is shown.
    pub floating_icon: bool,
    /// Whether received files and links are opened as they arrive.
    pub auto_open: bool,
    /// "light" or "dark".
    pub theme: String,
    /// Last horizontal position of the floating icon, as the bits of an IEEE double.
    pub widget_x: Option<u64>,
    /// Last vertical position of the floating icon, as the bits of an IEEE double.
    pub widget_y: Option<u64>,
}

/// View of a [`SetupState`].
#[verifier::ext_equal]
pub struct SetupView {
    pub configured: bool,
    pub device_id: Seq<char>,
    pub identity_secret: Seq<char>,
    pub device_name: Seq<char>,
    pub start_at_login: bool,
    pub avatar: Option<Seq<char>>,
    pub floating_icon: bool,
    pub auto_open: bool,
    pub theme: Seq<char>,
    pub widget_x: Option<u64>,
    pub widget_y: Option<u64>,
}

impl View for SetupState {
    type V = SetupView;

    open spec fn view(&self) -> SetupView {
        SetupView {
            configured: self.configured,
            device_id: self.device_id@,
            identity_secret: self.identity_secret@,
            device_name: self.device_name@,
            start_at_login: self.start_at_login,
            avatar: opt_text(self.avatar),
            floating_icon: self.floating_icon,
            auto_open: self.auto_open,
            theme: self.theme@,
            widget_x: self.widget_x,
            widget_y: self.widget_y,
        }
    }
}

impl Clone for SetupState {
    fn clone(&self) -> (r: Self)
        ensures
            r@ == self@,
    {
        SetupState {
            configured: self.configured,
            device_id: self.device_id.clone(),
            identity_secret: self.identity_secret.clone(),
            device_name: self.device_name.clone(),
            start_at_login: self.start_at_login,
            avatar: clone_opt(&self.avatar),
            floating_icon: self.floating_icon,
            auto_open: self.auto_open,
            theme: self.theme.clone(),
            widget_x: self.widget_x,
            widget_y: self.widget_y,
        }
    }
}

/// The part of the settings that the user interface may see.
#[derive(Debug)]
pub struct SetupResponse {
    pub configured: bool,
    pub device_id: String,
    pub device_name: String,
    pub start_at_login: bool,
    pub avatar: Option<String>,
    pub floating_icon: bool,
    pub auto_open: bool,
    pub theme: String,
    /// Base64 of this device's X25519 public key, for reading a fingerprint out loud.
    pub public_key: Option<String>,
}

/// View of a [`SetupResponse`].
#[verifier::ext_equal]
pub struct ResponseView {
    pub configured: bool,
    pub device_id: Seq<char>,
    pub device_name: Seq<char>,
    pub start_at_login: bool,
    pub avatar: Option<Seq<char>>,
    pub floating_icon: bool,
    pub auto_open: bool,
    pub theme: Seq<char>,
    pub public_key: Option<Seq<char>>,
}

impl View for SetupResponse {
    type V = ResponseView;

    open spec fn view(&self) -> ResponseView {
        ResponseView {
            configured: self.configured,
            device_id: self.device_id@,
            device_name: self.device_name@,
            start_at_login: self.start_at_login,
            avatar: opt_text(self.avatar),
            floating_icon: self.floating_icon,
            auto_open: self.auto_open,
            theme: self.theme@,
            public_key: opt_text(self.public_key),
        }
    }
}

impl Clone for SetupResponse {
    fn clone(&self) -> (r: Self)
        ensures
            r@ == self@,
    {
        SetupResponse {
            configured: self.configured,
            device_id: self.device_id.clone(),
            device_name: self.device_name.clone(),
            start_at_login: self.start_at_login,
            avatar: clone_opt(&self.avatar),
            floating_icon: self.floating_icon,
            auto_open: self.auto_open,
            theme: self.theme.clone(),
            public_key: clone_opt(&self.public_key),
        }
    }
}

/// Another computer seen on the network.
#[derive(Debug)]
pub struct PeerDevice {
    pub id: String,
    pub name: String,
    pub host: String,
    pub port: u16,
    pub public_key: Option<String>,
    pub os: String,
    /// "online" or "offline".
    pub status: String,
    /// "unpaired", "pending" or "paired".
    pub trust_state: String,
    /// Whether this device asked the peer to pair and still awaits its answer.
    pub asked: bool,
    /// Base64 of the key shared with this peer, once paired.
    pub shared_secret: Option<String>,
    pub avatar: Option<String>,
    /// Milliseconds since the Unix epoch.
    pub last_seen: i64,
}

/// View of a [`PeerDevice`].
#[verifier::ext_equal]
pub struct PeerView {
    pub id: Seq<char>,
    pub name: Seq<char>,
    pub host: Seq<char>,
    pub port: u16,
    pub public_key: Option<Seq<char>>,
    pub os: Seq<char>,
    pub status: Seq<char>,
    pub trust_state: Seq<char>,
    pub asked: bool,
    pub shared_secret: Option<Seq<char>>,
    pub avatar: Option<Seq<char>>,
    pub last_seen: i64,
}

impl View for PeerDevice {
    type V = PeerView;

    open spec fn view(&self) -> PeerView {
        PeerView {
            id: self.id@,
            name: self.name@,
            host: self.host@,
            port: self.port,
            public_key: opt_text(self.public_key),
            os: self.os@,
            status: self.status@,
            trust_state: self.trust_state@,
            asked: self.asked,
            shared_secret: opt_text(self.shared_secret),
            avatar: opt_text(self.avatar),
            last_seen: self.last_seen,
        }
    }
}

impl Clone for PeerDevice {
    fn clone(&self) -> (r: Self)
        ensures
            r@ == self@,
    {
        PeerDevice {
            id: self.id.clone(),
            name: self.name.clone(),
            host: self.host.clone(),
            port: self.port,
            public_key: clone_opt(&self.public_key),
            os: self.os.clone(),
            status: self.status.clone(),
            trust_state: self.trust_state.clone(),
            asked: self.asked,
            shared_secret: clone_opt(&self.shared_secret),
            avatar: clone_opt(&self.avatar),
            last_seen: self.last_seen,
        }
    }
}

/// One line of a conversation.
#[derive(Debug)]
pub struct ChatMessage {
    pub id: String,
    pub peer_id: String,
    /// "sent" or "received".
    pub direction: String,
    pub text: String,
    /// Milliseconds since the Unix epoch.
    pub created_at: i64,
    /// "text", "link" or "file".
    pub kind: String,
    pub file_name: Option<String>,
    pub file_size: Option<u64>,
    pub file_path: Option<String>,
    pub url: Option<String>,
}

/// View of a [`ChatMessage`].
#[verifier::ext_equal]
pub struct MessageView {
    pub id: Seq<char>,
    pub peer_id: Seq<char>,
    pub direction: Seq<char>,
    pub text: Seq<char>,
    pub created_at: i64,
    pub kind: Seq<char>,
    pub file_name: Option<Seq<char>>,
    pub file_size: Option<u64>,
    pub file_path: Option<Seq<char>>,
    pub url: Option<Seq<char>>,
}

impl View for ChatMessage {
    type V = MessageView;

    open spec fn view(&self) -> MessageView {
        MessageView {
            id: self.id@,
            peer_id: self.peer_id@,
            direction: self.direction@,
            text: self.text@,
            created_at: self.created_at,
            kind: self.kind@,
            file_name: opt_text(self.file_name),
            file_size: self.file_size,
            file_path: opt_text(self.file_path),
            url: opt_text(self.url),
        }
    }
}

impl Clone for ChatMessage {
    fn clone(&self) -> (r: Self)
        ensures
            r@ == self@,
    {
        ChatMessage {
            id: self.id.clone(),
            peer_id: self.peer_id.clone(),
            direction: self.direction.clone(),
            text: self.text.clone(),
            created_at: self.created_at,
            kind: self.kind.clone(),
            file_name: clone_opt(&self.file_name),
            file_size: self.file_size,
            file_path: clone_opt(&self.file_path),
            url: clone_opt(&self.url),
        }
    }
}

/// One row of the transfer list.
#[derive(Debug)]
pub struct TransferProgress {
    pub id: String,
    pub peer_id: String,
    pub peer_name: String,
    pub label: String,
    /// "file" or "link".
    pub kind: String,
    /// Percent done.
    pub progress: u8,
    pub state: String,
    pub error: Option<String>,
}

/// View of a [`TransferProgress`].
#[verifier::ext_equal]
pub struct TransferView {
    pub id: Seq<char>,
    pub peer_id: Seq<char>,
    pub peer_name: Seq<char>,
    pub label: Seq<char>,
    pub kind: Seq<char>,
    pub progress: u8,
    pub state: Seq<char>,
    pub error: Option<Seq<char>>,
}

impl View for TransferProgress {
    type V = TransferView;

    open spec fn view(&self) -> TransferView {
        TransferView {
            id: self.id@,
            peer_id: self.peer_id@,
            peer_name: self.peer_name@,
            label: self.label@,
            kind: self.kind@,
            progress: self.progress,
            state: self.state@,
            error: opt_text(self.error),
        }
    }
}

impl Clone for TransferProgress {
    fn clone(&self) -> (r: Self)
        ensures
            r@ == self@,
    {
        TransferProgress {
            id: self.id.clone(),
            peer_id: self.peer_id.clone(),
            peer_name: self.peer_name.clone(),
            label: self.label.clone(),
            kind: self.kind.clone(),
            progress: self.progress,
            state: self.state.clone(),
            error: clone_opt(&self.error),
        }
    }
}

/// What a device says of itself on the network.
#[derive(Debug)]
pub struct DiscoveryPacket {
    pub magic: String,
    pub device_id: String,
    pub device_name: String,
    pub public_key: String,
    pub os: String,
    pub port: u16,
    /// Whether receivers should announce themselves at once.
    pub request: bool,
}

/// View of a [`DiscoveryPacket`].
#[verifier::ext_equal]
pub struct PacketView {
    pub magic: Seq<char>,
    pub device_id: Seq<char>,
    pub device_name: Seq<char>,
    pub public_key: Seq<char>,
    pub os: Seq<char>,
    pub port: u16,
    pub request: bool,
}

impl View for DiscoveryPacket {
    type V = PacketView;

    open spec fn view(&self) -> PacketView {
        PacketView {
            magic: self.magic@,
            device_id: self.device_id@,
            device_name: self.device_name@,
            public_key: self.public_key@,
            os: self.os@,
            port: self.port,
            request: self.request,
        }
    }
}

impl Clone for DiscoveryPacket {
    fn clone(&self) -> (r: Self)
        ensures
            r@ == self@,
    {
        DiscoveryPacket {
            magic: self.magic.clone(),
            device_id: self.device_id.clone(),
            device_name: self.device_name.clone(),
            public_key: self.public_key.clone(),
            os: self.os.clone(),
            port: self.port,
            request: self.request,
        }
    }
}

/// Everything kept across launches.
#[derive(Debug)]
pub struct PersistedState {
    pub setup: SetupState,
    pub peers: Vec<PeerDevice>,
    pub messages: Vec<ChatMessage>,
    pub transfers: Vec<TransferProgress>,
}

/// View of a [`PersistedState`].
#[verifier::ext_equal]
pub struct StateView {
    pub setup: SetupView,
    pub peers: Seq<PeerView>,
    pub messages: Seq<MessageView>,
    pub transfers: Seq<TransferView>,
}

impl View for PersistedState {
    type V = StateView;

    open spec fn view(&self) -> StateView {
        StateView {
            setup: self.setup@,
            peers: views(self.peers@),
            messages: views(self.messages@),
            transfers: views(self.transfers@),
        }
    }
}

/// A message between two devices.
#[derive(Debug)]
pub enum WireMessage {
    PairRequest { device: DiscoveryPacket },
    PairAccepted { device: DiscoveryPacket },
    Chat { peer_id: String, text: String },
    Link { peer_id: String, url: String },
    FileStart { peer_id: String, transfer_id: String, file_name: String, total_size: u64 },
    FileChunk { peer_id: String, transfer_id: String, data: String },
    FileEnd { peer_id: String, transfer_id: String },
    FileCancel { peer_id: String, transfer_id: String },
    Typing { peer_id: String, is_typing: bool },
    Profile { peer_id: String, avatar: Option<String> },
}

/// View of a [`WireMessage`].
#[verifier::ext_equal]
pub enum WireView {
    PairRequest { device: PacketView },
    PairAccepted { device: PacketView },
    Chat { peer_id: Seq<char>, text: Seq<char> },
    Link { peer_id: Seq<char>, url: Seq<char> },
    FileStart { peer_id: Seq<char>, transfer_id: Seq<char>, file_name: Seq<char>, total_size: u64 },
    FileChunk { peer_id: Seq<char>, transfer_id: Seq<char>, data: Seq<char> },
    FileEnd { peer_id: Seq<char>, transfer_id: Seq<char> },
    FileCancel { peer_id: Seq<char>, transfer_id: Seq<char> },
    Typing { peer_id: Seq<char>, is_typing: bool },
    Profile { peer_id: Seq<char>, avatar: Option<Seq<char>> },
}

impl View for WireMessage {
    type V = WireView;

    open spec fn view(&self) -> WireView {
        match self {
            WireMessage::PairRequest { device } => WireView::PairRequest { device: device@ },
            WireMessage::PairAccepted { device } => WireView::PairAccepted { device: device@ },
            WireMessage::Chat { peer_id, text } => WireView::Chat {
                peer_id: peer_id@,
                text: text@,
            },
            WireMessage::Link { peer_id, url } => WireView::Link { peer_id: peer_id@, url: url@ },
            WireMessage::FileStart { peer_id, transfer_id, file_name, total_size } => WireView::FileStart {
                peer_id: peer_id@,
                transfer_id: transfer_id@,
                file_name: file_name@,
                total_size: *total_size,
            },
            WireMessage::FileChunk { peer_id, transfer_id, data } => WireView::FileChunk {
                peer_id: peer_id@,
                transfer_id: transfer_id@,
                data: data@,
            },
            WireMessage::FileEnd { peer_id, transfer_id } => WireView::FileEnd {
                peer_id: peer_id@,
                transfer_id: transfer_id@,
            },
            WireMessage::FileCancel { peer_id, transfer_id } => WireView::FileCancel {
                peer_id: peer_id@,
                transfer_id: transfer_id@,
            },
            WireMessage::Typing { peer_id, is_typing } => WireView::Typing {
                peer_id: peer_id@,
                is_typing: *is_typing,
            },
            WireMessage::Profile { peer_id, avatar } => WireView::Profile {
                peer_id: peer_id@,
                avatar: opt_text(*avatar),
            },
        }
    }
}

impl Clone for WireMessage {
    fn clone(&self) -> (r: Self)
        ensures
            r@ == self@,
    {
        match self {
            WireMessage::PairRequest { device } => WireMessage::PairRequest {
                device: device.clone(),
            },
            WireMessage::PairAccepted { device } => WireMessage::PairAccepted {
                device: device.clone(),
            },
            WireMessage::Chat { peer_id, text } => WireMessage::Chat {
                peer_id: peer_id.clone(),
                text: text.clone(),
            },
            WireMessage::Link { peer_id, url } => WireMessage::Link {
                peer_id: peer_id.clone(),
                url: url.clone(),
            },
            WireMessage::FileStart { peer_id, transfer_id, file_name, total_size } => WireMessage::FileStart {
                peer_id: peer_id.clone(),
                transfer_id: transfer_id.clone(),
                file_name: file_name.clone(),
                total_size: *total_size,
            },
            WireMessage::FileChunk { peer_id, transfer_id, data } => WireMessage::FileChunk {
                peer_id: peer_id.clone(),
                transfer_id: transfer_id.clone(),
                data: data.clone(),
            },
            WireMessage::FileEnd { peer_id, transfer_id } => WireMessage::FileEnd {
                peer_id: peer_id.clone(),
                transfer_id: transfer_id.clone(),
            },
            WireMessage::FileCancel { peer_id, transfer_id } => WireMessage::FileCancel {
                peer_id: peer_id.clone(),
                transfer_id: transfer_id.clone(),
            },
            WireMessage::Typing { peer_id, is_typing } => WireMessage::Typing {
                peer_id: peer_id.clone(),
                is_typing: *is_typing,
            },
            WireMessage::Profile { peer_id, avatar } => WireMessage::Profile {
                peer_id: peer_id.clone(),
                avatar: clone_opt(avatar),
            },
        }
    }
}

/// What travels over a connection: a pairing message in the clear, or a sealed body.
#[derive(Debug)]
pub enum TransportEnvelope {
    Plain { message: WireMessage },
    Encrypted { peer_id: String, nonce: String, body: String },
}

/// View of a [`TransportEnvelope`].
#[verifier::ext_equal]
pub enum EnvelopeView {
    Plain { message: WireView },
    Encrypted { peer_id: Seq<char>, nonce: Seq<char>, body: Seq<char> },
}

impl View for TransportEnvelope {
    type V = EnvelopeView;

    open spec fn view(&self) -> EnvelopeView {
        match self {
            TransportEnvelope::Plain { message } => EnvelopeView::Plain { message: message@ },
            TransportEnvelope::Encrypted { peer_id, nonce, body } => EnvelopeView::Encrypted {
                peer_id: peer_id@,
                nonce: nonce@,
                body: body@,
            },
        }
    }
}

impl Clone for TransportEnvelope {
    fn clone(&self) -> (r: Self)
        ensures
            r@ == self@,
    {
        match self {
            TransportEnvelope::Plain { message } => TransportEnvelope::Plain {
                message: message.clone(),
            },
            TransportEnvelope::Encrypted { peer_id, nonce, body } => TransportEnvelope::Encrypted {
                peer_id: peer_id.clone(),
                nonce: nonce.clone(),
                body: body.clone(),
            },
        }
    }
}

/// The theme of a device that never chose one.
pub fn default_theme() -> (r: String)
    ensures
        r@ == "light"@,
{
    "light".to_string()
}

/// The kind of a chat message that does not name one.
pub fn default_message_kind() -> (r: String)
    ensures
        r@ == "text"@,
{
    "text".to_string()
}

/// What an operation reports when an earlier one died while holding the state.
pub fn lock_err<T>(_err: std::sync::PoisonError<T>) -> (r: String)
    ensures
        r@ == "Application state is unavailable."@,
{
    "Application state is unavailable.".to_string()
}

/// Declares `std::sync::PoisonError`, which is carried and never looked into.
#[verifier::external_type_specification]
#[verifier::external_body]
#[verifier::reject_recursive_types(T)]
pub struct ExPoisonError<T>(std::sync::PoisonError<T>);

/// A device that never chose a theme has the light one, and a message that names no kind
/// is a text.
pub proof fn law_defaults(theme: String, kind: String)
    requires
        call_ensures(default_theme, (), theme),
        call_ensures(default_message_kind, (), kind),
    ensures
        theme@ == "light"@,
        kind@ == "text"@,
{
}

} // verus!
