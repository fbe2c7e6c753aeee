//! Conversations: writing, recording and listing messages.

use crate::clock::{auto_open_rate_ok, now_ms, rate_allows, stamp};
use crate::ids::{is_uuid_text, new_uuid};
use crate::links::{is_http, is_http_url};
use crate::model::{
    outcome, views, AppResult, ChatMessage, MessageView, PeerDevice, PeerView, PersistedState,
    StateView, WireMessage, WireView,
};
use crate::peers::{
    ensure_paired, get_peer, is_first_of, is_unknown, lemma_first_of, lemma_unknown, paired,
    paired_check, peer_with_id,
};
use crate::roster::elapsed_fits;
use crate::text::{clone_opt, opt_text, same_text};
use vstd::prelude::*;

verus! {

/// A message that carries nothing but its text.
pub open spec fn plain_message(
    id: Seq<char>,
    peer_id: Seq<char>,
    direction: Seq<char>,
    kind: Seq<char>,
    text: Seq<char>,
    created_at: i64,
) -> MessageView {
    MessageView {
        id,
        peer_id,
        direction,
        text,
        created_at,
        kind,
        file_name: None,
        file_size: None,
        file_path: None,
        url: None,
    }
}

/// A message about a link.
pub open spec fn link_message(
    id: Seq<char>,
    peer_id: Seq<char>,
    direction: Seq<char>,
    url: Seq<char>,
    created_at: i64,
) -> MessageView {
    MessageView { url: Some(url), ..plain_message(id, peer_id, direction, "link"@, url, created_at) }
}

/// A message about a file.
pub open spec fn file_message(
    id: Seq<char>,
    peer_id: Seq<char>,
    direction: Seq<char>,
    file_name: Seq<char>,
    file_size: u64,
    file_path: Option<Seq<char>>,
    created_at: i64,
) -> MessageView {
    MessageView {
        file_name: Some(file_name),
        file_size: Some(file_size),
        file_path,
        ..plain_message(id, peer_id, direction, "file"@, file_name, created_at)
    }
}

/// Whether an id and a time stamp are fresh.
pub open spec fn freshly_stamped(message: MessageView) -> bool {
    is_uuid_text(message.id) && exists|millis: Option<u128>|
        message.created_at == #[trigger] stamp(millis)
}

/// A message with the given id and time.
pub fn chat_message(
    id: String,
    peer_id: String,
    direction: &str,
    kind: &str,
    text: String,
    created_at: i64,
) -> (r: ChatMessage)
    ensures
        r@ == plain_message(id@, peer_id@, direction@, kind@, text@, created_at),
{
    ChatMessage {
        id,
        peer_id,
        direction: direction.to_string(),
        text,
        created_at,
        kind: kind.to_string(),
        file_name: None,
        file_size: None,
        file_path: None,
        url: None,
    }
}

/// A message with a fresh id, written now.
pub fn make_chat_message(peer_id: String, direction: &str, kind: &str, text: String) -> (r:
    ChatMessage)
    ensures
        freshly_stamped(r@),
        r@ == plain_message(r@.id, peer_id@, direction@, kind@, text@, r@.created_at),
{
    let id = new_uuid();
    let now: i64 = now_ms();
    chat_message(id, peer_id, direction, kind, text, now)
}

/// A message about a link, with a fresh id, written now.
pub fn make_link_message(peer_id: String, direction: &str, url: &str) -> (r: ChatMessage)
    ensures
        freshly_stamped(r@),
        r@ == link_message(r@.id, peer_id@, direction@, url@, r@.created_at),
{
    let mut message = make_chat_message(peer_id, direction, "link", url.to_string());
    message.url = Some(url.to_string());
    message
}

/// A message about a file, with a fresh id, written now.
pub fn make_file_message(
    peer_id: String,
    direction: &str,
    file_name: &str,
    file_size: u64,
    file_path: Option<String>,
) -> (r: ChatMessage)
    ensures
        freshly_stamped(r@),
        r@ == file_message(
            r@.id,
            peer_id@,
            direction@,
            file_name@,
            file_size,
            crate::text::opt_text(file_path),
            r@.created_at,
        ),
{
    let mut message = make_chat_message(peer_id, direction, "file", file_name.to_string());
    message.file_name = Some(file_name.to_string());
    message.file_size = Some(file_size);
    message.file_path = file_path;
    message
}

/// The state after a message was recorded.
pub open spec fn with_message(state: StateView, message: MessageView) -> StateView {
    StateView { messages: state.messages.push(message), ..state }
}

/// Adds a message to the end of the history.
pub fn record_chat_message(state: &mut PersistedState, message: ChatMessage)
    ensures
        final(state)@ == with_message(old(state)@, message@),
{
    let ghost before = state@.messages;
    state.messages.push(message);
    proof {
        assert(state@.messages =~= before.push(message@));
    }
}

/// The conversation with a peer.
pub open spec fn conversation(messages: Seq<MessageView>, peer_id: Seq<char>) -> Seq<MessageView> {
    messages.filter(|message: MessageView| message.peer_id == peer_id)
}

/// The conversation with a peer, in order.
pub fn list_messages(state: &PersistedState, peer_id: &str) -> (r: Vec<ChatMessage>)
    ensures
        views(r@) == conversation(state@.messages, peer_id@),
{
    let ghost all = state@.messages;
    let mut found: Vec<ChatMessage> = Vec::new();
    let mut i: usize = 0;
    proof {
        reveal(Seq::filter);
        assert(views(found@) =~= conversation(all.take(0), peer_id@));
    }
    while i < state.messages.len()
        invariant
            i <= state.messages@.len(),
            all == state@.messages,
            views(found@) == conversation(all.take(i as int), peer_id@),
        decreases state.messages@.len() - i,
    {
        proof {
            reveal(Seq::filter);
            let next = all.take(i + 1);
            assert(next.drop_last() =~= all.take(i as int));
        }
        let ghost before = found@;
        if same_text(state.messages[i].peer_id.as_str(), peer_id) {
            found.push(state.messages[i].clone());
            proof {
                assert(views(found@) =~= views(before).push(all[i as int]));
            }
        }
        i = i + 1;
    }
    proof {
        assert(all.take(i as int) =~= all);
    }
    found
}

/// Forgets every conversation.
pub fn clear_messages(state: &mut PersistedState)
    ensures
        final(state)@ == (StateView { messages: Seq::empty(), ..old(state)@ }),
{
    state.messages.clear();
    proof {
        assert(state@.messages =~= Seq::empty());
    }
}

/// What goes out for one peer: the peer to dial and the message for it.
#[derive(Debug)]
pub struct Outgoing {
    pub peer: PeerDevice,
    pub message: WireMessage,
}

/// View of an [`Outgoing`].
#[verifier::ext_equal]
pub struct OutgoingView {
    pub peer: PeerView,
    pub message: WireView,
}

impl View for Outgoing {
    type V = OutgoingView;

    open spec fn view(&self) -> OutgoingView {
        OutgoingView { peer: self.peer@, message: self.message@ }
    }
}

/// What goes out when the user sends a text.
pub open spec fn outgoing_text(state: StateView, peer_id: Seq<char>, text: Seq<char>) -> Result<
    OutgoingView,
    Seq<char>,
> {
    match paired_check(state.peers, peer_id) {
        Ok(_) => Ok(
            OutgoingView {
                peer: peer_with_id(state.peers, peer_id)->Ok_0,
                message: WireView::Chat { peer_id: state.setup.device_id, text },
            },
        ),
        Err(complaint) => Err(complaint),
    }
}

/// Prepares a text for a paired peer. Once it is sent, it is recorded as a
/// message of kind "text" sent to that peer.
pub fn send_message(state: &PersistedState, peer_id: &str, text: &str) -> (r: AppResult<Outgoing>)
    ensures
        outcome(r) == outgoing_text(state@, peer_id@, text@),
{
    ensure_paired(state, peer_id)?;
    let peer = get_peer(state, peer_id)?;
    Ok(
        Outgoing {
            peer,
            message: WireMessage::Chat {
                peer_id: state.setup.device_id.clone(),
                text: text.to_string(),
            },
        },
    )
}

/// Records a text that was sent to a peer and gives the message.
pub fn record_sent_message(state: &mut PersistedState, peer_id: &str, text: &str) -> (r: ChatMessage)
    ensures
        freshly_stamped(r@),
        r@ == plain_message(r@.id, peer_id@, "sent"@, "text"@, text@, r@.created_at),
        final(state)@ == with_message(old(state)@, r@),
{
    let message = make_chat_message(peer_id.to_string(), "sent", "text", text.to_string());
    let copy = message.clone();
    record_chat_message(state, message);
    copy
}

/// Whether `r` and `after` are what becomes of a text that arrives: recorded and
/// given back where it comes from a paired peer, refused otherwise.
pub open spec fn is_text_received(
    before: StateView,
    peer_id: Seq<char>,
    text: Seq<char>,
    after: StateView,
    r: AppResult<ChatMessage>,
) -> bool {
    match paired_check(before.peers, peer_id) {
        Ok(_) => {
            &&& r is Ok
            &&& freshly_stamped(r->Ok_0@)
            &&& r->Ok_0@ == plain_message(
                r->Ok_0@.id,
                peer_id,
                "received"@,
                "text"@,
                text,
                r->Ok_0@.created_at,
            )
            &&& after == with_message(before, r->Ok_0@)
        },
        Err(complaint) => {
            &&& r is Err && r->Err_0@ == complaint
            &&& after == before
        },
    }
}

/// Records a text received from a paired peer and gives the message; refuses it
/// from anyone else.
pub fn receive_message(state: &mut PersistedState, peer_id: &str, text: &str) -> (r: AppResult<
    ChatMessage,
>)
    ensures
        is_text_received(old(state)@, peer_id@, text@, final(state)@, r),
{
    match ensure_paired(state, peer_id) {
        Ok(_) => {},
        Err(complaint) => return Err(complaint),
    }
    let message = make_chat_message(peer_id.to_string(), "received", "text", text.to_string());
    let copy = message.clone();
    record_chat_message(state, message);
    Ok(copy)
}

/// A received link that was recorded, and whether to open it at once.
#[derive(Debug)]
pub struct ReceivedLink {
    pub message: ChatMessage,
    pub open: bool,
}

/// Whether `r`, `after` and `last_after` are what becomes of a link that arrives:
/// refused where it does not come from a paired peer, dropped where it is not
/// http(s), and recorded otherwise. It is to be opened at once only if the user
/// asked for that and the last opening was long enough ago.
pub open spec fn is_link_received(
    before: StateView,
    last_before: i64,
    peer_id: Seq<char>,
    url: Seq<char>,
    now: i64,
    after: StateView,
    last_after: i64,
    r: AppResult<Option<ReceivedLink>>,
) -> bool {
    match paired_check(before.peers, peer_id) {
        Ok(_) => if is_http(url) {
            &&& r is Ok && r->Ok_0 is Some
            &&& ({
                let link = r->Ok_0->Some_0;
                &&& freshly_stamped(link.message@)
                &&& link.message@ == link_message(
                    link.message@.id,
                    peer_id,
                    "received"@,
                    url,
                    link.message@.created_at,
                )
                &&& after == with_message(before, link.message@)
                &&& link.open == (before.setup.auto_open && rate_allows(last_before, now))
                &&& last_after == if link.open {
                    now
                } else {
                    last_before
                }
            })
        } else {
            &&& r is Ok && r->Ok_0 is None
            &&& after == before
            &&& last_after == last_before
        },
        Err(complaint) => {
            &&& r is Err && r->Err_0@ == complaint
            &&& after == before
            &&& last_after == last_before
        },
    }
}

/// Records a link received from a paired peer, and decides whether to open it at
/// once. Links that are not http(s) are dropped.
pub fn receive_link(
    state: &mut PersistedState,
    last_auto_open: &mut i64,
    peer_id: &str,
    url: &str,
    now: i64,
) -> (r: AppResult<Option<ReceivedLink>>)
    requires
        old(state)@.setup.auto_open ==> elapsed_fits(*old(last_auto_open), now),
    ensures
        is_link_received(
            old(state)@,
            *old(last_auto_open),
            peer_id@,
            url@,
            now,
            final(state)@,
            *final(last_auto_open),
            r,
        ),
{
    match ensure_paired(state, peer_id) {
        Ok(_) => {},
        Err(complaint) => return Err(complaint),
    }
    if !is_http_url(url) {
        return Ok(None);
    }
    let auto: bool = state.setup.auto_open;
    let message = make_link_message(peer_id.to_string(), "received", url);
    let copy = message.clone();
    record_chat_message(state, message);
    let open: bool = auto && auto_open_rate_ok(last_auto_open, now);
    Ok(Some(ReceivedLink { message: copy, open }))
}

/// The sender's sign that someone is typing goes to paired peers only.
pub fn send_typing(state: &PersistedState, peer_id: &str, is_typing: bool) -> (r: Option<Outgoing>)
    ensures
        r is Some <==> paired_check(state@.peers, peer_id@) is Ok,
        r matches Some(out) ==> out@ == (OutgoingView {
            peer: peer_with_id(state@.peers, peer_id@)->Ok_0,
            message: WireView::Typing { peer_id: state@.setup.device_id, is_typing },
        }),
{
    match get_peer(state, peer_id) {
        Ok(peer) => {
            if paired(&peer) {
                Some(
                    Outgoing {
                        peer,
                        message: WireMessage::Typing {
                            peer_id: state.setup.device_id.clone(),
                            is_typing,
                        },
                    },
                )
            } else {
                None
            }
        },
        Err(_) => None,
    }
}

/// This device's avatar goes to paired peers only.
pub fn send_profile_to_peer(state: &PersistedState, peer_id: &str) -> (r: Option<Outgoing>)
    ensures
        r is Some <==> paired_check(state@.peers, peer_id@) is Ok,
        r matches Some(out) ==> out@ == (OutgoingView {
            peer: peer_with_id(state@.peers, peer_id@)->Ok_0,
            message: WireView::Profile {
                peer_id: state@.setup.device_id,
                avatar: state@.setup.avatar,
            },
        }),
{
    match get_peer(state, peer_id) {
        Ok(peer) => {
            if paired(&peer) {
                Some(
                    Outgoing {
                        peer,
                        message: WireMessage::Profile {
                            peer_id: state.setup.device_id.clone(),
                            avatar: clone_opt(&state.setup.avatar),
                        },
                    },
                )
            } else {
                None
            }
        },
        Err(_) => None,
    }
}

/// A recorded message shows up at the end of its conversation, and in no other.
pub proof fn law_recorded_message_is_listed(
    state: StateView,
    message: MessageView,
    peer_id: Seq<char>,
)
    ensures
        conversation(with_message(state, message).messages, peer_id) == if message.peer_id
            == peer_id {
            conversation(state.messages, peer_id).push(message)
        } else {
            conversation(state.messages, peer_id)
        },
{
    reveal(Seq::filter);
    let after = state.messages.push(message);
    assert(after.drop_last() =~= state.messages);
    assert(after.last() == message);
}

/// A message made by `chat_message` carries each of the values given in the field
/// that is named after it, and nothing about a file or a link.
pub proof fn law_chat_message(
    id: String,
    peer_id: String,
    direction: &str,
    kind: &str,
    text: String,
    created_at: i64,
    r: ChatMessage,
)
    requires
        call_ensures(chat_message, (id, peer_id, direction, kind, text, created_at), r),
    ensures
        r.id@ == id@,
        r.peer_id@ == peer_id@,
        r.direction@ == direction@,
        r.kind@ == kind@,
        r.text@ == text@,
        r.created_at == created_at,
        r.file_name is None && r.file_size is None && r.file_path is None && r.url is None,
{
}

/// A message made by `make_chat_message` carries the text, the peer, the direction
/// and the kind given, a fresh id, and nothing about a file or a link.
pub proof fn law_make_chat_message(
    peer_id: String,
    direction: &str,
    kind: &str,
    text: String,
    r: ChatMessage,
)
    requires
        call_ensures(make_chat_message, (peer_id, direction, kind, text), r),
    ensures
        is_uuid_text(r.id@),
        r.peer_id@ == peer_id@,
        r.direction@ == direction@,
        r.kind@ == kind@,
        r.text@ == text@,
        r.file_name is None && r.file_size is None && r.file_path is None && r.url is None,
{
}

/// A message made by `make_link_message` is of kind "link" and carries the link both
/// as its text and as its link.
pub proof fn law_make_link_message(peer_id: String, direction: &str, url: &str, r: ChatMessage)
    requires
        call_ensures(make_link_message, (peer_id, direction, url), r),
    ensures
        is_uuid_text(r.id@),
        r.peer_id@ == peer_id@,
        r.direction@ == direction@,
        r.kind@ == "link"@,
        r.text@ == url@,
        r.url is Some && r.url->Some_0@ == url@,
        r.file_name is None && r.file_size is None && r.file_path is None,
{
}

/// A message made by `make_file_message` is of kind "file" and carries the name of
/// the file as its text, and its name, size and place.
pub proof fn law_make_file_message(
    peer_id: String,
    direction: &str,
    file_name: &str,
    file_size: u64,
    file_path: Option<String>,
    r: ChatMessage,
)
    requires
        call_ensures(make_file_message, (peer_id, direction, file_name, file_size, file_path), r),
    ensures
        is_uuid_text(r.id@),
        r.peer_id@ == peer_id@,
        r.direction@ == direction@,
        r.kind@ == "file"@,
        r.text@ == file_name@,
        r.file_name is Some && r.file_name->Some_0@ == file_name@,
        r.file_size == Some(file_size),
        match file_path {
            Some(path) => r.file_path is Some && r.file_path->Some_0@ == path@,
            None => r.file_path is None,
        },
        r.url is None,
{
}

/// Recording a message adds it at the end of the history and changes nothing else.
pub proof fn law_record_chat_message(state: &mut PersistedState, message: ChatMessage)
    requires
        call_ensures(record_chat_message, (state, message), ()),
    ensures
        final(state)@.messages == old(state)@.messages.push(message@),
        final(state)@.setup == old(state)@.setup,
        final(state)@.peers == old(state)@.peers,
        final(state)@.transfers == old(state)@.transfers,
{
}

/// The conversation with a peer is what the history holds with that peer, in order.
pub proof fn law_list_messages(state: &PersistedState, peer_id: &str, r: Vec<ChatMessage>)
    requires
        call_ensures(list_messages, (state, peer_id), r),
    ensures
        views(r@) == state@.messages.filter(|message: MessageView| message.peer_id == peer_id@),
{
    assert(views(r@) == conversation(state@.messages, peer_id@));
}

/// After `clear_messages` no conversation holds anything, and nothing else changed.
pub proof fn law_clear_messages(state: &mut PersistedState)
    requires
        call_ensures(clear_messages, (state,), ()),
    ensures
        final(state).messages@.len() == 0,
        final(state)@.setup == old(state)@.setup,
        final(state)@.peers == old(state)@.peers,
        final(state)@.transfers == old(state)@.transfers,
{
    assert(final(state)@.messages.len() == final(state).messages@.len());
}

/// A text for the paired peer at `k` goes to that very peer, word for word, in this
/// device's name; one for a peer that is unknown or not paired goes nowhere.
pub proof fn law_send_message(
    state: &PersistedState,
    peer_id: &str,
    text: &str,
    k: int,
    r: AppResult<Outgoing>,
)
    requires
        call_ensures(send_message, (state, peer_id, text), r),
    ensures
        is_first_of(state.peers@, peer_id@, k) ==> (r is Ok <==> state.peers@[k].trust_state@
            == "paired"@),
        is_unknown(state.peers@, peer_id@) ==> r is Err
            && r->Err_0@ == "Peer not found."@,
        is_first_of(state.peers@, peer_id@, k) && state.peers@[k].trust_state@
            != "paired"@ ==> r is Err && r->Err_0@ == state.peers@[k].name@ + " is not paired."@,
        is_first_of(state.peers@, peer_id@, k) && r is Ok ==> {
            &&& r->Ok_0.peer@ == state.peers@[k]@
            &&& r->Ok_0.peer.host@ == state.peers@[k].host@
            &&& r->Ok_0.peer.port == state.peers@[k].port
            &&& r->Ok_0.message is Chat
            &&& r->Ok_0.message->Chat_peer_id@ == state.setup.device_id@
            &&& r->Ok_0.message->text@ == text@
        },
{
    if is_first_of(state.peers@, peer_id@, k) {
        lemma_first_of(state.peers@, peer_id@, k);
    }
    if is_unknown(state.peers@, peer_id@) {
        lemma_unknown(state.peers@, peer_id@);
    }
}

/// A text that was sent is recorded once, at the end of the history, as a message of
/// kind "text" sent to its peer, word for word; it is what is given back, and nothing
/// else changes.
pub proof fn law_record_sent_message(
    state: &mut PersistedState,
    peer_id: &str,
    text: &str,
    r: ChatMessage,
)
    requires
        call_ensures(record_sent_message, (state, peer_id, text), r),
    ensures
        final(state)@.messages == old(state)@.messages.push(r@),
        is_uuid_text(r.id@),
        r.peer_id@ == peer_id@,
        r.direction@ == "sent"@,
        r.kind@ == "text"@,
        r.text@ == text@,
        r.file_name is None && r.file_size is None && r.file_path is None && r.url is None,
        final(state)@.setup == old(state)@.setup,
        final(state)@.peers == old(state)@.peers,
        final(state)@.transfers == old(state)@.transfers,
{
}

/// A text received from a paired peer is recorded once, at the end of the history
/// and of the conversation with that peer, as a message of kind "text" received from
/// it, character for character; it is what is given back, and nothing else changes.
/// One from anyone else is refused and changes nothing.
pub proof fn law_receive_message(
    state: &mut PersistedState,
    peer_id: &str,
    text: &str,
    k: int,
    r: AppResult<ChatMessage>,
)
    requires
        call_ensures(receive_message, (state, peer_id, text), r),
    ensures
        is_first_of(old(state).peers@, peer_id@, k) ==> (r is Ok
            <==> old(state).peers@[k].trust_state@ == "paired"@),
        is_unknown(old(state).peers@, peer_id@) ==> r is Err
            && r->Err_0@ == "Peer not found."@,
        is_first_of(old(state).peers@, peer_id@, k) && old(state).peers@[k].trust_state@
            != "paired"@ ==> r is Err && r->Err_0@ == old(state).peers@[k].name@ + " is not paired."@,
        r is Ok ==> {
            &&& final(state)@.messages == old(state)@.messages.push(r->Ok_0@)
            &&& final(state)@.messages.filter(
                |message: MessageView| message.peer_id == peer_id@,
            ).last() == r->Ok_0@
            &&& is_uuid_text(r->Ok_0.id@)
            &&& r->Ok_0.peer_id@ == peer_id@
            &&& r->Ok_0.direction@ == "received"@
            &&& r->Ok_0.kind@ == "text"@
            &&& r->Ok_0.text@ == text@
            &&& r->Ok_0.file_name is None && r->Ok_0.file_size is None
            &&& r->Ok_0.file_path is None && r->Ok_0.url is None
        },
        r is Err ==> final(state)@.messages == old(state)@.messages,
        final(state)@.setup == old(state)@.setup,
        final(state)@.peers == old(state)@.peers,
        final(state)@.transfers == old(state)@.transfers,
{
    if is_first_of(old(state).peers@, peer_id@, k) {
        lemma_first_of(old(state).peers@, peer_id@, k);
    }
    if is_unknown(old(state).peers@, peer_id@) {
        lemma_unknown(old(state).peers@, peer_id@);
    }
    if r is Ok {
        law_recorded_message_is_listed(old(state)@, r->Ok_0@, peer_id@);
        assert(final(state)@.messages.filter(|message: MessageView| message.peer_id == peer_id@)
            == conversation(final(state)@.messages, peer_id@));
    }
}

/// A link received from a paired peer is recorded, as it came, at the end of the
/// history if it is http(s), and dropped otherwise; one from anyone else is refused.
/// It is opened at once exactly if the user asked for that and the last opening was
/// at least 1.2 s ago, and then that opening is remembered.
pub proof fn law_receive_link(
    state: &mut PersistedState,
    last_auto_open: &mut i64,
    peer_id: &str,
    url: &str,
    now: i64,
    k: int,
    http: bool,
    r: AppResult<Option<ReceivedLink>>,
)
    requires
        call_ensures(receive_link, (state, last_auto_open, peer_id, url, now), r),
        call_ensures(is_http_url, (url,), http),
    ensures
        is_first_of(old(state).peers@, peer_id@, k) ==> (r is Ok
            <==> old(state).peers@[k].trust_state@ == "paired"@),
        is_unknown(old(state).peers@, peer_id@) ==> r is Err
            && r->Err_0@ == "Peer not found."@,
        is_first_of(old(state).peers@, peer_id@, k) && old(state).peers@[k].trust_state@
            != "paired"@ ==> r is Err && r->Err_0@ == old(state).peers@[k].name@ + " is not paired."@,
        r is Ok ==> (r->Ok_0 is Some <==> http),
        r matches Ok(Some(link)) ==> {
            &&& final(state)@.messages == old(state)@.messages.push(link.message@)
            &&& is_uuid_text(link.message.id@)
            &&& link.message.peer_id@ == peer_id@
            &&& link.message.direction@ == "received"@
            &&& link.message.kind@ == "link"@
            &&& link.message.text@ == url@
            &&& link.message.url is Some && link.message.url->Some_0@ == url@
            &&& link.message.file_name is None && link.message.file_size is None
            &&& link.message.file_path is None
            &&& link.open <==> old(state).setup.auto_open && now - *old(last_auto_open) >= 1_200
            &&& *final(last_auto_open) == if link.open {
                now
            } else {
                *old(last_auto_open)
            }
        },
        !(r is Ok && r->Ok_0 is Some) ==> {
            &&& final(state)@.messages == old(state)@.messages
            &&& *final(last_auto_open) == *old(last_auto_open)
        },
        final(state)@.setup == old(state)@.setup,
        final(state)@.peers == old(state)@.peers,
        final(state)@.transfers == old(state)@.transfers,
{
    if is_first_of(old(state).peers@, peer_id@, k) {
        lemma_first_of(old(state).peers@, peer_id@, k);
    }
    if is_unknown(old(state).peers@, peer_id@) {
        lemma_unknown(old(state).peers@, peer_id@);
    }
}

/// The sign that the user is typing, or has stopped, goes to the paired peer at `k`
/// in this device's name, and to nobody who is unknown or not paired.
pub proof fn law_send_typing(
    state: &PersistedState,
    peer_id: &str,
    is_typing: bool,
    k: int,
    r: Option<Outgoing>,
)
    requires
        call_ensures(send_typing, (state, peer_id, is_typing), r),
    ensures
        is_first_of(state.peers@, peer_id@, k) ==> (r is Some <==> state.peers@[k].trust_state@
            == "paired"@),
        is_unknown(state.peers@, peer_id@) ==> r is None,
        is_first_of(state.peers@, peer_id@, k) && r is Some ==> {
            &&& r->Some_0.peer@ == state.peers@[k]@
            &&& r->Some_0.message is Typing
            &&& r->Some_0.message->Typing_peer_id@ == state.setup.device_id@
            &&& r->Some_0.message->is_typing == is_typing
        },
{
    if is_first_of(state.peers@, peer_id@, k) {
        lemma_first_of(state.peers@, peer_id@, k);
    }
    if is_unknown(state.peers@, peer_id@) {
        lemma_unknown(state.peers@, peer_id@);
    }
}

/// This device's avatar, or that it has none, goes to the paired peer at `k` in this
/// device's name, and to nobody who is unknown or not paired.
pub proof fn law_send_profile_to_peer(
    state: &PersistedState,
    peer_id: &str,
    k: int,
    r: Option<Outgoing>,
)
    requires
        call_ensures(send_profile_to_peer, (state, peer_id), r),
    ensures
        is_first_of(state.peers@, peer_id@, k) ==> (r is Some <==> state.peers@[k].trust_state@
            == "paired"@),
        is_unknown(state.peers@, peer_id@) ==> r is None,
        is_first_of(state.peers@, peer_id@, k) && r is Some ==> {
            &&& r->Some_0.peer@ == state.peers@[k]@
            &&& r->Some_0.message is Profile
            &&& r->Some_0.message->Profile_peer_id@ == state.setup.device_id@
            &&& opt_text(r->Some_0.message->avatar) == opt_text(state.setup.avatar)
        },
{
    if is_first_of(state.peers@, peer_id@, k) {
        lemma_first_of(state.peers@, peer_id@, k);
    }
    if is_unknown(state.peers@, peer_id@) {
        lemma_unknown(state.peers@, peer_id@);
    }
}

} // verus!
