//! What an incoming message does.

use crate::chat::{
    is_link_received, is_text_received, law_recorded_message_is_listed, list_messages,
    receive_link, receive_message, send_message, send_profile_to_peer, with_message, Outgoing,
    ReceivedLink,
};
use crate::codec::{base64_decode, law_base64_round_trip};
use crate::files::sanitize_file_name;
use crate::ids::is_uuid_text;
use crate::incoming::{
    chunk_plan, is_cancel_received, is_end_received, is_start_received, receive_file_cancel,
    receive_file_chunk, receive_file_end, receive_file_start, within_limits, CancelledFile,
    ChunkPlan, FileReservation, FinishedFile, IncomingFiles, PlanView,
};
use crate::keys::{derive_shared_secret, derived_shared_secret, is_agreed};
use crate::links::is_http_url;
use crate::model::{
    views, AppResult, ChatMessage, PacketView, PeerDevice, PeerView, PersistedState, StateView,
    TransferProgress, WireMessage, WireView, MAX_AVATAR_LEN,
};
use crate::outgoing::{FileSend, Stream, StreamEvent};
use crate::peers::{
    find_peer, is_first_of, is_unknown, lemma_first_of, lemma_known_or_unknown, lemma_peer_index,
    lemma_unknown, paired_check, peer_index, peer_with_id, with_peer,
};
use crate::roster::{
    capped, carries, clamp_device_name, elapsed_fits, introduced_peer, law_cap_adds_nobody,
    law_cap_bounds_the_list, lemma_cap_on_full_list, upsert_discovered_peer, upserted,
};
use crate::setup::profile_send;
use crate::text::{byte_len, opt_text, same_text, utf8_len};
use crate::transfers::{law_history_is_capped, link_to_send};
use vstd::prelude::*;

verus! {

/// What is left to do once a message has taken its effect.
#[derive(Debug)]
pub enum Reaction {
    /// Nothing: the message was ignored.
    Nothing,
    /// The user is asked whether to pair with this peer.
    PairingRequested(PeerDevice),
    /// A peer that was asked to pair agreed; it is sent this device's avatar.
    PairingAccepted(Option<Outgoing>),
    MessageReceived(ChatMessage),
    LinkReceived(ReceivedLink),
    /// The other side began or stopped typing.
    Typing { peer_id: String, is_typing: bool },
    /// A peer changed its avatar.
    ProfileReceived,
    /// A place for a file is to be found.
    FileStarted { peer_id: String, transfer_id: String, reservation: FileReservation },
    /// A chunk was let in, or ended its transfer.
    FileChunk { peer_id: String, transfer_id: String, plan: ChunkPlan },
    FileFinished(FinishedFile),
    FileCancelled(CancelledFile),
}

/// Whether this device asked some peer of the given id to pair and still awaits
/// its answer. A peer that only asked for itself does not count.
pub open spec fn is_pending(peers: Seq<PeerView>, id: Seq<char>) -> bool {
    exists|i: int|
        0 <= i < peers.len() && (#[trigger] peers[i]).id == id && peers[i].trust_state
            == "pending"@ && peers[i].asked
}

/// Whether this device asked some peer of the given id to pair.
pub open spec fn was_asked(peers: Seq<PeerView>, id: Seq<char>) -> bool {
    exists|i: int| 0 <= i < peers.len() && (#[trigger] peers[i]).id == id && peers[i].asked
}

fn pending(peers: &Vec<PeerDevice>, id: &str) -> (r: bool)
    ensures
        r == is_pending(views(peers@), id@),
{
    let mut i: usize = 0;
    while i < peers.len()
        invariant
            i <= peers@.len(),
            forall|j: int|
                0 <= j < i ==> !((#[trigger] views(peers@)[j]).id == id@
                    && views(peers@)[j].trust_state == "pending"@ && views(peers@)[j].asked),
        decreases peers@.len() - i,
    {
        if peers[i].asked && same_text(peers[i].id.as_str(), id) && same_text(
            peers[i].trust_state.as_str(),
            "pending",
        ) {
            assert(views(peers@)[i as int].id == id@);
            return true;
        }
        i = i + 1;
    }
    false
}

/// The avatar that is kept of one that a peer sent: none that is too large.
pub open spec fn kept_avatar(avatar: Option<Seq<char>>) -> Option<Seq<char>> {
    match avatar {
        Some(value) => if utf8_len(value) <= MAX_AVATAR_LEN {
            Some(value)
        } else {
            None
        },
        None => None,
    }
}

/// The peers after one of them asked to pair.
pub open spec fn after_request(
    peers: Seq<PeerView>,
    device: PacketView,
    host: Seq<char>,
    now: i64,
) -> Seq<PeerView> {
    capped(upserted(peers, introduced_peer(peers, device, "pending"@, host, None, now)))
}

/// The peers after one of them agreed to pair.
pub open spec fn after_acceptance(
    peers: Seq<PeerView>,
    device: PacketView,
    host: Seq<char>,
    secret: Seq<char>,
    now: i64,
) -> Seq<PeerView> {
    capped(upserted(peers, introduced_peer(peers, device, "paired"@, host, Some(secret), now)))
}

/// The peers after a message.
///
/// A request to pair makes its sender pending, until the user answers. An
/// agreement to pair counts only where this device had asked. A new avatar changes
/// the first peer of its sender's id. Nothing else changes the peers.
pub open spec fn peers_after(state: StateView, message: WireView, host: Seq<char>, now: i64) -> Seq<
    PeerView,
> {
    let peers = state.peers;
    match message {
        WireView::PairRequest { device } => after_request(peers, device, host, now),
        WireView::PairAccepted { device } => if is_pending(peers, device.device_id) {
            match derived_shared_secret(state.setup.identity_secret, device.public_key) {
                Ok(secret) => after_acceptance(peers, device, host, secret, now),
                Err(_) => peers,
            }
        } else {
            peers
        },
        WireView::Profile { peer_id, avatar } => with_peer(
            peers,
            peer_id,
            PeerView { avatar: kept_avatar(avatar), ..peers[peer_index(peers, peer_id)] },
        ),
        _ => peers,
    }
}

/// Whether a message is one that only paired peers may send.
pub open spec fn needs_pairing(message: WireView) -> bool {
    ||| message is Chat
    ||| message is Link
    ||| message is FileStart
    ||| message is FileChunk
    ||| message is FileEnd
    ||| message is FileCancel
}

fn receive_profile(state: &mut PersistedState, peer_id: &str, avatar: Option<String>)
    ensures
        ({
            let peers = old(state)@.peers;
            final(state)@ == StateView {
                peers: with_peer(
                    peers,
                    peer_id@,
                    PeerView {
                        avatar: kept_avatar(opt_text(avatar)),
                        ..peers[peer_index(peers, peer_id@)]
                    },
                ),
                ..old(state)@
            }
        }),
{
    proof {
        lemma_peer_index(state@.peers, peer_id@);
    }
    let kept = match avatar {
        Some(value) => if byte_len(value.as_str()) <= MAX_AVATAR_LEN {
            Some(value)
        } else {
            None
        },
        None => None,
    };
    if let Some(k) = find_peer(state.peers.as_slice(), peer_id) {
        let mut peer = state.peers[k].clone();
        peer.avatar = kept;
        let ghost changed = peer@;
        state.peers.set(k, peer);
        proof {
            assert(views(state.peers@) =~= old(state)@.peers.update(k as int, changed));
        }
    }
}

/// Whether nothing but the list of peers may differ.
pub open spec fn only_peers_changed(before: StateView, after: StateView) -> bool {
    after == (StateView { peers: after.peers, ..before })
}

/// What an accepted pairing leaves to do.
pub open spec fn is_profile_reply(
    state: StateView,
    peer_id: Seq<char>,
    reply: Option<Outgoing>,
) -> bool {
    &&& reply is Some <==> paired_check(state.peers, peer_id) is Ok
    &&& reply matches Some(send) ==> send@ == profile_send(
        state.setup,
        peer_with_id(state.peers, peer_id)->Ok_0,
    )
}

/// Lets a message that arrived from `host`, an empty text where that is not known,
/// take its effect, and says what is left to do.
pub fn handle_message(
    state: &mut PersistedState,
    incoming: &mut IncomingFiles,
    last_auto_open: &mut i64,
    message: WireMessage,
    host: &str,
    now: i64,
) -> (r: AppResult<Reaction>)
    requires
        within_limits(old(incoming)@),
        (message@ is Link || message@ is FileEnd) && old(state)@.setup.auto_open ==> elapsed_fits(
            *old(last_auto_open),
            now,
        ),
    ensures
        within_limits(final(incoming)@),
        final(state)@.setup == old(state)@.setup,
        final(state)@.peers == peers_after(old(state)@, message@, host@, now),
        message@ is PairRequest || message@ is PairAccepted || message@ is Typing
            || message@ is Profile ==> {
            &&& only_peers_changed(old(state)@, final(state)@)
            &&& final(incoming)@ == old(incoming)@
            &&& *final(last_auto_open) == *old(last_auto_open)
        },
        needs_pairing(message@) && paired_check(
            old(state)@.peers,
            crate::envelope::sender_of(message@)->Some_0,
        ) is Err ==> {
            &&& final(state)@ == old(state)@
            &&& final(incoming)@ == old(incoming)@
            &&& *final(last_auto_open) == *old(last_auto_open)
        },
        match message@ {
            WireView::PairRequest { device } => {
                &&& r is Ok && r->Ok_0 is PairingRequested
                &&& r->Ok_0->PairingRequested_0@ == introduced_peer(
                    old(state)@.peers,
                    device,
                    "pending"@,
                    host@,
                    None,
                    now,
                )
            },
            WireView::PairAccepted { device } => if is_pending(
                old(state)@.peers,
                device.device_id,
            ) {
                match derived_shared_secret(
                    old(state)@.setup.identity_secret,
                    device.public_key,
                ) {
                    Ok(secret) => {
                        &&& is_agreed(
                            old(state)@.setup.identity_secret,
                            device.public_key,
                            secret,
                        )
                        &&& r is Ok && r->Ok_0 is PairingAccepted
                        &&& is_profile_reply(
                            final(state)@,
                            device.device_id,
                            r->Ok_0->PairingAccepted_0,
                        )
                    },
                    Err(complaint) => r is Err && r->Err_0@ == complaint,
                }
            } else {
                r is Ok && r->Ok_0 is Nothing
            },
            WireView::Chat { peer_id, text } => {
                &&& final(incoming)@ == old(incoming)@
                &&& *final(last_auto_open) == *old(last_auto_open)
                &&& r is Ok ==> r->Ok_0 is MessageReceived
                &&& is_text_received(
                    old(state)@,
                    peer_id,
                    text,
                    final(state)@,
                    match r {
                        Ok(reaction) => Ok(reaction->MessageReceived_0),
                        Err(complaint) => Err(complaint),
                    },
                )
            },
            WireView::Link { peer_id, url } => {
                &&& final(incoming)@ == old(incoming)@
                &&& r is Ok ==> r->Ok_0 is LinkReceived || r->Ok_0 is Nothing
                &&& is_link_received(
                    old(state)@,
                    *old(last_auto_open),
                    peer_id,
                    url,
                    now,
                    final(state)@,
                    *final(last_auto_open),
                    match r {
                        Ok(Reaction::LinkReceived(link)) => Ok(Some(link)),
                        Ok(_) => Ok(None),
                        Err(complaint) => Err(complaint),
                    },
                )
            },
            WireView::Typing { peer_id, is_typing } => {
                &&& r is Ok && r->Ok_0 is Typing
                &&& r->Ok_0->Typing_peer_id@ == peer_id
                &&& r->Ok_0->is_typing == is_typing
            },
            WireView::Profile { .. } => r is Ok && r->Ok_0 is ProfileReceived,
            WireView::FileStart { peer_id, transfer_id, file_name, total_size } => {
                &&& final(state)@ == old(state)@
                &&& final(incoming)@ == old(incoming)@
                &&& *final(last_auto_open) == *old(last_auto_open)
                &&& r is Ok ==> r->Ok_0 is FileStarted && r->Ok_0->FileStarted_peer_id@ == peer_id
                    && r->Ok_0->FileStarted_transfer_id@ == transfer_id
                &&& is_start_received(
                    old(state)@,
                    peer_id,
                    file_name,
                    total_size,
                    match r {
                        Ok(reaction) => Ok(reaction->reservation),
                        Err(complaint) => Err(complaint),
                    },
                )
            },
            WireView::FileChunk { peer_id, transfer_id, data } => {
                let plan = chunk_plan(old(state)@, old(incoming)@, peer_id, transfer_id, data);
                &&& final(state)@ == old(state)@
                &&& *final(last_auto_open) == *old(last_auto_open)
                &&& final(incoming)@ == if plan is Discard {
                    old(incoming)@.remove(transfer_id)
                } else {
                    old(incoming)@
                }
                &&& match plan {
                    PlanView::Refuse(complaint) => r is Err && r->Err_0@ == complaint,
                    _ => {
                        &&& r is Ok && r->Ok_0 is FileChunk
                        &&& r->Ok_0->FileChunk_peer_id@ == peer_id
                        &&& r->Ok_0->FileChunk_transfer_id@ == transfer_id
                        &&& r->Ok_0->plan@ == plan
                    },
                }
            },
            WireView::FileEnd { peer_id, transfer_id } => {
                &&& r is Ok ==> r->Ok_0 is FileFinished
                &&& is_end_received(
                    old(state)@,
                    old(incoming)@,
                    *old(last_auto_open),
                    peer_id,
                    transfer_id,
                    now,
                    final(state)@,
                    final(incoming)@,
                    *final(last_auto_open),
                    match r {
                        Ok(reaction) => Ok(reaction->FileFinished_0),
                        Err(complaint) => Err(complaint),
                    },
                )
            },
            WireView::FileCancel { peer_id, transfer_id } => {
                &&& final(state)@ == old(state)@
                &&& *final(last_auto_open) == *old(last_auto_open)
                &&& r is Ok ==> r->Ok_0 is FileCancelled || r->Ok_0 is Nothing
                &&& is_cancel_received(
                    old(state)@,
                    old(incoming)@,
                    peer_id,
                    transfer_id,
                    final(incoming)@,
                    match r {
                        Ok(Reaction::FileCancelled(file)) => Ok(Some(file)),
                        Ok(_) => Ok(None),
                        Err(complaint) => Err(complaint),
                    },
                )
            },
        },
{
    match message {
        WireMessage::PairRequest { device } => {
            let peer = upsert_discovered_peer(state, &device, "pending", host, None, now);
            Ok(Reaction::PairingRequested(peer))
        },
        WireMessage::PairAccepted { device } => {
            if !pending(&state.peers, device.device_id.as_str()) {
                return Ok(Reaction::Nothing);
            }
            let secret = match derive_shared_secret(
                state.setup.identity_secret.as_str(),
                device.public_key.as_str(),
            ) {
                Ok(secret) => secret,
                Err(complaint) => return Err(complaint),
            };
            upsert_discovered_peer(state, &device, "paired", host, Some(secret), now);
            Ok(Reaction::PairingAccepted(send_profile_to_peer(state, device.device_id.as_str())))
        },
        WireMessage::Chat { peer_id, text } => {
            match receive_message(state, peer_id.as_str(), text.as_str()) {
                Ok(message) => Ok(Reaction::MessageReceived(message)),
                Err(complaint) => Err(complaint),
            }
        },
        WireMessage::Link { peer_id, url } => {
            match receive_link(state, last_auto_open, peer_id.as_str(), url.as_str(), now) {
                Ok(Some(link)) => Ok(Reaction::LinkReceived(link)),
                Ok(None) => Ok(Reaction::Nothing),
                Err(complaint) => Err(complaint),
            }
        },
        WireMessage::Typing { peer_id, is_typing } => Ok(Reaction::Typing { peer_id, is_typing }),
        WireMessage::Profile { peer_id, avatar } => {
            receive_profile(state, peer_id.as_str(), avatar);
            Ok(Reaction::ProfileReceived)
        },
        WireMessage::FileStart { peer_id, transfer_id, file_name, total_size } => {
            match receive_file_start(state, peer_id.as_str(), file_name.as_str(), total_size) {
                Ok(reservation) => Ok(Reaction::FileStarted { peer_id, transfer_id, reservation }),
                Err(complaint) => Err(complaint),
            }
        },
        WireMessage::FileChunk { peer_id, transfer_id, data } => {
            let plan = receive_file_chunk(
                state,
                incoming,
                peer_id.as_str(),
                transfer_id.as_str(),
                data.as_str(),
            );
            match plan {
                ChunkPlan::Refuse(complaint) => Err(complaint),
                plan => Ok(Reaction::FileChunk { peer_id, transfer_id, plan }),
            }
        },
        WireMessage::FileEnd { peer_id, transfer_id } => {
            match receive_file_end(
                state,
                incoming,
                last_auto_open,
                peer_id.as_str(),
                transfer_id.as_str(),
                now,
            ) {
                Ok(file) => Ok(Reaction::FileFinished(file)),
                Err(complaint) => Err(complaint),
            }
        },
        WireMessage::FileCancel { peer_id, transfer_id } => {
            match receive_file_cancel(state, incoming, peer_id.as_str(), transfer_id.as_str()) {
                Ok(Some(file)) => Ok(Reaction::FileCancelled(file)),
                Ok(None) => Ok(Reaction::Nothing),
                Err(complaint) => Err(complaint),
            }
        },
    }
}

/// A request to pair, whoever it is from, asks the user about its sender: a pending peer
/// with what the request says, at the address it came from. It shares no new secret, and
/// whether this device had asked stays as it was. While there is room a known sender
/// keeps its place and an unknown one is added at the end; nothing else changes.
pub proof fn law_handle_pair_request(
    state: &mut PersistedState,
    incoming: &mut IncomingFiles,
    last_auto_open: &mut i64,
    message: WireMessage,
    host: &str,
    now: i64,
    k: int,
    device_name: &str,
    name: String,
    r: AppResult<Reaction>,
)
    requires
        call_ensures(handle_message, (state, incoming, last_auto_open, message, host, now), r),
        message is PairRequest,
        device_name@ == message->PairRequest_device.device_name@,
        call_ensures(clamp_device_name, (device_name,), name),
    ensures
        ({
            let device = message->PairRequest_device;
            let before = old(state).peers@;
            &&& r is Ok && r->Ok_0 is PairingRequested
            &&& ({
                let peer = r->Ok_0->PairingRequested_0;
                &&& carries(peer@, device@, name@, now)
                &&& peer.trust_state@ == "pending"@
                &&& is_first_of(before, device.device_id@, k) ==> {
                    &&& peer.host@ == if host@.len() > 0 {
                        host@
                    } else {
                        before[k].host@
                    }
                    &&& peer@.shared_secret == before[k]@.shared_secret
                    &&& peer.asked == before[k].asked
                    &&& peer@.avatar == before[k]@.avatar
                    &&& before.len() <= 256 ==> final(state)@.peers == old(state)@.peers.update(
                        k,
                        peer@,
                    )
                }
                &&& is_unknown(before, device.device_id@) ==> {
                    &&& peer.host@ == host@
                    &&& peer.shared_secret is None && !peer.asked && peer.avatar is None
                    &&& before.len() < 256 ==> final(state)@.peers == old(state)@.peers.push(peer@)
                }
            })
        }),
        final(state)@.setup == old(state)@.setup,
        final(state)@.messages == old(state)@.messages,
        final(state)@.transfers == old(state)@.transfers,
        final(incoming)@ == old(incoming)@,
        *final(last_auto_open) == *old(last_auto_open),
{
    let device = message->PairRequest_device;
    let before = old(state).peers@;
    let peer = r->Ok_0->PairingRequested_0;
    law_cap_bounds_the_list(upserted(old(state)@.peers, peer@));
    if is_first_of(before, device.device_id@, k) {
        lemma_first_of(before, device.device_id@, k);
        assert(old(state)@.peers[k] == before[k]@);
    }
    if is_unknown(before, device.device_id@) {
        lemma_unknown(before, device.device_id@);
    }
    let found = lemma_known_or_unknown(before, device.device_id@);
    if found >= 0 {
        assert(old(state)@.peers[found] == before[found]@);
    }
}

/// An agreement to pair that this device asked for makes its sender, the peer at `k`, a
/// paired one with the secret that the two devices share, as far as its key can be used;
/// the question is settled, and its avatar stays. While there is room the peer keeps its
/// place and no other changes.
pub proof fn law_handle_pair_accepted(
    state: &mut PersistedState,
    incoming: &mut IncomingFiles,
    last_auto_open: &mut i64,
    message: WireMessage,
    host: &str,
    now: i64,
    k: int,
    device_name: &str,
    name: String,
    r: AppResult<Reaction>,
)
    requires
        call_ensures(handle_message, (state, incoming, last_auto_open, message, host, now), r),
        message is PairAccepted,
        device_name@ == message->PairAccepted_device.device_name@,
        call_ensures(clamp_device_name, (device_name,), name),
        is_first_of(old(state).peers@, message->PairAccepted_device.device_id@, k),
        old(state).peers@[k].asked && old(state).peers@[k].trust_state@ == "pending"@,
        old(state).peers@.len() <= 256,
    ensures
        ({
            let device = message->PairAccepted_device;
            let before = old(state).peers@;
            let secret = derived_shared_secret(
                old(state).setup.identity_secret@,
                device.public_key@,
            );
            &&& r is Ok <==> secret is Ok
            &&& r is Ok ==> {
                let peer = final(state)@.peers[k];
                &&& r->Ok_0 is PairingAccepted
                &&& final(state)@.peers == old(state)@.peers.update(k, peer)
                &&& carries(peer, device@, name@, now)
                &&& peer.trust_state == "paired"@
                &&& peer.shared_secret == Some(secret->Ok_0)
                &&& !peer.asked
                &&& peer.avatar == before[k]@.avatar
                &&& peer.host == if host@.len() > 0 {
                    host@
                } else {
                    before[k].host@
                }
                &&& r->Ok_0->PairingAccepted_0 is Some
                &&& r->Ok_0->PairingAccepted_0->Some_0.peer@ == peer
                &&& r->Ok_0->PairingAccepted_0->Some_0.message is Profile
                &&& r->Ok_0->PairingAccepted_0->Some_0.message->Profile_peer_id@
                    == old(state).setup.device_id@
                &&& opt_text(r->Ok_0->PairingAccepted_0->Some_0.message->avatar) == opt_text(
                    old(state).setup.avatar,
                )
            }
            &&& r is Err ==> final(state)@.peers == old(state)@.peers
        }),
        final(state)@.setup == old(state)@.setup,
        final(state)@.messages == old(state)@.messages,
        final(state)@.transfers == old(state)@.transfers,
        final(incoming)@ == old(incoming)@,
        *final(last_auto_open) == *old(last_auto_open),
{
    let device = message->PairAccepted_device;
    let before = old(state).peers@;
    let id = device.device_id@;
    lemma_first_of(before, id, k);
    assert(old(state)@.peers[k] == before[k]@);
    assert(is_pending(old(state)@.peers, id));
    if r is Ok {
        let secret = derived_shared_secret(
            old(state)@.setup.identity_secret,
            device@.public_key,
        )->Ok_0;
        let peer = introduced_peer(
            old(state)@.peers,
            device@,
            "paired"@,
            host@,
            Some(secret),
            now,
        );
        law_cap_bounds_the_list(upserted(old(state)@.peers, peer));
        assert(final(state)@.peers == old(state)@.peers.update(k, peer));
        assert forall|j: int| 0 <= j < k implies (#[trigger] final(state)@.peers[j]).id != id by {
            assert(before[j].id@ != id);
            assert(old(state)@.peers[j] == before[j]@);
        }
        crate::peers::lemma_peer_index_is(final(state)@.peers, id, k);
    }
}

/// An agreement to pair from a device that no peer was asked about, or that is not
/// pending, is ignored: nothing changes.
pub proof fn law_handle_unasked_agreement(
    state: &mut PersistedState,
    incoming: &mut IncomingFiles,
    last_auto_open: &mut i64,
    message: WireMessage,
    host: &str,
    now: i64,
    r: AppResult<Reaction>,
)
    requires
        call_ensures(handle_message, (state, incoming, last_auto_open, message, host, now), r),
        message is PairAccepted,
        forall|i: int|
            0 <= i < old(state).peers@.len() && (#[trigger] old(state).peers@[i]).id@
                == message->PairAccepted_device.device_id@ ==> !old(state).peers@[i].asked || old(state).peers@[i].trust_state@ != "pending"@,
    ensures
        r is Ok && r->Ok_0 is Nothing,
        final(state)@ == old(state)@,
        final(incoming)@ == old(incoming)@,
        *final(last_auto_open) == *old(last_auto_open),
{
    let id = message->PairAccepted_device.device_id@;
    if is_pending(old(state)@.peers, id) {
        let i = choose|i: int|
            0 <= i < old(state)@.peers.len() && (#[trigger] old(state)@.peers[i]).id == id
                && old(state)@.peers[i].trust_state == "pending"@ && old(state)@.peers[i].asked;
        assert(old(state).peers@[i].id@ == id);
    }
}

/// A text that arrives from a paired peer is recorded, character for character, as the
/// last message of the history, received from that peer; from anyone else it is refused
/// and changes nothing.
pub proof fn law_handle_chat(
    state: &mut PersistedState,
    incoming: &mut IncomingFiles,
    last_auto_open: &mut i64,
    message: WireMessage,
    host: &str,
    now: i64,
    k: int,
    r: AppResult<Reaction>,
)
    requires
        call_ensures(handle_message, (state, incoming, last_auto_open, message, host, now), r),
        message is Chat,
    ensures
        is_first_of(old(state).peers@, message->Chat_peer_id@, k) ==> (r is Ok
            <==> old(state).peers@[k].trust_state@ == "paired"@),
        is_unknown(old(state).peers@, message->Chat_peer_id@) ==> r is Err
            && r->Err_0@ == "Peer not found."@,
        is_first_of(old(state).peers@, message->Chat_peer_id@, k) && old(state).peers@[k].trust_state@
            != "paired"@ ==> r is Err && r->Err_0@ == old(state).peers@[k].name@ + " is not paired."@,
        r is Ok ==> {
            let received = r->Ok_0->MessageReceived_0;
            &&& r->Ok_0 is MessageReceived
            &&& final(state)@.messages == old(state)@.messages.push(received@)
            &&& is_uuid_text(received.id@)
            &&& received.peer_id@ == message->Chat_peer_id@
            &&& received.direction@ == "received"@
            &&& received.kind@ == "text"@
            &&& received.text@ == message->text@
            &&& received.file_name is None && received.file_size is None
            &&& received.file_path is None && received.url is None
        },
        r is Err ==> final(state)@.messages == old(state)@.messages,
        final(state)@.setup == old(state)@.setup,
        final(state)@.peers == old(state)@.peers,
        final(state)@.transfers == old(state)@.transfers,
        final(incoming)@ == old(incoming)@,
        *final(last_auto_open) == *old(last_auto_open),
{
    if is_first_of(old(state).peers@, message->Chat_peer_id@, k) {
        lemma_first_of(old(state).peers@, message->Chat_peer_id@, k);
    }
    if is_unknown(old(state).peers@, message->Chat_peer_id@) {
        lemma_unknown(old(state).peers@, message->Chat_peer_id@);
    }
}

/// A text travels whole: what one device sends to a peer, and the peer, which knows the
/// sender as a paired one, handles, is the last message of the peer's conversation with
/// the sender, word for word.
pub proof fn law_text_travels(
    sender: &PersistedState,
    peer_id: &str,
    text: &str,
    sent: AppResult<Outgoing>,
    state: &mut PersistedState,
    incoming: &mut IncomingFiles,
    last_auto_open: &mut i64,
    message: WireMessage,
    host: &str,
    now: i64,
    k: int,
    r: AppResult<Reaction>,
    after: &PersistedState,
    from: &str,
    listed: Vec<ChatMessage>,
)
    requires
        call_ensures(send_message, (sender, peer_id, text), sent),
        sent is Ok,
        message@ == sent->Ok_0.message@,
        is_first_of(old(state).peers@, sender.setup.device_id@, k),
        old(state).peers@[k].trust_state@ == "paired"@,
        call_ensures(handle_message, (state, incoming, last_auto_open, message, host, now), r),
        after@ == final(state)@,
        from@ == sender.setup.device_id@,
        call_ensures(list_messages, (after, from), listed),
    ensures
        listed@.len() > 0,
        listed@.last().text@ == text@,
        listed@.last().peer_id@ == sender.setup.device_id@,
        listed@.last().direction@ == "received"@,
        listed@.last().kind@ == "text"@,
{
    lemma_first_of(old(state).peers@, sender.setup.device_id@, k);
    assert(message@ is Chat);
    let received = r->Ok_0->MessageReceived_0@;
    law_recorded_message_is_listed(old(state)@, received, from@);
    assert(views(listed@).len() == listed@.len());
    assert(views(listed@).last() == received);
    assert(views(listed@)[listed@.len() - 1] == listed@.last()@);
}

/// A link that arrives from a paired peer is recorded as it came, as the last message of
/// the history, if it is http(s), and ignored otherwise; from anyone else it is refused.
/// It is opened at once exactly if the user asked for that and the last opening was at
/// least 1.2 s ago.
pub proof fn law_handle_link(
    state: &mut PersistedState,
    incoming: &mut IncomingFiles,
    last_auto_open: &mut i64,
    message: WireMessage,
    host: &str,
    now: i64,
    k: int,
    url: &str,
    http: bool,
    r: AppResult<Reaction>,
)
    requires
        call_ensures(handle_message, (state, incoming, last_auto_open, message, host, now), r),
        message is Link,
        url@ == message->url@,
        call_ensures(is_http_url, (url,), http),
    ensures
        is_first_of(old(state).peers@, message->Link_peer_id@, k) ==> (r is Ok
            <==> old(state).peers@[k].trust_state@ == "paired"@),
        is_unknown(old(state).peers@, message->Link_peer_id@) ==> r is Err
            && r->Err_0@ == "Peer not found."@,
        is_first_of(old(state).peers@, message->Link_peer_id@, k) && old(state).peers@[k].trust_state@
            != "paired"@ ==> r is Err && r->Err_0@ == old(state).peers@[k].name@ + " is not paired."@,
        r is Ok ==> (r->Ok_0 is LinkReceived <==> http) && (r->Ok_0 is Nothing <==> !http),
        r is Ok && http ==> {
            let link = r->Ok_0->LinkReceived_0;
            &&& final(state)@.messages == old(state)@.messages.push(link.message@)
            &&& is_uuid_text(link.message.id@)
            &&& link.message.peer_id@ == message->Link_peer_id@
            &&& link.message.direction@ == "received"@
            &&& link.message.kind@ == "link"@
            &&& link.message.text@ == url@
            &&& link.message.url is Some && link.message.url->Some_0@ == url@
            &&& link.message.file_name is None && link.message.file_size is None
            &&& link.message.file_path is None
            &&& link.open <==> old(state).setup.auto_open && now - *old(last_auto_open) >= 1_200
            &&& *final(last_auto_open) == if link.open {
                now
            } else {
                *old(last_auto_open)
            }
        },
        !(r is Ok && http) ==> {
            &&& final(state)@.messages == old(state)@.messages
            &&& *final(last_auto_open) == *old(last_auto_open)
        },
        final(state)@.setup == old(state)@.setup,
        final(state)@.peers == old(state)@.peers,
        final(state)@.transfers == old(state)@.transfers,
        final(incoming)@ == old(incoming)@,
{
    if is_first_of(old(state).peers@, message->Link_peer_id@, k) {
        lemma_first_of(old(state).peers@, message->Link_peer_id@, k);
    }
    if is_unknown(old(state).peers@, message->Link_peer_id@) {
        lemma_unknown(old(state).peers@, message->Link_peer_id@);
    }
}

/// The sign that a peer is typing is passed on as it came and changes nothing.
pub proof fn law_handle_typing(
    state: &mut PersistedState,
    incoming: &mut IncomingFiles,
    last_auto_open: &mut i64,
    message: WireMessage,
    host: &str,
    now: i64,
    r: AppResult<Reaction>,
)
    requires
        call_ensures(handle_message, (state, incoming, last_auto_open, message, host, now), r),
        message is Typing,
    ensures
        r is Ok && r->Ok_0 is Typing,
        r->Ok_0->Typing_peer_id@ == message->Typing_peer_id@,
        r->Ok_0->is_typing == message->is_typing,
        final(state)@ == old(state)@,
        final(incoming)@ == old(incoming)@,
        *final(last_auto_open) == *old(last_auto_open),
{
}

/// A new avatar is kept for its sender, the first peer with that id, if it takes no more
/// than 256 KiB; a larger one leaves the sender without. Nothing else changes about that
/// peer or any other, and an avatar of an unknown sender is ignored.
pub proof fn law_handle_profile(
    state: &mut PersistedState,
    incoming: &mut IncomingFiles,
    last_auto_open: &mut i64,
    message: WireMessage,
    host: &str,
    now: i64,
    k: int,
    r: AppResult<Reaction>,
)
    requires
        call_ensures(handle_message, (state, incoming, last_auto_open, message, host, now), r),
        message is Profile,
    ensures
        r is Ok && r->Ok_0 is ProfileReceived,
        is_first_of(old(state).peers@, message->Profile_peer_id@, k) ==> {
            let kept = if message->avatar is Some && vstd::utf8::encode_utf8(
                message->avatar->Some_0@,
            ).len() <= 262_144 {
                Some(message->avatar->Some_0@)
            } else {
                None
            };
            final(state)@.peers == old(state)@.peers.update(
                k,
                PeerView { avatar: kept, ..old(state)@.peers[k] },
            )
        },
        is_unknown(old(state).peers@, message->Profile_peer_id@) ==> final(state)@.peers
            == old(state)@.peers,
        final(state)@.setup == old(state)@.setup,
        final(state)@.messages == old(state)@.messages,
        final(state)@.transfers == old(state)@.transfers,
        final(incoming)@ == old(incoming)@,
        *final(last_auto_open) == *old(last_auto_open),
{
    if is_first_of(old(state).peers@, message->Profile_peer_id@, k) {
        lemma_first_of(old(state).peers@, message->Profile_peer_id@, k);
    }
    if is_unknown(old(state).peers@, message->Profile_peer_id@) {
        lemma_unknown(old(state).peers@, message->Profile_peer_id@);
    }
}

/// A file that begins is let in exactly if its sender is a paired peer and declares no
/// more than 50 GiB. What is left to do then names its sender, its transfer, its name
/// reduced to one path component, and its size. Nothing is known of it before its place
/// is found.
pub proof fn law_handle_file_start(
    state: &mut PersistedState,
    incoming: &mut IncomingFiles,
    last_auto_open: &mut i64,
    message: WireMessage,
    host: &str,
    now: i64,
    k: int,
    file_name: &str,
    bare: String,
    r: AppResult<Reaction>,
)
    requires
        call_ensures(handle_message, (state, incoming, last_auto_open, message, host, now), r),
        message is FileStart,
        file_name@ == message->file_name@,
        call_ensures(sanitize_file_name, (file_name,), bare),
    ensures
        is_first_of(old(state).peers@, message->FileStart_peer_id@, k) ==> (r is Ok
            <==> old(state).peers@[k].trust_state@ == "paired"@ && message->total_size
            <= 53_687_091_200),
        is_unknown(old(state).peers@, message->FileStart_peer_id@) ==> r is Err
            && r->Err_0@ == "Peer not found."@,
        is_first_of(old(state).peers@, message->FileStart_peer_id@, k) && old(state).peers@[k].trust_state@
            != "paired"@ ==> r is Err && r->Err_0@ == old(state).peers@[k].name@ + " is not paired."@,
        r is Ok ==> {
            &&& r->Ok_0 is FileStarted
            &&& r->Ok_0->FileStarted_peer_id@ == message->FileStart_peer_id@
            &&& r->Ok_0->FileStarted_transfer_id@ == message->FileStart_transfer_id@
            &&& r->Ok_0->reservation.file_name@ == bare@
            &&& r->Ok_0->reservation.expected_size == message->total_size
        },
        is_first_of(old(state).peers@, message->FileStart_peer_id@, k) && r is Ok
            ==> r->Ok_0->reservation.peer_name@ == old(state).peers@[k].name@,
        final(state)@ == old(state)@,
        final(incoming)@ == old(incoming)@,
        *final(last_auto_open) == *old(last_auto_open),
{
    if is_first_of(old(state).peers@, message->FileStart_peer_id@, k) {
        lemma_first_of(old(state).peers@, message->FileStart_peer_id@, k);
    }
    if is_unknown(old(state).peers@, message->FileStart_peer_id@) {
        lemma_unknown(old(state).peers@, message->FileStart_peer_id@);
    }
}

/// A chunk of a known transfer from a paired peer is to be written, as the very bytes
/// that it encodes, if the file then holds no more than was declared, and ends its
/// transfer otherwise. Any other chunk is refused.
pub proof fn law_handle_file_chunk(
    state: &mut PersistedState,
    incoming: &mut IncomingFiles,
    last_auto_open: &mut i64,
    message: WireMessage,
    host: &str,
    now: i64,
    k: int,
    other: Seq<char>,
    data: &str,
    decoded: Result<Vec<u8>, String>,
    r: AppResult<Reaction>,
)
    requires
        call_ensures(handle_message, (state, incoming, last_auto_open, message, host, now), r),
        message is FileChunk,
        data@ == message->data@,
        call_ensures(base64_decode, (data,), decoded),
    ensures
        is_unknown(old(state).peers@, message->FileChunk_peer_id@) ==> r is Err
            && r->Err_0@ == "Peer not found."@,
        is_first_of(old(state).peers@, message->FileChunk_peer_id@, k) && old(state).peers@[k].trust_state@
            != "paired"@ ==> r is Err && r->Err_0@ == old(state).peers@[k].name@ + " is not paired."@,
        decoded is Err || !old(incoming)@.contains_key(message->FileChunk_transfer_id@)
            ==> r is Err,
        is_first_of(old(state).peers@, message->FileChunk_peer_id@, k) ==> (r is Ok
            <==> old(state).peers@[k].trust_state@ == "paired"@ && decoded is Ok && old(incoming)@.contains_key(message->FileChunk_transfer_id@)),
        r is Ok ==> {
            let file = old(incoming)@[message->FileChunk_transfer_id@];
            &&& r->Ok_0 is FileChunk
            &&& r->Ok_0->FileChunk_peer_id@ == message->FileChunk_peer_id@
            &&& r->Ok_0->FileChunk_transfer_id@ == message->FileChunk_transfer_id@
            &&& if file.received_size + decoded->Ok_0@.len() <= file.expected_size {
                &&& r->Ok_0->plan is Write
                &&& r->Ok_0->plan->Write_0@ == decoded->Ok_0@
                &&& final(incoming)@ == old(incoming)@
            } else {
                &&& r->Ok_0->plan is Discard
                &&& r->Ok_0->plan->path@ == file.path
                &&& r->Ok_0->plan->complaint@ == "Incoming file exceeded its declared size."@
                &&& !final(incoming)@.contains_key(message->FileChunk_transfer_id@)
            }
        },
        other != message->FileChunk_transfer_id@ || r is Err ==> {
            &&& final(incoming)@.contains_key(other) <==> old(incoming)@.contains_key(other)
            &&& final(incoming)@[other] == old(incoming)@[other]
        },
        final(state)@ == old(state)@,
        *final(last_auto_open) == *old(last_auto_open),
{
    if is_first_of(old(state).peers@, message->FileChunk_peer_id@, k) {
        lemma_first_of(old(state).peers@, message->FileChunk_peer_id@, k);
    }
    if is_unknown(old(state).peers@, message->FileChunk_peer_id@) {
        lemma_unknown(old(state).peers@, message->FileChunk_peer_id@);
    }
}

/// The end of a known transfer from a paired peer makes it unknown and leaves a message
/// about the file, received from that peer, as the last of the history, and a finished
/// row as the last of the transfer list. Any other end marker is refused and changes
/// nothing.
pub proof fn law_handle_file_end(
    state: &mut PersistedState,
    incoming: &mut IncomingFiles,
    last_auto_open: &mut i64,
    message: WireMessage,
    host: &str,
    now: i64,
    k: int,
    other: Seq<char>,
    r: AppResult<Reaction>,
)
    requires
        call_ensures(handle_message, (state, incoming, last_auto_open, message, host, now), r),
        message is FileEnd,
    ensures
        is_first_of(old(state).peers@, message->FileEnd_peer_id@, k) ==> (r is Ok
            <==> old(state).peers@[k].trust_state@ == "paired"@ && old(incoming)@.contains_key(
            message->FileEnd_transfer_id@,
        )),
        is_unknown(old(state).peers@, message->FileEnd_peer_id@) ==> r is Err
            && r->Err_0@ == "Peer not found."@,
        is_first_of(old(state).peers@, message->FileEnd_peer_id@, k) && old(state).peers@[k].trust_state@
            != "paired"@ ==> r is Err && r->Err_0@ == old(state).peers@[k].name@ + " is not paired."@,
        r is Ok ==> {
            let file = old(incoming)@[message->FileEnd_transfer_id@];
            let done = r->Ok_0->FileFinished_0;
            &&& r->Ok_0 is FileFinished
            &&& done.path@ == file.path
            &&& final(state)@.messages == old(state)@.messages.push(done.message@)
            &&& is_uuid_text(done.message.id@)
            &&& done.message.peer_id@ == message->FileEnd_peer_id@
            &&& done.message.direction@ == "received"@
            &&& done.message.kind@ == "file"@
            &&& done.message.text@ == file.file_name
            &&& done.message.url is None
            &&& done.message.file_name is Some && done.message.file_name->Some_0@
                == file.file_name
            &&& done.message.file_size == Some(file.expected_size)
            &&& done.message.file_path is Some && done.message.file_path->Some_0@ == file.path
            &&& final(state)@.transfers.len() > 0
            &&& final(state)@.transfers.last() == done.row@
            &&& final(state)@.transfers.is_suffix_of(old(state)@.transfers.push(done.row@))
            &&& old(state)@.transfers.len() < 200 ==> final(state)@.transfers
                == old(state)@.transfers.push(done.row@)
            &&& old(state)@.transfers.len() >= 200 ==> final(state)@.transfers.len() == 200
            &&& done.row.id@ == message->FileEnd_transfer_id@
            &&& done.row.peer_id@ == message->FileEnd_peer_id@
            &&& done.row.peer_name@ == file.peer_name
            &&& done.row.label@ == file.file_name
            &&& done.row.kind@ == "file"@
            &&& done.row.progress == 100
            &&& done.row.state@ == "complete"@
            &&& done.row.error is None
            &&& !final(incoming)@.contains_key(message->FileEnd_transfer_id@)
            &&& done.open ==> old(state).setup.auto_open && now - *old(last_auto_open) >= 1_200
        },
        r is Err ==> {
            &&& final(state)@ == old(state)@
            &&& *final(last_auto_open) == *old(last_auto_open)
        },
        other != message->FileEnd_transfer_id@ || r is Err ==> {
            &&& final(incoming)@.contains_key(other) <==> old(incoming)@.contains_key(other)
            &&& final(incoming)@[other] == old(incoming)@[other]
        },
        final(state)@.setup == old(state)@.setup,
        final(state)@.peers == old(state)@.peers,
{
    if is_first_of(old(state).peers@, message->FileEnd_peer_id@, k) {
        lemma_first_of(old(state).peers@, message->FileEnd_peer_id@, k);
    }
    if is_unknown(old(state).peers@, message->FileEnd_peer_id@) {
        lemma_unknown(old(state).peers@, message->FileEnd_peer_id@);
    }
    if r is Ok {
        let done = r->Ok_0->FileFinished_0;
        let told = with_message(old(state)@, done.message@);
        law_history_is_capped(told, seq![done.row@]);
        let all = told.transfers + seq![done.row@];
        assert(all =~= old(state)@.transfers.push(done.row@));
        assert(all.last() == done.row@);
    }
}

/// A cancel of a known transfer from a paired peer makes it unknown and gives the place
/// of the partial file, to be deleted; one of an unknown transfer does nothing, and one
/// from anyone else is refused.
pub proof fn law_handle_file_cancel(
    state: &mut PersistedState,
    incoming: &mut IncomingFiles,
    last_auto_open: &mut i64,
    message: WireMessage,
    host: &str,
    now: i64,
    k: int,
    other: Seq<char>,
    r: AppResult<Reaction>,
)
    requires
        call_ensures(handle_message, (state, incoming, last_auto_open, message, host, now), r),
        message is FileCancel,
    ensures
        is_first_of(old(state).peers@, message->FileCancel_peer_id@, k) ==> (r is Ok
            <==> old(state).peers@[k].trust_state@ == "paired"@),
        is_unknown(old(state).peers@, message->FileCancel_peer_id@) ==> r is Err
            && r->Err_0@ == "Peer not found."@,
        is_first_of(old(state).peers@, message->FileCancel_peer_id@, k) && old(state).peers@[k].trust_state@
            != "paired"@ ==> r is Err && r->Err_0@ == old(state).peers@[k].name@ + " is not paired."@,
        r is Ok ==> !final(incoming)@.contains_key(message->FileCancel_transfer_id@),
        r is Ok ==> (r->Ok_0 is FileCancelled <==> old(incoming)@.contains_key(
            message->FileCancel_transfer_id@,
        )),
        r is Ok && r->Ok_0 is FileCancelled ==> {
            let file = old(incoming)@[message->FileCancel_transfer_id@];
            &&& r->Ok_0->FileCancelled_0.path@ == file.path
            &&& r->Ok_0->FileCancelled_0.row.id@ == message->FileCancel_transfer_id@
            &&& r->Ok_0->FileCancelled_0.row.peer_id@ == message->FileCancel_peer_id@
            &&& r->Ok_0->FileCancelled_0.row.peer_name@ == file.peer_name
            &&& r->Ok_0->FileCancelled_0.row.label@ == file.file_name
            &&& r->Ok_0->FileCancelled_0.row.kind@ == "file"@
            &&& r->Ok_0->FileCancelled_0.row.progress == 0
            &&& r->Ok_0->FileCancelled_0.row.state@ == "cancelled"@
            &&& r->Ok_0->FileCancelled_0.row.error is None
        },
        other != message->FileCancel_transfer_id@ || r is Err ==> {
            &&& final(incoming)@.contains_key(other) <==> old(incoming)@.contains_key(other)
            &&& final(incoming)@[other] == old(incoming)@[other]
        },
        final(state)@ == old(state)@,
        *final(last_auto_open) == *old(last_auto_open),
{
    if is_first_of(old(state).peers@, message->FileCancel_peer_id@, k) {
        lemma_first_of(old(state).peers@, message->FileCancel_peer_id@, k);
    }
    if is_unknown(old(state).peers@, message->FileCancel_peer_id@) {
        lemma_unknown(old(state).peers@, message->FileCancel_peer_id@);
    }
}

/// A link travels whole: what goes out for the row of a link, and the peer, which knows
/// the sender as a paired one, handles, is the last message of the peer's conversation
/// with the sender, as it was given, if it is http(s).
pub proof fn law_link_travels(
    sender: &PersistedState,
    row: &TransferProgress,
    url: &str,
    http: bool,
    sent: AppResult<Outgoing>,
    state: &mut PersistedState,
    incoming: &mut IncomingFiles,
    last_auto_open: &mut i64,
    message: WireMessage,
    host: &str,
    now: i64,
    k: int,
    r: AppResult<Reaction>,
    after: &PersistedState,
    from: &str,
    listed: Vec<ChatMessage>,
)
    requires
        call_ensures(link_to_send, (sender, row, url), sent),
        sent is Ok,
        call_ensures(is_http_url, (url,), http),
        http,
        message@ == sent->Ok_0.message@,
        is_first_of(old(state).peers@, sender.setup.device_id@, k),
        old(state).peers@[k].trust_state@ == "paired"@,
        call_ensures(handle_message, (state, incoming, last_auto_open, message, host, now), r),
        after@ == final(state)@,
        from@ == sender.setup.device_id@,
        call_ensures(list_messages, (after, from), listed),
    ensures
        listed@.len() > 0,
        listed@.last().url is Some && listed@.last().url->Some_0@ == url@,
        listed@.last().peer_id@ == sender.setup.device_id@,
        listed@.last().direction@ == "received"@,
        listed@.last().kind@ == "link"@,
{
    lemma_first_of(old(state).peers@, sender.setup.device_id@, k);
    assert(message@ is Link);
    let received = r->Ok_0->LinkReceived_0.message@;
    law_recorded_message_is_listed(old(state)@, received, from@);
    assert(views(listed@).len() == listed@.len());
    assert(views(listed@).last() == received);
    assert(views(listed@)[listed@.len() - 1] == listed@.last()@);
}

/// A chunk travels whole: the bytes that a sender read are the bytes that a receiver, who
/// knows the sender as a paired peer and the transfer with room for them, is to write.
pub proof fn law_chunk_travels(
    send: &mut FileSend,
    event: StreamEvent,
    sent: Option<WireMessage>,
    state: &mut PersistedState,
    incoming: &mut IncomingFiles,
    last_auto_open: &mut i64,
    message: WireMessage,
    host: &str,
    now: i64,
    k: int,
    r: AppResult<Reaction>,
)
    requires
        call_ensures(FileSend::next, (send, event), sent),
        old(send).stream == Stream::Running,
        event is Data,
        old(send).sent + event->Data_0@.len() <= u64::MAX,
        message@ == sent->Some_0@,
        is_first_of(old(state).peers@, old(send).local_id@, k),
        old(state).peers@[k].trust_state@ == "paired"@,
        old(incoming)@.contains_key(old(send).transfer_id@),
        old(incoming)@[old(send).transfer_id@].received_size + event->Data_0@.len()
            <= old(incoming)@[old(send).transfer_id@].expected_size,
        call_ensures(handle_message, (state, incoming, last_auto_open, message, host, now), r),
    ensures
        sent is Some,
        r is Ok && r->Ok_0 is FileChunk,
        r->Ok_0->FileChunk_transfer_id@ == old(send).transfer_id@,
        r->Ok_0->plan is Write,
        r->Ok_0->plan->Write_0@ == event->Data_0@,
{
    lemma_first_of(old(state).peers@, old(send).local_id@, k);
    law_base64_round_trip(event->Data_0@);
    assert(message@ is FileChunk);
}

/// However many devices ask to pair or agree to, the list stays within 256, or holds
/// nobody but paired peers.
pub proof fn law_pairing_messages_keep_the_list_bounded(
    state: &mut PersistedState,
    incoming: &mut IncomingFiles,
    last_auto_open: &mut i64,
    message: WireMessage,
    host: &str,
    now: i64,
    r: AppResult<Reaction>,
)
    requires
        call_ensures(handle_message, (state, incoming, last_auto_open, message, host, now), r),
        old(state)@.peers.len() <= 256 || message is PairRequest,
    ensures
        final(state)@.peers.len() <= 256 || forall|i: int|
            0 <= i < final(state)@.peers.len() ==> (#[trigger] final(state)@.peers[i]).trust_state
                == "paired"@,
{
    let peers = old(state)@.peers;
    let after = final(state)@.peers;
    match message@ {
        WireView::PairRequest { device } => {
            let all = upserted(
                peers,
                introduced_peer(peers, device, "pending"@, host@, None, now),
            );
            law_cap_bounds_the_list(all);
            assert(after == capped(all));
        },
        WireView::PairAccepted { device } => {
            let secret = derived_shared_secret(
                old(state)@.setup.identity_secret,
                device.public_key,
            );
            if is_pending(peers, device.device_id) && secret is Ok {
                let all = upserted(
                    peers,
                    introduced_peer(
                        peers,
                        device,
                        "paired"@,
                        host@,
                        Some(secret->Ok_0),
                        now,
                    ),
                );
                law_cap_bounds_the_list(all);
                assert(after == capped(all));
            }
        },
        WireView::Profile { peer_id, .. } => {
            lemma_peer_index(peers, peer_id);
        },
        _ => {},
    }
    if after.len() > 256 {
        assert forall|i: int| 0 <= i < after.len() implies (#[trigger] after[i]).trust_state
            == "paired"@ by {
            assert(crate::peers::is_paired(after[i]));
        }
    }
}

/// A request to pair makes room for its sender in a full list by dropping those unpaired
/// peers that were seen longest ago: where the sender is not listed afterwards as pending,
/// or another peer is dropped, every unpaired peer that stays was seen as late or later.
pub proof fn law_request_drops_the_stalest(
    state: &mut PersistedState,
    incoming: &mut IncomingFiles,
    last_auto_open: &mut i64,
    message: WireMessage,
    host: &str,
    now: i64,
    r: AppResult<Reaction>,
    other: PeerView,
    i: int,
)
    requires
        call_ensures(handle_message, (state, incoming, last_auto_open, message, host, now), r),
        message is PairRequest,
        0 <= i < final(state)@.peers.len(),
        final(state)@.peers[i].trust_state != "paired"@,
    ensures
        r is Ok && r->Ok_0 is PairingRequested,
        final(state)@.peers.contains(r->Ok_0->PairingRequested_0@) || now
            <= final(state)@.peers[i].last_seen,
        other.id != message->PairRequest_device.device_id@ && old(state)@.peers.contains(other)
            && !final(state)@.peers.contains(other) ==> other.trust_state != "paired"@
            && other.last_seen <= final(state)@.peers[i].last_seen,
        other.id != message->PairRequest_device.device_id@ && final(state)@.peers.contains(other)
            ==> old(state)@.peers.contains(other),
{
    let peers = old(state)@.peers;
    let sender = r->Ok_0->PairingRequested_0@;
    let id = message->PairRequest_device.device_id@;
    lemma_peer_index(peers, id);
    let all = upserted(peers, sender);
    let place = if peer_index(peers, id) >= 0 {
        peer_index(peers, id)
    } else {
        peers.len() as int
    };
    assert(sender.id == id);
    assert(all[place] == sender);
    if other.id != id && peers.contains(other) {
        let j = choose|j: int| 0 <= j < peers.len() && peers[j] == other;
        assert(all[j] == other);
    }
    lemma_cap_on_full_list(all, sender, other, i);
    let after = final(state)@.peers;
    if other.id != id && after.contains(other) {
        law_cap_adds_nobody(all, other);
        let j = choose|j: int| 0 <= j < all.len() && all[j] == other;
        assert(j != place);
        assert(peers[j] == other);
    }
}

} // verus!
