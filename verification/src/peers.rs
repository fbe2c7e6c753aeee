//! The list of known devices: finding, pairing and forgetting them.

use crate::keys::{derive_shared_secret, derived_shared_secret, is_agreed};
use crate::model::{
    outcome, views, AppResult, ChatMessage, MessageView, PeerDevice, PeerView, PersistedState,
    StateView, TransferProgress, TransferView,
};
use crate::text::same_text;
use vstd::prelude::*;

verus! {

/// The place of the first peer with the given id, or -1.
pub open spec fn peer_index(peers: Seq<PeerView>, id: Seq<char>) -> int
    decreases peers.len(),
{
    if peers.len() == 0 {
        -1
    } else if peers[0].id == id {
        0
    } else {
        let k = peer_index(peers.drop_first(), id);
        if k < 0 {
            -1
        } else {
            k + 1
        }
    }
}

/// Whether the user has agreed to trust this peer.
pub open spec fn is_paired(peer: PeerView) -> bool {
    peer.trust_state == "paired"@
}

/// The peer with the given id.
pub open spec fn peer_with_id(peers: Seq<PeerView>, id: Seq<char>) -> Result<PeerView, Seq<char>> {
    let k = peer_index(peers, id);
    if k >= 0 {
        Ok(peers[k])
    } else {
        Err("Peer not found."@)
    }
}

/// Whether traffic with the given peer is allowed.
pub open spec fn paired_check(peers: Seq<PeerView>, id: Seq<char>) -> Result<(), Seq<char>> {
    match peer_with_id(peers, id) {
        Ok(peer) => if is_paired(peer) {
            Ok(())
        } else {
            Err(peer.name + " is not paired."@)
        },
        Err(complaint) => Err(complaint),
    }
}

/// The public key that a peer announced.
pub open spec fn announced_key(peers: Seq<PeerView>, id: Seq<char>) -> Result<
    Seq<char>,
    Seq<char>,
> {
    let k = peer_index(peers, id);
    if k >= 0 && peers[k].public_key is Some {
        Ok(peers[k].public_key->Some_0)
    } else {
        Err("Peer public key is missing."@)
    }
}

/// The peers with the first one of the given id replaced.
pub open spec fn with_peer(peers: Seq<PeerView>, id: Seq<char>, peer: PeerView) -> Seq<PeerView> {
    let k = peer_index(peers, id);
    if k >= 0 {
        peers.update(k, peer)
    } else {
        peers
    }
}

/// `peer_index` finds the first peer with the id, and fails only where no peer
/// has it.
pub proof fn lemma_peer_index(peers: Seq<PeerView>, id: Seq<char>)
    ensures
        -1 <= peer_index(peers, id) < peers.len(),
        peer_index(peers, id) >= 0 ==> peers[peer_index(peers, id)].id == id,
        forall|j: int| 0 <= j < peer_index(peers, id) ==> (#[trigger] peers[j]).id != id,
        peer_index(peers, id) < 0 ==> forall|j: int|
            0 <= j < peers.len() ==> (#[trigger] peers[j]).id != id,
    decreases peers.len(),
{
    if peers.len() > 0 && peers[0].id != id {
        let rest = peers.drop_first();
        lemma_peer_index(rest, id);
        let k = peer_index(rest, id);
        assert forall|j: int| 0 <= j < peers.len() && (k < 0 || j <= k) implies (
        #[trigger] peers[j]).id != id by {
            if j > 0 {
                assert(peers[j] == rest[j - 1]);
            }
        }
    }
}

/// The first place that holds the id is the one `peer_index` gives.
pub proof fn lemma_peer_index_is(peers: Seq<PeerView>, id: Seq<char>, k: int)
    requires
        0 <= k < peers.len(),
        peers[k].id == id,
        forall|j: int| 0 <= j < k ==> (#[trigger] peers[j]).id != id,
    ensures
        peer_index(peers, id) == k,
{
    lemma_peer_index(peers, id);
}

/// Where no peer has the id, `peer_index` gives -1.
pub proof fn lemma_peer_index_none(peers: Seq<PeerView>, id: Seq<char>)
    requires
        forall|j: int| 0 <= j < peers.len() ==> (#[trigger] peers[j]).id != id,
    ensures
        peer_index(peers, id) == -1,
{
    lemma_peer_index(peers, id);
}

/// The place of the first peer with the given id.
pub fn find_peer(peers: &[PeerDevice], id: &str) -> (r: Option<usize>)
    ensures
        match r {
            Some(k) => k == peer_index(views(peers@), id@),
            None => peer_index(views(peers@), id@) == -1,
        },
{
    let mut i: usize = 0;
    while i < peers.len()
        invariant
            i <= peers@.len(),
            forall|j: int| 0 <= j < i ==> (#[trigger] peers@[j]).id@ != id@,
        decreases peers@.len() - i,
    {
        if same_text(peers[i].id.as_str(), id) {
            proof {
                lemma_peer_index_is(views(peers@), id@, i as int);
            }
            return Some(i);
        }
        i = i + 1;
    }
    proof {
        lemma_peer_index_none(views(peers@), id@);
    }
    None
}

/// Whether the user has agreed to trust this peer.
pub fn paired(peer: &PeerDevice) -> (r: bool)
    ensures
        r == is_paired(peer@),
{
    same_text(peer.trust_state.as_str(), "paired")
}

/// The sentence that refuses traffic with a peer that is not paired.
pub fn not_paired_text(name: &str) -> (r: String)
    ensures
        r@ == name@ + " is not paired."@,
{
    name.to_string().concat(" is not paired.")
}

/// The peer with the given id.
pub fn get_peer(state: &PersistedState, peer_id: &str) -> (r: AppResult<PeerDevice>)
    ensures
        outcome(r) == peer_with_id(state@.peers, peer_id@),
{
    proof {
        lemma_peer_index(state@.peers, peer_id@);
    }
    match find_peer(state.peers.as_slice(), peer_id) {
        Some(k) => Ok(state.peers[k].clone()),
        None => Err("Peer not found.".to_string()),
    }
}

/// Refuses traffic with a peer that is unknown or not paired.
pub fn ensure_paired(state: &PersistedState, peer_id: &str) -> (r: AppResult<()>)
    ensures
        outcome(r) == paired_check(state@.peers, peer_id@),
{
    proof {
        lemma_peer_index(state@.peers, peer_id@);
    }
    match find_peer(state.peers.as_slice(), peer_id) {
        Some(k) => {
            if paired(&state.peers[k]) {
                Ok(())
            } else {
                Err(not_paired_text(state.peers[k].name.as_str()))
            }
        },
        None => Err("Peer not found.".to_string()),
    }
}

/// The public key that a peer announced.
pub fn peer_public_key(peers: &[PeerDevice], peer_id: &str) -> (r: AppResult<String>)
    ensures
        outcome(r) == announced_key(views(peers@), peer_id@),
{
    proof {
        lemma_peer_index(views(peers@), peer_id@);
    }
    match find_peer(peers, peer_id) {
        Some(k) => match &peers[k].public_key {
            Some(key) => Ok(key.clone()),
            None => Err("Peer public key is missing.".to_string()),
        },
        None => Err("Peer public key is missing.".to_string()),
    }
}

/// A peer that was asked to pair at `now` and has not answered.
pub open spec fn asked_peer(peer: PeerView, now: i64) -> PeerView {
    PeerView { trust_state: "pending"@, asked: true, last_seen: now, ..peer }
}

/// A peer that was accepted at `now`, with the secret shared from then on.
pub open spec fn accepted_peer(peer: PeerView, shared_secret: Seq<char>, now: i64) -> PeerView {
    PeerView {
        trust_state: "paired"@,
        asked: false,
        shared_secret: Some(shared_secret),
        last_seen: now,
        ..peer
    }
}

/// A peer whose pairing was turned down.
pub open spec fn denied_peer(peer: PeerView) -> PeerView {
    PeerView { trust_state: "unpaired"@, asked: false, ..peer }
}

/// A peer whose trust was withdrawn.
pub open spec fn revoked_peer(peer: PeerView) -> PeerView {
    PeerView { trust_state: "unpaired"@, asked: false, shared_secret: None, ..peer }
}

/// Marks a peer as asked to pair and gives it, for the request to be sent.
pub fn pair_peer(state: &mut PersistedState, peer_id: &str, now: i64) -> (r: AppResult<PeerDevice>)
    ensures
        ({
            let found = peer_with_id(old(state)@.peers, peer_id@);
            match found {
                Ok(peer) => {
                    &&& outcome(r) == Ok::<PeerView, Seq<char>>(asked_peer(peer, now))
                    &&& final(state)@ == StateView {
                        peers: with_peer(old(state)@.peers, peer_id@, asked_peer(peer, now)),
                        ..old(state)@
                    }
                },
                Err(complaint) => {
                    &&& outcome(r) == Err::<PeerView, Seq<char>>(complaint)
                    &&& final(state)@ == old(state)@
                },
            }
        }),
{
    proof {
        lemma_peer_index(state@.peers, peer_id@);
    }
    match find_peer(state.peers.as_slice(), peer_id) {
        Some(k) => {
            let mut peer = state.peers[k].clone();
            peer.trust_state = "pending".to_string();
            peer.asked = true;
            peer.last_seen = now;
            let copy = peer.clone();
            state.peers.set(k, peer);
            proof {
                assert(views(state.peers@) =~= old(state)@.peers.update(k as int, copy@));
            }
            Ok(copy)
        },
        None => Err("Peer not found.".to_string()),
    }
}

/// Trusts a peer: derives the secret shared with it from the public key it
/// announced, and gives the peer, for the acceptance to be sent.
pub fn accept_pairing(state: &mut PersistedState, peer_id: &str, now: i64) -> (r: AppResult<
    PeerDevice,
>)
    ensures
        ({
            let before = old(state)@;
            match announced_key(before.peers, peer_id@) {
                Ok(key) => match derived_shared_secret(before.setup.identity_secret, key) {
                    Ok(secret) => {
                        let peer = accepted_peer(
                            before.peers[peer_index(before.peers, peer_id@)],
                            secret,
                            now,
                        );
                        &&& outcome(r) == Ok::<PeerView, Seq<char>>(peer)
                        &&& is_agreed(before.setup.identity_secret, key, secret)
                        &&& final(state)@ == StateView {
                            peers: with_peer(before.peers, peer_id@, peer),
                            ..before
                        }
                    },
                    Err(complaint) => {
                        &&& outcome(r) == Err::<PeerView, Seq<char>>(complaint)
                        &&& final(state)@ == before
                    },
                },
                Err(complaint) => {
                    &&& outcome(r) == Err::<PeerView, Seq<char>>(complaint)
                    &&& final(state)@ == before
                },
            }
        }),
{
    proof {
        lemma_peer_index(state@.peers, peer_id@);
    }
    let key = match peer_public_key(state.peers.as_slice(), peer_id) {
        Ok(key) => key,
        Err(complaint) => return Err(complaint),
    };
    let secret = match derive_shared_secret(state.setup.identity_secret.as_str(), key.as_str()) {
        Ok(secret) => secret,
        Err(complaint) => return Err(complaint),
    };
    match find_peer(state.peers.as_slice(), peer_id) {
        Some(k) => {
            let mut peer = state.peers[k].clone();
            peer.trust_state = "paired".to_string();
            peer.asked = false;
            peer.shared_secret = Some(secret);
            peer.last_seen = now;
            let copy = peer.clone();
            state.peers.set(k, peer);
            proof {
                assert(views(state.peers@) =~= old(state)@.peers.update(k as int, copy@));
            }
            Ok(copy)
        },
        None => Err("Peer not found.".to_string()),
    }
}

/// Turns a pairing down, or takes back a request that could not be sent. An
/// unknown peer is ignored.
pub fn deny_pairing(state: &mut PersistedState, peer_id: &str)
    ensures
        ({
            let before = old(state)@;
            let k = peer_index(before.peers, peer_id@);
            final(state)@ == StateView {
                peers: with_peer(before.peers, peer_id@, denied_peer(before.peers[k])),
                ..before
            }
        }),
{
    proof {
        lemma_peer_index(state@.peers, peer_id@);
    }
    if let Some(k) = find_peer(state.peers.as_slice(), peer_id) {
        let mut peer = state.peers[k].clone();
        peer.trust_state = "unpaired".to_string();
        peer.asked = false;
        let ghost changed = peer@;
        state.peers.set(k, peer);
        proof {
            assert(views(state.peers@) =~= old(state)@.peers.update(k as int, changed));
        }
    }
}

/// Withdraws trust from a peer and forgets the secret shared with it. An
/// unknown peer is ignored.
pub fn revoke_peer(state: &mut PersistedState, peer_id: &str)
    ensures
        ({
            let before = old(state)@;
            let k = peer_index(before.peers, peer_id@);
            final(state)@ == StateView {
                peers: with_peer(before.peers, peer_id@, revoked_peer(before.peers[k])),
                ..before
            }
        }),
{
    proof {
        lemma_peer_index(state@.peers, peer_id@);
    }
    if let Some(k) = find_peer(state.peers.as_slice(), peer_id) {
        let mut peer = state.peers[k].clone();
        peer.trust_state = "unpaired".to_string();
        peer.asked = false;
        peer.shared_secret = None;
        let ghost changed = peer@;
        state.peers.set(k, peer);
        proof {
            assert(views(state.peers@) =~= old(state)@.peers.update(k as int, changed));
        }
    }
}

/// The peers without those of the given id.
pub open spec fn peers_without(peers: Seq<PeerView>, id: Seq<char>) -> Seq<PeerView> {
    peers.filter(|peer: PeerView| peer.id != id)
}

/// The messages without those of the given peer.
pub open spec fn messages_without(messages: Seq<MessageView>, id: Seq<char>) -> Seq<MessageView> {
    messages.filter(|message: MessageView| message.peer_id != id)
}

/// The transfer rows without those of the given peer.
pub open spec fn transfers_without(transfers: Seq<TransferView>, id: Seq<char>) -> Seq<
    TransferView,
> {
    transfers.filter(|transfer: TransferView| transfer.peer_id != id)
}

fn drop_peers(peers: &Vec<PeerDevice>, id: &str) -> (r: Vec<PeerDevice>)
    ensures
        views(r@) == peers_without(views(peers@), id@),
{
    let mut kept: Vec<PeerDevice> = Vec::new();
    let mut i: usize = 0;
    proof {
        reveal(Seq::filter);
        assert(views(kept@) =~= peers_without(views(peers@).take(0), id@));
    }
    while i < peers.len()
        invariant
            i <= peers@.len(),
            views(kept@) == peers_without(views(peers@).take(i as int), id@),
        decreases peers@.len() - i,
    {
        proof {
            reveal(Seq::filter);
            let next = views(peers@).take(i + 1);
            assert(next.drop_last() =~= views(peers@).take(i as int));
        }
        let ghost before = kept@;
        if !same_text(peers[i].id.as_str(), id) {
            kept.push(peers[i].clone());
            proof {
                assert(views(kept@) =~= views(before).push(peers@[i as int]@));
            }
        }
        i = i + 1;
    }
    proof {
        assert(views(peers@).take(i as int) =~= views(peers@));
    }
    kept
}

fn drop_messages(messages: &Vec<ChatMessage>, id: &str) -> (r: Vec<ChatMessage>)
    ensures
        views(r@) == messages_without(views(messages@), id@),
{
    let mut kept: Vec<ChatMessage> = Vec::new();
    let mut i: usize = 0;
    proof {
        reveal(Seq::filter);
        assert(views(kept@) =~= messages_without(views(messages@).take(0), id@));
    }
    while i < messages.len()
        invariant
            i <= messages@.len(),
            views(kept@) == messages_without(views(messages@).take(i as int), id@),
        decreases messages@.len() - i,
    {
        proof {
            reveal(Seq::filter);
            let next = views(messages@).take(i + 1);
            assert(next.drop_last() =~= views(messages@).take(i as int));
        }
        let ghost before = kept@;
        if !same_text(messages[i].peer_id.as_str(), id) {
            kept.push(messages[i].clone());
            proof {
                assert(views(kept@) =~= views(before).push(messages@[i as int]@));
            }
        }
        i = i + 1;
    }
    proof {
        assert(views(messages@).take(i as int) =~= views(messages@));
    }
    kept
}

fn drop_transfers(transfers: &Vec<TransferProgress>, id: &str) -> (r: Vec<TransferProgress>)
    ensures
        views(r@) == transfers_without(views(transfers@), id@),
{
    let mut kept: Vec<TransferProgress> = Vec::new();
    let mut i: usize = 0;
    proof {
        reveal(Seq::filter);
        assert(views(kept@) =~= transfers_without(views(transfers@).take(0), id@));
    }
    while i < transfers.len()
        invariant
            i <= transfers@.len(),
            views(kept@) == transfers_without(views(transfers@).take(i as int), id@),
        decreases transfers@.len() - i,
    {
        proof {
            reveal(Seq::filter);
            let next = views(transfers@).take(i + 1);
            assert(next.drop_last() =~= views(transfers@).take(i as int));
        }
        let ghost before = kept@;
        if !same_text(transfers[i].peer_id.as_str(), id) {
            kept.push(transfers[i].clone());
            proof {
                assert(views(kept@) =~= views(before).push(transfers@[i as int]@));
            }
        }
        i = i + 1;
    }
    proof {
        assert(views(transfers@).take(i as int) =~= views(transfers@));
    }
    kept
}

/// The state after a peer was forgotten.
pub open spec fn forgotten(state: StateView, peer_id: Seq<char>) -> StateView {
    StateView {
        peers: peers_without(state.peers, peer_id),
        messages: messages_without(state.messages, peer_id),
        transfers: transfers_without(state.transfers, peer_id),
        ..state
    }
}

/// Forgets a device: its record, its conversation and its transfer rows.
pub fn delete_peer(state: &mut PersistedState, peer_id: &str)
    ensures
        final(state)@ == forgotten(old(state)@, peer_id@),
{
    state.peers = drop_peers(&state.peers, peer_id);
    state.messages = drop_messages(&state.messages, peer_id);
    state.transfers = drop_transfers(&state.transfers, peer_id);
}

/// When the last message exchanged with a peer was written.
pub open spec fn last_message_at(messages: Seq<MessageView>, id: Seq<char>) -> Option<i64>
    decreases messages.len(),
{
    if messages.len() == 0 {
        None
    } else {
        let earlier = last_message_at(messages.drop_last(), id);
        let last = messages.last();
        if last.peer_id == id && (earlier is None || earlier->Some_0 < last.created_at) {
            Some(last.created_at)
        } else {
            earlier
        }
    }
}

/// Whether a peer last heard of at `a` ranks above one last heard of at `b`:
/// later chats first, then peers without any chat.
pub open spec fn later_chat(a: Option<i64>, b: Option<i64>) -> bool {
    match a {
        Some(x) => b is None || b->Some_0 < x,
        None => false,
    }
}

/// Whether a peer ranks above another as the one to offer next: by its last
/// chat, then by when it was last seen.
pub open spec fn ranks_above(state: StateView, a: PeerView, b: PeerView) -> bool {
    let x = last_message_at(state.messages, a.id);
    let y = last_message_at(state.messages, b.id);
    later_chat(x, y) || (x == y && a.last_seen > b.last_seen)
}

/// Whether the `k`th peer is the one to offer next: paired, outranked by no
/// paired peer, and the first of those.
pub open spec fn is_most_recent(state: StateView, k: int) -> bool {
    &&& 0 <= k < state.peers.len()
    &&& is_paired(state.peers[k])
    &&& forall|j: int|
        0 <= j < state.peers.len() && is_paired(#[trigger] state.peers[j]) ==> !ranks_above(
            state,
            state.peers[j],
            state.peers[k],
        )
    &&& forall|j: int|
        0 <= j < k && is_paired(#[trigger] state.peers[j]) ==> ranks_above(
            state,
            state.peers[k],
            state.peers[j],
        )
}

fn last_message_time(messages: &Vec<ChatMessage>, id: &str) -> (r: Option<i64>)
    ensures
        r == last_message_at(views(messages@), id@),
{
    let mut latest: Option<i64> = None;
    let mut i: usize = 0;
    while i < messages.len()
        invariant
            i <= messages@.len(),
            latest == last_message_at(views(messages@).take(i as int), id@),
        decreases messages@.len() - i,
    {
        proof {
            let next = views(messages@).take(i + 1);
            assert(next.drop_last() =~= views(messages@).take(i as int));
        }
        if same_text(messages[i].peer_id.as_str(), id) {
            let at: i64 = messages[i].created_at;
            latest = match latest {
                Some(known) => if known < at {
                    Some(at)
                } else {
                    Some(known)
                },
                None => Some(at),
            };
        }
        i = i + 1;
    }
    proof {
        assert(views(messages@).take(i as int) =~= views(messages@));
    }
    latest
}

fn outranks(a_chat: Option<i64>, a_seen: i64, b_chat: Option<i64>, b_seen: i64) -> (r: bool)
    ensures
        r == (later_chat(a_chat, b_chat) || (a_chat == b_chat && a_seen > b_seen)),
{
    match (a_chat, b_chat) {
        (Some(x), Some(y)) => y < x || (x == y && a_seen > b_seen),
        (Some(_), None) => true,
        (None, Some(_)) => false,
        (None, None) => a_seen > b_seen,
    }
}

/// The paired peer most recently chatted with, or, where there is no chat yet,
/// the paired peer most recently seen.
pub fn recent_peer(state: &PersistedState) -> (r: Option<PeerDevice>)
    ensures
        r is None <==> forall|j: int|
            0 <= j < state@.peers.len() ==> !is_paired(#[trigger] state@.peers[j]),
        r matches Some(peer) ==> exists|k: int|
            #[trigger] is_most_recent(state@, k) && peer@ == state@.peers[k],
{
    let mut best: Option<usize> = None;
    let mut best_chat: Option<i64> = None;
    let mut i: usize = 0;
    while i < state.peers.len()
        invariant
            i <= state.peers@.len(),
            best is None ==> forall|j: int|
                0 <= j < i ==> !is_paired(#[trigger] state@.peers[j]),
            best matches Some(b) ==> {
                &&& b < i
                &&& is_paired(state@.peers[b as int])
                &&& best_chat == last_message_at(state@.messages, state@.peers[b as int].id)
                &&& forall|j: int|
                    0 <= j < i && is_paired(#[trigger] state@.peers[j]) ==> !ranks_above(
                        state@,
                        state@.peers[j],
                        state@.peers[b as int],
                    )
                &&& forall|j: int|
                    0 <= j < b && is_paired(#[trigger] state@.peers[j]) ==> ranks_above(
                        state@,
                        state@.peers[b as int],
                        state@.peers[j],
                    )
            },
        decreases state.peers@.len() - i,
    {
        if paired(&state.peers[i]) {
            let chat = last_message_time(&state.messages, state.peers[i].id.as_str());
            let better = match best {
                Some(b) => outranks(
                    chat,
                    state.peers[i].last_seen,
                    best_chat,
                    state.peers[b].last_seen,
                ),
                None => true,
            };
            if better {
                best = Some(i);
                best_chat = chat;
            }
        }
        i = i + 1;
    }
    match best {
        Some(b) => {
            proof {
                assert(is_most_recent(state@, b as int));
            }
            Some(state.peers[b].clone())
        },
        None => None,
    }
}

/// Whether `k` is the place of the first peer with the given id.
pub open spec fn is_first_of(peers: Seq<PeerDevice>, id: Seq<char>, k: int) -> bool {
    &&& 0 <= k < peers.len()
    &&& peers[k].id@ == id
    &&& forall|j: int| 0 <= j < k ==> (#[trigger] peers[j]).id@ != id
}

/// Whether no peer has the given id.
pub open spec fn is_unknown(peers: Seq<PeerDevice>, id: Seq<char>) -> bool {
    forall|j: int| 0 <= j < peers.len() ==> (#[trigger] peers[j]).id@ != id
}

/// Whether the peers in `after` are those in `before`, except for the one at `k`.
pub open spec fn differ_only_at(
    before: Seq<PeerDevice>,
    after: Seq<PeerDevice>,
    k: int,
) -> bool {
    &&& after.len() == before.len()
    &&& forall|j: int| 0 <= j < before.len() && j != k ==> (#[trigger] after[j])@ == before[j]@
}

pub(crate) proof fn lemma_first_of(peers: Seq<PeerDevice>, id: Seq<char>, k: int)
    requires
        is_first_of(peers, id, k),
    ensures
        peer_index(views(peers), id) == k,
        peer_with_id(views(peers), id) == Ok::<PeerView, Seq<char>>(peers[k]@),
{
    assert forall|j: int| 0 <= j < k implies (#[trigger] views(peers)[j]).id != id by {
        assert(peers[j].id@ != id);
    }
    lemma_peer_index_is(views(peers), id, k);
}

pub(crate) proof fn lemma_unknown(peers: Seq<PeerDevice>, id: Seq<char>)
    requires
        is_unknown(peers, id),
    ensures
        peer_index(views(peers), id) == -1,
{
    assert forall|j: int| 0 <= j < views(peers).len() implies (#[trigger] views(peers)[j]).id
        != id by {
        assert(peers[j].id@ != id);
    }
    lemma_peer_index_none(views(peers), id);
}

pub(crate) proof fn lemma_known_or_unknown(peers: Seq<PeerDevice>, id: Seq<char>) -> (k: int)
    ensures
        is_first_of(peers, id, k) || is_unknown(peers, id),
        k == peer_index(views(peers), id),
        k >= 0 ==> is_first_of(peers, id, k),
        k < 0 ==> is_unknown(peers, id),
{
    let k = peer_index(views(peers), id);
    lemma_peer_index(views(peers), id);
    assert forall|j: int| 0 <= j < peers.len() && (j < k || k < 0) implies (
    #[trigger] peers[j]).id@ != id by {
        assert(views(peers)[j].id != id);
    }
    k
}

pub(crate) proof fn lemma_updated_peers(
    before: Seq<PeerDevice>,
    after: Seq<PeerDevice>,
    k: int,
    peer: PeerView,
)
    requires
        0 <= k < before.len(),
        views(after) == views(before).update(k, peer),
    ensures
        after[k]@ == peer,
        differ_only_at(before, after, k),
{
    assert(views(after).len() == after.len());
    assert(views(after)[k] == peer);
    assert forall|j: int| 0 <= j < before.len() && j != k implies (#[trigger] after[j])@
        == before[j]@ by {
        assert(views(after)[j] == views(before)[j]);
    }
}

proof fn lemma_same_peers(before: Seq<PeerDevice>, after: Seq<PeerDevice>)
    requires
        views(after) == views(before),
    ensures
        differ_only_at(before, after, -1),
{
    assert(views(after).len() == after.len());
    assert forall|j: int| 0 <= j < before.len() implies (#[trigger] after[j])@ == before[j]@ by {
        assert(views(after)[j] == views(before)[j]);
    }
}

/// A call of `find_peer` gives the place of the first peer with the id, and nothing
/// exactly where no peer has it.
pub proof fn law_find_peer(peers: &[PeerDevice], id: &str, r: Option<usize>)
    requires
        call_ensures(find_peer, (peers, id), r),
    ensures
        match r {
            Some(k) => is_first_of(peers@, id@, k as int),
            None => is_unknown(peers@, id@),
        },
{
    let k = lemma_known_or_unknown(peers@, id@);
}

/// A call of `get_peer` gives, field by field, the first peer with the id, and the
/// complaint only where no peer has it.
pub proof fn law_get_peer(state: &PersistedState, peer_id: &str, k: int, r: AppResult<PeerDevice>)
    requires
        call_ensures(get_peer, (state, peer_id), r),
    ensures
        is_first_of(state.peers@, peer_id@, k) ==> r is Ok && r->Ok_0@ == state.peers@[k]@
            && r->Ok_0.id@ == peer_id@,
        is_unknown(state.peers@, peer_id@) ==> r is Err && r->Err_0@ == "Peer not found."@,
        r is Ok <==> !is_unknown(state.peers@, peer_id@),
{
    if is_first_of(state.peers@, peer_id@, k) {
        lemma_first_of(state.peers@, peer_id@, k);
    }
    let found = lemma_known_or_unknown(state.peers@, peer_id@);
}

/// A call of `ensure_paired` lets traffic through exactly if the first peer with the
/// id is in the state "paired".
pub proof fn law_ensure_paired(state: &PersistedState, peer_id: &str, k: int, r: AppResult<()>)
    requires
        call_ensures(ensure_paired, (state, peer_id), r),
    ensures
        is_first_of(state.peers@, peer_id@, k) ==> (r is Ok <==> state.peers@[k].trust_state@
            == "paired"@),
        is_first_of(state.peers@, peer_id@, k) && r is Err ==> r->Err_0@
            == state.peers@[k].name@ + " is not paired."@,
        is_unknown(state.peers@, peer_id@) ==> r is Err && r->Err_0@ == "Peer not found."@,
{
    if is_first_of(state.peers@, peer_id@, k) {
        lemma_first_of(state.peers@, peer_id@, k);
    }
    if is_unknown(state.peers@, peer_id@) {
        lemma_unknown(state.peers@, peer_id@);
    }
}

/// Traffic with a peer is allowed exactly if the first peer with its id is in the
/// state "paired".
pub proof fn law_paired_check_asks_for_trust(peers: Seq<PeerView>, id: Seq<char>)
    ensures
        paired_check(peers, id) is Ok <==> exists|k: int|
            0 <= k < peers.len() && (#[trigger] peers[k]).id == id && peers[k].trust_state
                == "paired"@ && forall|j: int| 0 <= j < k ==> (#[trigger] peers[j]).id != id,
{
    lemma_peer_index(peers, id);
    assert forall|k: int|
        0 <= k < peers.len() && (#[trigger] peers[k]).id == id && (forall|j: int|
            0 <= j < k ==> (#[trigger] peers[j]).id != id) implies peer_index(peers, id) == k by {
        lemma_peer_index_is(peers, id, k);
    }
}

/// A call of `peer_public_key` gives the key that the first peer with the id
/// announced.
pub proof fn law_peer_public_key(
    peers: &[PeerDevice],
    peer_id: &str,
    k: int,
    r: AppResult<String>,
)
    requires
        call_ensures(peer_public_key, (peers, peer_id), r),
    ensures
        is_first_of(peers@, peer_id@, k) && peers@[k].public_key is Some ==> r is Ok && r->Ok_0@
            == peers@[k].public_key->Some_0@,
        is_first_of(peers@, peer_id@, k) && peers@[k].public_key is None ==> r is Err,
        is_unknown(peers@, peer_id@) ==> r is Err,
        r is Err ==> r->Err_0@ == "Peer public key is missing."@,
{
    if is_first_of(peers@, peer_id@, k) {
        lemma_first_of(peers@, peer_id@, k);
    }
    if is_unknown(peers@, peer_id@) {
        lemma_unknown(peers@, peer_id@);
    }
}

/// Asking a known peer to pair leaves it pending and asked, with its address, key,
/// name and secret as they were, and gives it back so; no other peer, message, row
/// or setting changes. An unknown peer changes nothing.
pub proof fn law_pair_peer(
    state: &mut PersistedState,
    peer_id: &str,
    now: i64,
    k: int,
    r: AppResult<PeerDevice>,
)
    requires
        call_ensures(pair_peer, (state, peer_id, now), r),
    ensures
        final(state)@.setup == old(state)@.setup,
        final(state)@.messages == old(state)@.messages,
        final(state)@.transfers == old(state)@.transfers,
        is_first_of(old(state).peers@, peer_id@, k) ==> {
            let was = old(state).peers@[k];
            let peer = final(state).peers@[k];
            &&& differ_only_at(old(state).peers@, final(state).peers@, k)
            &&& peer.trust_state@ == "pending"@
            &&& peer.asked
            &&& peer.last_seen == now
            &&& peer.id@ == peer_id@
            &&& peer.name@ == was.name@ && peer.host@ == was.host@ && peer.port == was.port
            &&& peer@.public_key == was@.public_key
            &&& peer@.shared_secret == was@.shared_secret
            &&& peer@.avatar == was@.avatar
            &&& peer.os@ == was.os@ && peer.status@ == was.status@
            &&& r is Ok && r->Ok_0@ == peer@
        },
        is_unknown(old(state).peers@, peer_id@) ==> {
            &&& r is Err && r->Err_0@ == "Peer not found."@
            &&& differ_only_at(old(state).peers@, final(state).peers@, -1)
        },
{
    if is_first_of(old(state).peers@, peer_id@, k) {
        lemma_first_of(old(state).peers@, peer_id@, k);
        lemma_updated_peers(
            old(state).peers@,
            final(state).peers@,
            k,
            asked_peer(old(state).peers@[k]@, now),
        );
    }
    if is_unknown(old(state).peers@, peer_id@) {
        lemma_unknown(old(state).peers@, peer_id@);
        lemma_same_peers(old(state).peers@, final(state).peers@);
    }
}

/// Accepting a known peer whose key this device can use leaves it paired, no longer
/// asked, with the secret that the two devices share, and gives it back so. Its
/// address, key and name stay, and so does everything else. Where there is no usable
/// key, nothing changes.
pub proof fn law_accept_pairing(
    state: &mut PersistedState,
    peer_id: &str,
    now: i64,
    k: int,
    r: AppResult<PeerDevice>,
)
    requires
        call_ensures(accept_pairing, (state, peer_id, now), r),
        is_first_of(old(state).peers@, peer_id@, k),
    ensures
        final(state)@.setup == old(state)@.setup,
        final(state)@.messages == old(state)@.messages,
        final(state)@.transfers == old(state)@.transfers,
        old(state).peers@[k].public_key is None ==> r is Err,
        old(state).peers@[k].public_key matches Some(key) ==> (r is Ok <==> derived_shared_secret(
            old(state).setup.identity_secret@,
            key@,
        ) is Ok),
        r is Err ==> differ_only_at(old(state).peers@, final(state).peers@, -1),
        r is Ok ==> {
            let was = old(state).peers@[k];
            let peer = final(state).peers@[k];
            &&& differ_only_at(old(state).peers@, final(state).peers@, k)
            &&& peer.trust_state@ == "paired"@
            &&& !peer.asked
            &&& peer.shared_secret is Some
            &&& was.public_key is Some
            &&& derived_shared_secret(
                old(state).setup.identity_secret@,
                was.public_key->Some_0@,
            ) == Ok::<Seq<char>, Seq<char>>(peer.shared_secret->Some_0@)
            &&& peer.last_seen == now
            &&& peer.id@ == peer_id@
            &&& peer.name@ == was.name@ && peer.host@ == was.host@ && peer.port == was.port
            &&& peer@.public_key == was@.public_key
            &&& peer@.avatar == was@.avatar
            &&& peer.os@ == was.os@ && peer.status@ == was.status@
            &&& r->Ok_0@ == peer@
        },
{
    lemma_first_of(old(state).peers@, peer_id@, k);
    if r is Ok {
        let secret = derived_shared_secret(
            old(state)@.setup.identity_secret,
            old(state)@.peers[k].public_key->Some_0,
        )->Ok_0;
        lemma_updated_peers(
            old(state).peers@,
            final(state).peers@,
            k,
            accepted_peer(old(state).peers@[k]@, secret, now),
        );
    } else {
        lemma_same_peers(old(state).peers@, final(state).peers@);
    }
}

/// Turning a known peer down leaves it unpaired and not asked; its address, key,
/// name and secret stay, and so does everything else.
pub proof fn law_deny_pairing(state: &mut PersistedState, peer_id: &str, k: int)
    requires
        call_ensures(deny_pairing, (state, peer_id), ()),
    ensures
        final(state)@.setup == old(state)@.setup,
        final(state)@.messages == old(state)@.messages,
        final(state)@.transfers == old(state)@.transfers,
        is_first_of(old(state).peers@, peer_id@, k) ==> {
            let was = old(state).peers@[k];
            let peer = final(state).peers@[k];
            &&& differ_only_at(old(state).peers@, final(state).peers@, k)
            &&& peer.trust_state@ == "unpaired"@
            &&& !peer.asked
            &&& peer.id@ == peer_id@
            &&& peer.name@ == was.name@ && peer.host@ == was.host@ && peer.port == was.port
            &&& peer@.public_key == was@.public_key
            &&& peer@.shared_secret == was@.shared_secret
            &&& peer@.avatar == was@.avatar
            &&& peer.os@ == was.os@ && peer.status@ == was.status@ && peer.last_seen == was.last_seen
        },
        is_unknown(old(state).peers@, peer_id@) ==> differ_only_at(
            old(state).peers@,
            final(state).peers@,
            -1,
        ),
{
    if is_first_of(old(state).peers@, peer_id@, k) {
        lemma_first_of(old(state).peers@, peer_id@, k);
        lemma_updated_peers(
            old(state).peers@,
            final(state).peers@,
            k,
            denied_peer(old(state).peers@[k]@),
        );
    }
    if is_unknown(old(state).peers@, peer_id@) {
        lemma_unknown(old(state).peers@, peer_id@);
        lemma_same_peers(old(state).peers@, final(state).peers@);
    }
}

/// Revoking a known peer leaves it unpaired, not asked and without a secret; its
/// address, key and name stay, and so does everything else.
pub proof fn law_revoke_peer(state: &mut PersistedState, peer_id: &str, k: int)
    requires
        call_ensures(revoke_peer, (state, peer_id), ()),
    ensures
        final(state)@.setup == old(state)@.setup,
        final(state)@.messages == old(state)@.messages,
        final(state)@.transfers == old(state)@.transfers,
        is_first_of(old(state).peers@, peer_id@, k) ==> {
            let was = old(state).peers@[k];
            let peer = final(state).peers@[k];
            &&& differ_only_at(old(state).peers@, final(state).peers@, k)
            &&& peer.trust_state@ == "unpaired"@
            &&& !peer.asked
            &&& peer.shared_secret is None
            &&& peer.id@ == peer_id@
            &&& peer.name@ == was.name@ && peer.host@ == was.host@ && peer.port == was.port
            &&& peer@.public_key == was@.public_key
            &&& peer@.avatar == was@.avatar
            &&& peer.os@ == was.os@ && peer.status@ == was.status@ && peer.last_seen == was.last_seen
        },
        is_unknown(old(state).peers@, peer_id@) ==> differ_only_at(
            old(state).peers@,
            final(state).peers@,
            -1,
        ),
{
    if is_first_of(old(state).peers@, peer_id@, k) {
        lemma_first_of(old(state).peers@, peer_id@, k);
        lemma_updated_peers(
            old(state).peers@,
            final(state).peers@,
            k,
            revoked_peer(old(state).peers@[k]@),
        );
    }
    if is_unknown(old(state).peers@, peer_id@) {
        lemma_unknown(old(state).peers@, peer_id@);
        lemma_same_peers(old(state).peers@, final(state).peers@);
    }
}

/// The time that a peer is ranked by is the greatest at which a message with it was
/// written: that of one of them, with none later, and absent only where there is no
/// message with the peer.
pub proof fn law_last_message_is_the_latest(messages: Seq<MessageView>, id: Seq<char>)
    ensures
        match last_message_at(messages, id) {
            Some(at) => {
                &&& exists|i: int|
                    0 <= i < messages.len() && (#[trigger] messages[i]).peer_id == id
                        && messages[i].created_at == at
                &&& forall|i: int|
                    0 <= i < messages.len() && (#[trigger] messages[i]).peer_id == id
                        ==> messages[i].created_at <= at
            },
            None => forall|i: int|
                0 <= i < messages.len() ==> (#[trigger] messages[i]).peer_id != id,
        },
    decreases messages.len(),
{
    if messages.len() > 0 {
        let init = messages.drop_last();
        law_last_message_is_the_latest(init, id);
        assert forall|i: int| 0 <= i < init.len() implies #[trigger] messages[i] == init[i] by {}
        let last = messages.len() - 1;
        assert(messages[last] == messages.last());
        if last_message_at(messages, id) == last_message_at(init, id) && last_message_at(
            init,
            id,
        ) is Some {
            let at = last_message_at(init, id)->Some_0;
            let i = choose|i: int|
                0 <= i < init.len() && (#[trigger] init[i]).peer_id == id && init[i].created_at
                    == at;
            assert(messages[i].peer_id == id);
        }
    }
}

/// The peer that `recent_peer` gives is a known one in the state "paired"; none is
/// given only where there is no such peer.
pub proof fn law_recent_peer_is_paired(state: &PersistedState, r: Option<PeerDevice>)
    requires
        call_ensures(recent_peer, (state,), r),
    ensures
        r matches Some(peer) ==> peer.trust_state@ == "paired"@ && exists|k: int|
            0 <= k < state.peers@.len() && (#[trigger] state.peers@[k])@ == peer@,
        r is None ==> forall|k: int|
            0 <= k < state.peers@.len() ==> (#[trigger] state.peers@[k]).trust_state@
                != "paired"@,
{
    if r is Some {
        let k = choose|k: int| #[trigger]
            is_most_recent(state@, k) && r->Some_0@ == state@.peers[k];
        assert(state.peers@[k]@ == r->Some_0@);
    } else {
        assert forall|k: int| 0 <= k < state.peers@.len() implies (
        #[trigger] state.peers@[k]).trust_state@ != "paired"@ by {
            assert(!is_paired(state@.peers[k]));
        }
    }
}

/// No message with any paired peer is later than the latest with the peer that
/// `recent_peer` gives: for the `b`th message, with the paired peer at `j`, there is
/// one with the peer given that was written then or after.
pub proof fn law_recent_peer_was_chatted_with_last(
    state: &PersistedState,
    r: Option<PeerDevice>,
    j: int,
    b: int,
)
    requires
        call_ensures(recent_peer, (state,), r),
        0 <= j < state.peers@.len(),
        state.peers@[j].trust_state@ == "paired"@,
        0 <= b < state.messages@.len(),
        state.messages@[b].peer_id@ == state.peers@[j].id@,
    ensures
        r is Some,
        exists|a: int|
            0 <= a < state.messages@.len() && (#[trigger] state.messages@[a]).peer_id@
                == r->Some_0.id@ && state.messages@[a].created_at
                >= state.messages@[b].created_at,
{
    assert(is_paired(state@.peers[j]));
    let k = choose|k: int| #[trigger]
        is_most_recent(state@, k) && r->Some_0@ == state@.peers[k];
    let all = state@.messages;
    law_last_message_is_the_latest(all, state@.peers[j].id);
    law_last_message_is_the_latest(all, state@.peers[k].id);
    assert(all[b].peer_id == state@.peers[j].id);
    let at = last_message_at(all, state@.peers[k].id)->Some_0;
    let a = choose|a: int|
        0 <= a < all.len() && (#[trigger] all[a]).peer_id == state@.peers[k].id
            && all[a].created_at == at;
    assert(state.messages@[a]@ == all[a]);
    assert(state.messages@[a].peer_id@ == r->Some_0.id@);
}

/// Whether the latest message with `a` is as late as the latest with `b`: for every
/// message with `b` there is one with `a` that was written then or after.
pub open spec fn is_as_late(messages: Seq<ChatMessage>, a: Seq<char>, b: Seq<char>) -> bool {
    forall|i: int|
        0 <= i < messages.len() && (#[trigger] messages[i]).peer_id@ == b ==> exists|j: int|
            0 <= j < messages.len() && (#[trigger] messages[j]).peer_id@ == a
                && messages[j].created_at >= messages[i].created_at
}

proof fn lemma_as_late(messages: Seq<ChatMessage>, a: Seq<char>, b: Seq<char>)
    requires
        is_as_late(messages, a, b),
    ensures
        !later_chat(last_message_at(views(messages), b), last_message_at(views(messages), a)),
{
    let all = views(messages);
    let y = last_message_at(all, b);
    law_last_message_is_the_latest(all, a);
    law_last_message_is_the_latest(all, b);
    if y is Some {
        let i = choose|i: int|
            0 <= i < all.len() && (#[trigger] all[i]).peer_id == b && all[i].created_at
                == y->Some_0;
        assert(messages[i].peer_id@ == b);
        let j = choose|j: int|
            0 <= j < messages.len() && (#[trigger] messages[j]).peer_id@ == a
                && messages[j].created_at >= messages[i].created_at;
        assert(all[j].peer_id == a);
    }
}

/// Between peers whose latest messages are of one time, or that have none,
/// `recent_peer` gives the one seen last, and of those the first in the list: no
/// paired peer with a message as late was seen later, and none before it in the list
/// was seen as late.
pub proof fn law_recent_peer_was_seen_last(state: &PersistedState, r: Option<PeerDevice>)
    requires
        call_ensures(recent_peer, (state,), r),
        r is Some,
    ensures
        exists|k: int|
            {
                &&& 0 <= k < state.peers@.len()
                &&& (#[trigger] state.peers@[k])@ == r->Some_0@
                &&& forall|j: int|
                    0 <= j < state.peers@.len() && (#[trigger] state.peers@[j]).trust_state@
                        == "paired"@ && is_as_late(
                        state.messages@,
                        state.peers@[j].id@,
                        r->Some_0.id@,
                    ) ==> {
                        &&& state.peers@[j].last_seen <= r->Some_0.last_seen
                        &&& j < k ==> state.peers@[j].last_seen < r->Some_0.last_seen
                    }
            },
{
    let k = choose|k: int| #[trigger]
        is_most_recent(state@, k) && r->Some_0@ == state@.peers[k];
    assert(state.peers@[k]@ == r->Some_0@);
    assert forall|j: int|
        0 <= j < state.peers@.len() && (#[trigger] state.peers@[j]).trust_state@ == "paired"@
            && is_as_late(state.messages@, state.peers@[j].id@, r->Some_0.id@) implies {
        &&& state.peers@[j].last_seen <= r->Some_0.last_seen
        &&& j < k ==> state.peers@[j].last_seen < r->Some_0.last_seen
    } by {
        assert(is_paired(state@.peers[j]));
        lemma_as_late(state.messages@, state.peers@[j].id@, r->Some_0.id@);
        assert(!ranks_above(state@, state@.peers[j], state@.peers[k]));
    }
}

/// Forgetting a device drops, in every list, exactly what carries its id, and keeps
/// the rest in order; the settings stay.
pub proof fn law_delete_peer(state: &mut PersistedState, peer_id: &str)
    requires
        call_ensures(delete_peer, (state, peer_id), ()),
    ensures
        final(state)@.peers == old(state)@.peers.filter(|peer: PeerView| peer.id != peer_id@),
        final(state)@.messages == old(state)@.messages.filter(
            |message: MessageView| message.peer_id != peer_id@,
        ),
        final(state)@.transfers == old(state)@.transfers.filter(
            |row: TransferView| row.peer_id != peer_id@,
        ),
        final(state)@.setup == old(state)@.setup,
{
    assert(final(state)@.peers == peers_without(old(state)@.peers, peer_id@));
}

/// A peer counts as paired exactly if it is in the state "paired", and the refusal of one
/// that is not names it.
pub proof fn law_paired(peer: &PeerDevice, r: bool, name: &str, refusal: String)
    requires
        call_ensures(paired, (peer,), r),
        name@ == peer.name@,
        call_ensures(not_paired_text, (name,), refusal),
    ensures
        r <==> peer.trust_state@ == "paired"@,
        refusal@ == peer.name@ + " is not paired."@,
{
}

} // verus!
