//! What pairing, revoking and forgetting guarantee.

use crate::chat::conversation;
use crate::discovery::{local_packet, pair_acceptance, pair_request};
use crate::dispatch::{handle_message, is_pending, peers_after, was_asked, Reaction};
use crate::envelope::secret_shared_with;
use crate::incoming::IncomingFiles;
use crate::keys::{
    derived_public_key, derived_shared_secret, is_agreed, law_public_key_is_accepted,
};
use crate::model::{
    AppResult, MessageView, PacketView, PeerDevice, PeerView, PersistedState, StateView,
    TransferView, WireMessage, WireView,
};
use crate::peers::{
    accept_pairing, accepted_peer, announced_key, asked_peer, denied_peer, forgotten, is_first_of,
    is_paired, lemma_first_of, lemma_peer_index, lemma_peer_index_is, lemma_peer_index_none,
    messages_without, pair_peer, paired_check, peer_index, peer_with_id, peers_without,
    revoked_peer, transfers_without, with_peer,
};
use crate::roster::{
    after_announcement, announced_peer, capped, first_seen, introduced_peer, is_dead_duplicate,
    law_cap_adds_nobody, law_cap_bounds_the_list, law_cap_keeps_ids_unique, law_cap_keeps_paired,
    law_upsert_keeps_ids_unique, lemma_filter_keeps, lemma_filter_keeps_ids_unique,
    lemma_filter_subset, pruned, unique_ids, upserted,
};
use crate::text::trimmed;
use vstd::prelude::*;

verus! {

proof fn lemma_index_after_replacement(peers: Seq<PeerView>, id: Seq<char>, peer: PeerView)
    requires
        peer.id == id,
    ensures
        peer_index(with_peer(peers, id, peer), id) == peer_index(peers, id),
        peer_index(peers, id) >= 0 ==> peer_with_id(with_peer(peers, id, peer), id) == Ok::<
            PeerView,
            Seq<char>,
        >(peer),
{
    lemma_peer_index(peers, id);
    let k = peer_index(peers, id);
    if k >= 0 {
        lemma_peer_index_is(with_peer(peers, id, peer), id, k);
    }
}

proof fn lemma_unpaired_is_not_paired()
    ensures
        "unpaired"@ != "paired"@,
        "pending"@ != "paired"@,
{
    reveal_strlit("unpaired");
    reveal_strlit("paired");
    reveal_strlit("pending");
    assert("unpaired"@.len() == 8);
    assert("paired"@.len() == 6);
    assert("pending"@.len() == 7);
}

/// A peer whose trust was withdrawn is refused from then on: it is not paired, and
/// nothing sealed in its name can be opened.
pub proof fn law_revoked_peer_is_refused(peers: Seq<PeerView>, id: Seq<char>)
    ensures
        ({
            let after = with_peer(peers, id, revoked_peer(peers[peer_index(peers, id)]));
            &&& paired_check(after, id) is Err
            &&& secret_shared_with(after, id) is Err
        }),
{
    lemma_peer_index(peers, id);
    lemma_unpaired_is_not_paired();
    if peer_index(peers, id) >= 0 {
        lemma_index_after_replacement(peers, id, revoked_peer(peers[peer_index(peers, id)]));
    }
}

/// A peer whose pairing was turned down, or that was only asked to pair, is not
/// paired.
pub proof fn law_unanswered_peer_is_refused(peers: Seq<PeerView>, id: Seq<char>, now: i64)
    ensures
        ({
            let peer = peers[peer_index(peers, id)];
            &&& paired_check(with_peer(peers, id, denied_peer(peer)), id) is Err
            &&& paired_check(with_peer(peers, id, asked_peer(peer, now)), id) is Err
        }),
{
    lemma_peer_index(peers, id);
    lemma_unpaired_is_not_paired();
    if peer_index(peers, id) >= 0 {
        let peer = peers[peer_index(peers, id)];
        lemma_index_after_replacement(peers, id, denied_peer(peer));
        lemma_index_after_replacement(peers, id, asked_peer(peer, now));
    }
}

/// A peer that was accepted is paired and shares the secret that was derived.
pub proof fn law_accepted_peer_is_trusted(
    peers: Seq<PeerView>,
    id: Seq<char>,
    secret: Seq<char>,
    now: i64,
)
    requires
        peer_index(peers, id) >= 0,
    ensures
        ({
            let after = with_peer(
                peers,
                id,
                accepted_peer(peers[peer_index(peers, id)], secret, now),
            );
            &&& paired_check(after, id) is Ok
            &&& secret_shared_with(after, id) == Ok::<Seq<char>, Seq<char>>(secret)
        }),
{
    lemma_peer_index(peers, id);
    lemma_index_after_replacement(
        peers,
        id,
        accepted_peer(peers[peer_index(peers, id)], secret, now),
    );
}

/// A peer that this device asked to pair is awaited.
pub proof fn law_asked_peer_is_awaited(peers: Seq<PeerView>, id: Seq<char>, now: i64)
    requires
        peer_index(peers, id) >= 0,
    ensures
        is_pending(
            with_peer(peers, id, asked_peer(peers[peer_index(peers, id)], now)),
            id,
        ),
{
    lemma_peer_index(peers, id);
    let k = peer_index(peers, id);
    let after = with_peer(peers, id, asked_peer(peers[k], now));
    assert(after[k].id == id && after[k].asked);
}

/// Accepting, turning down and revoking settle the question: whatever this device
/// had asked the peer, it awaits no answer any more.
pub proof fn law_a_decision_settles_the_question(
    peers: Seq<PeerView>,
    id: Seq<char>,
    secret: Seq<char>,
    now: i64,
)
    requires
        unique_ids(peers),
    ensures
        ({
            let peer = peers[peer_index(peers, id)];
            &&& !was_asked(with_peer(peers, id, accepted_peer(peer, secret, now)), id)
            &&& !was_asked(with_peer(peers, id, denied_peer(peer)), id)
            &&& !was_asked(with_peer(peers, id, revoked_peer(peer)), id)
        }),
{
    lemma_peer_index(peers, id);
}

/// Asking, accepting, turning down and revoking change one peer and no other, and
/// keep the list's ids as they are.
pub proof fn law_pairing_changes_one_peer(peers: Seq<PeerView>, id: Seq<char>, peer: PeerView)
    requires
        peer.id == id,
    ensures
        with_peer(peers, id, peer).len() == peers.len(),
        forall|i: int|
            0 <= i < peers.len() && i != peer_index(peers, id) ==> #[trigger] with_peer(
                peers,
                id,
                peer,
            )[i] == peers[i],
        forall|i: int|
            0 <= i < peers.len() ==> (#[trigger] with_peer(peers, id, peer)[i]).id == peers[i].id,
{
    lemma_peer_index(peers, id);
}

proof fn lemma_messages_without(messages: Seq<MessageView>, id: Seq<char>, other: Seq<char>)
    ensures
        conversation(messages_without(messages, id), other) == if other == id {
            Seq::empty()
        } else {
            conversation(messages, other)
        },
    decreases messages.len(),
{
    reveal(Seq::filter);
    let kept = messages_without(messages, id);
    if messages.len() > 0 {
        let init = messages.drop_last();
        lemma_messages_without(init, id, other);
        let last = messages.last();
        if last.peer_id != id {
            assert(kept.drop_last() =~= messages_without(init, id));
            assert(kept.last() == last);
        }
    }
    if other == id {
        assert(conversation(kept, other) =~= Seq::empty());
    }
}

proof fn lemma_transfers_without(transfers: Seq<TransferView>, id: Seq<char>)
    ensures
        forall|i: int|
            0 <= i < transfers_without(transfers, id).len() ==> (#[trigger] transfers_without(
                transfers,
                id,
            )[i]).peer_id != id,
    decreases transfers.len(),
{
    reveal(Seq::filter);
    if transfers.len() > 0 {
        let init = transfers.drop_last();
        lemma_transfers_without(init, id);
        let kept = transfers_without(transfers, id);
        let rest = transfers_without(init, id);
        assert forall|i: int| 0 <= i < kept.len() implies (#[trigger] kept[i]).peer_id != id by {
            if i < rest.len() {
                assert(kept[i] == rest[i]);
            }
        }
    }
}

/// Nothing is left of a forgotten device: no record, no message and no transfer
/// row.
pub proof fn law_nothing_is_left_of_the_forgotten(state: StateView, id: Seq<char>)
    ensures
        ({
            let after = forgotten(state, id);
            &&& peer_index(after.peers, id) == -1
            &&& conversation(after.messages, id).len() == 0
            &&& forall|i: int|
                0 <= i < after.transfers.len() ==> (#[trigger] after.transfers[i]).peer_id != id
            &&& after.setup == state.setup
        }),
{
    let after = forgotten(state, id);
    let keep = |peer: PeerView| peer.id != id;
    assert forall|j: int| 0 <= j < after.peers.len() implies (#[trigger] after.peers[j]).id
        != id by {
        lemma_filter_subset(state.peers, keep, after.peers[j]);
    }
    lemma_peer_index_none(after.peers, id);
    lemma_messages_without(state.messages, id, id);
    lemma_transfers_without(state.transfers, id);
}

/// Forgetting a device leaves every other device and every other conversation as
/// they were.
pub proof fn law_forgetting_spares_the_others(state: StateView, id: Seq<char>, other: PeerView)
    requires
        state.peers.contains(other),
        other.id != id,
    ensures
        forgotten(state, id).peers.contains(other),
        conversation(forgotten(state, id).messages, other.id) == conversation(
            state.messages,
            other.id,
        ),
{
    lemma_filter_keeps(state.peers, |peer: PeerView| peer.id != id, other);
    lemma_messages_without(state.messages, id, other.id);
}

/// A forgotten device that announces itself again comes back as a stranger:
/// unpaired and without a shared secret.
pub proof fn law_forgotten_device_returns_as_a_stranger(
    state: StateView,
    packet: PacketView,
    host: Seq<char>,
    now: i64,
)
    ensures
        ({
            let peer = announced_peer(
                forgotten(state, packet.device_id).peers,
                packet,
                host,
                now,
            );
            &&& peer == first_seen(packet, host, "unpaired"@, None, now)
            &&& !is_paired(peer)
            &&& peer.shared_secret is None
        }),
{
    law_nothing_is_left_of_the_forgotten(state, packet.device_id);
    lemma_unpaired_is_not_paired();
}

/// Forgetting a device keeps the ids of the others unique.
pub proof fn law_forgetting_keeps_ids_unique(peers: Seq<PeerView>, id: Seq<char>)
    requires
        unique_ids(peers),
    ensures
        unique_ids(peers_without(peers, id)),
{
    lemma_filter_keeps_ids_unique(peers, |peer: PeerView| peer.id != id);
}

proof fn lemma_introduced(
    peers: Seq<PeerView>,
    device: PacketView,
    trust: Seq<char>,
    host: Seq<char>,
    secret: Option<Seq<char>>,
    now: i64,
)
    ensures
        introduced_peer(peers, device, trust, host, secret, now).id == device.device_id,
        introduced_peer(peers, device, trust, host, secret, now).trust_state == trust,
        secret is Some ==> introduced_peer(
            peers,
            device,
            trust,
            host,
            secret,
            now,
        ).shared_secret == secret,
        upserted(peers, introduced_peer(peers, device, trust, host, secret, now)).contains(
            introduced_peer(peers, device, trust, host, secret, now),
        ),
{
    lemma_peer_index(peers, device.device_id);
    let peer = introduced_peer(peers, device, trust, host, secret, now);
    let all = upserted(peers, peer);
    let k = peer_index(peers, device.device_id);
    if k >= 0 {
        assert(all[k] == peer);
    } else {
        assert(all[peers.len() as int] == peer);
    }
}

/// No message but an agreement to pair that this device had asked for makes a peer
/// trusted: whoever is paired after any other message was paired before it, under
/// the same id and with the same secret.
pub proof fn law_only_an_awaited_agreement_pairs(
    state: StateView,
    message: WireView,
    host: Seq<char>,
    now: i64,
    peer: PeerView,
)
    requires
        peers_after(state, message, host, now).contains(peer),
        is_paired(peer),
    ensures
        (exists|k: int|
            0 <= k < state.peers.len() && is_paired(#[trigger] state.peers[k]) && state.peers[k].id
                == peer.id && state.peers[k].shared_secret == peer.shared_secret) || (
        message matches WireView::PairAccepted { device } && device.device_id == peer.id
            && is_pending(state.peers, peer.id)),
{
    lemma_unpaired_is_not_paired();
    let peers = state.peers;
    match message {
        WireView::PairRequest { device } => {
            let asked = introduced_peer(peers, device, "pending"@, host, None, now);
            lemma_introduced(peers, device, "pending"@, host, None, now);
            lemma_peer_index(peers, asked.id);
            law_cap_adds_nobody(upserted(peers, asked), peer);
            let all = upserted(peers, asked);
            let i = choose|i: int| 0 <= i < all.len() && all[i] == peer;
            assert(all[i] != asked);
            assert(peers[i] == peer);
        },
        WireView::PairAccepted { device } => {
            let secret = derived_shared_secret(state.setup.identity_secret, device.public_key);
            if is_pending(peers, device.device_id) && secret is Ok {
                let agreed = introduced_peer(
                    peers,
                    device,
                    "paired"@,
                    host,
                    Some(secret->Ok_0),
                    now,
                );
                lemma_introduced(peers, device, "paired"@, host, Some(secret->Ok_0), now);
                lemma_peer_index(peers, agreed.id);
                law_cap_adds_nobody(upserted(peers, agreed), peer);
                let all = upserted(peers, agreed);
                let i = choose|i: int| 0 <= i < all.len() && all[i] == peer;
                if peer != agreed {
                    assert(peers[i] == peer);
                }
            } else {
                let i = choose|i: int| 0 <= i < peers.len() && peers[i] == peer;
                assert(peers[i] == peer);
            }
        },
        WireView::Profile { peer_id, avatar } => {
            lemma_peer_index(peers, peer_id);
            let all = peers_after(state, message, host, now);
            let i = choose|i: int| 0 <= i < all.len() && all[i] == peer;
            assert(is_paired(peers[i]));
        },
        _ => {
            let i = choose|i: int| 0 <= i < peers.len() && peers[i] == peer;
            assert(peers[i] == peer);
        },
    }
}

/// An agreement to pair that this device did not ask for changes no peer.
pub proof fn law_unsolicited_agreement_is_ignored(
    state: StateView,
    device: PacketView,
    host: Seq<char>,
    now: i64,
)
    requires
        !is_pending(state.peers, device.device_id),
    ensures
        peers_after(state, WireView::PairAccepted { device }, host, now) == state.peers,
{
}

/// Whether no trust in the devices of the given id came about between `before` and
/// `after`: none is paired unless one was, and none has a secret that none had.
pub open spec fn no_trust_gained(before: Seq<PeerView>, after: Seq<PeerView>, id: Seq<char>) -> bool {
    forall|j: int|
        #![trigger after[j]]
        0 <= j < after.len() && after[j].id == id ==> {
            &&& is_paired(after[j]) ==> exists|k: int|
                0 <= k < before.len() && (#[trigger] before[k]).id == id && is_paired(before[k])
            &&& after[j].shared_secret is Some ==> exists|k: int|
                0 <= k < before.len() && (#[trigger] before[k]).id == id
                    && before[k].shared_secret == after[j].shared_secret
        }
}

proof fn lemma_message_to_the_unasked(
    state: StateView,
    message: WireView,
    host: Seq<char>,
    now: i64,
    id: Seq<char>,
)
    requires
        !was_asked(state.peers, id),
    ensures
        no_trust_gained(state.peers, peers_after(state, message, host, now), id),
        !was_asked(peers_after(state, message, host, now), id),
{
    lemma_unpaired_is_not_paired();
    let peers = state.peers;
    let after = peers_after(state, message, host, now);
    assert forall|j: int| #![trigger after[j]] 0 <= j < after.len() && after[j].id == id implies {
        &&& !after[j].asked
        &&& is_paired(after[j]) ==> exists|k: int|
            0 <= k < peers.len() && (#[trigger] peers[k]).id == id && is_paired(peers[k])
        &&& after[j].shared_secret is Some ==> exists|k: int|
            0 <= k < peers.len() && (#[trigger] peers[k]).id == id && peers[k].shared_secret
                == after[j].shared_secret
    } by {
        let peer = after[j];
        assert(after.contains(peer));
        match message {
            WireView::PairRequest { device } => {
                let introduced = introduced_peer(peers, device, "pending"@, host, None, now);
                lemma_introduced(peers, device, "pending"@, host, None, now);
                lemma_peer_index(peers, introduced.id);
                let all = upserted(peers, introduced);
                law_cap_adds_nobody(all, peer);
                let i = choose|i: int| 0 <= i < all.len() && all[i] == peer;
                if peer == introduced {
                    let k = peer_index(peers, id);
                    if k >= 0 {
                        assert(peers[k].id == id);
                    }
                } else {
                    assert(peers[i] == peer);
                }
            },
            WireView::PairAccepted { device } => {
                let secret = derived_shared_secret(state.setup.identity_secret, device.public_key);
                if is_pending(peers, device.device_id) && secret is Ok {
                    let introduced = introduced_peer(
                        peers,
                        device,
                        "paired"@,
                        host,
                        Some(secret->Ok_0),
                        now,
                    );
                    lemma_introduced(peers, device, "paired"@, host, Some(secret->Ok_0), now);
                    lemma_peer_index(peers, introduced.id);
                    let all = upserted(peers, introduced);
                    law_cap_adds_nobody(all, peer);
                    let i = choose|i: int| 0 <= i < all.len() && all[i] == peer;
                    assert(device.device_id != id);
                    assert(peers[i] == peer);
                } else {
                    assert(peers[j] == peer);
                }
            },
            WireView::Profile { peer_id, .. } => {
                lemma_peer_index(peers, peer_id);
                assert(peers[j].id == id);
            },
            _ => {
                assert(peers[j] == peer);
            },
        }
    }
}

/// The peers after messages from anyone, each with the address it came from and
/// the time it came at.
pub open spec fn peers_after_all(state: StateView, arrivals: Seq<(WireView, Seq<char>, i64)>) -> Seq<
    PeerView,
>
    decreases arrivals.len(),
{
    if arrivals.len() == 0 {
        state.peers
    } else {
        let earlier = peers_after_all(state, arrivals.drop_last());
        let (message, host, now) = arrivals.last();
        peers_after(StateView { peers: earlier, ..state }, message, host, now)
    }
}

/// Whatever messages arrive, a device that this one did not ask to pair does not
/// come to be trusted by them.
pub proof fn law_no_messages_pair_the_unasked(
    state: StateView,
    arrivals: Seq<(WireView, Seq<char>, i64)>,
    id: Seq<char>,
)
    requires
        !was_asked(state.peers, id),
    ensures
        no_trust_gained(state.peers, peers_after_all(state, arrivals), id),
        !was_asked(peers_after_all(state, arrivals), id),
    decreases arrivals.len(),
{
    if arrivals.len() > 0 {
        law_no_messages_pair_the_unasked(state, arrivals.drop_last(), id);
        let earlier = peers_after_all(state, arrivals.drop_last());
        let (message, host, now) = arrivals.last();
        lemma_message_to_the_unasked(
            StateView { peers: earlier, ..state },
            message,
            host,
            now,
            id,
        );
        let after = peers_after_all(state, arrivals);
        assert forall|j: int|
            #![trigger after[j]]
            0 <= j < after.len() && after[j].id == id && is_paired(
                after[j],
            ) implies exists|k: int|
            0 <= k < state.peers.len() && (#[trigger] state.peers[k]).id == id && is_paired(
                state.peers[k],
            ) by {
            let m = choose|m: int|
                0 <= m < earlier.len() && (#[trigger] earlier[m]).id == id && is_paired(earlier[m]);
            assert(earlier[m].id == id);
        }
        assert forall|j: int|
            #![trigger after[j]]
            0 <= j < after.len() && after[j].id == id && after[j].shared_secret is Some
                implies exists|k: int|
            0 <= k < state.peers.len() && (#[trigger] state.peers[k]).id == id
                && state.peers[k].shared_secret == after[j].shared_secret by {
            let m = choose|m: int|
                0 <= m < earlier.len() && (#[trigger] earlier[m]).id == id
                    && earlier[m].shared_secret == after[j].shared_secret;
            assert(earlier[m].id == id);
        }
    }
}

/// A device that asks to pair and then agrees to its own request gains nothing: if
/// this device asked no peer of that id, none of that id is paired afterwards
/// that was not paired before, and none has a new secret.
pub proof fn law_request_and_acceptance_of_a_stranger_grant_nothing(
    state: StateView,
    device: PacketView,
    host: Seq<char>,
    now: i64,
)
    requires
        !was_asked(state.peers, device.device_id),
    ensures
        ({
            let requested = StateView {
                peers: peers_after(state, WireView::PairRequest { device }, host, now),
                ..state
            };
            let after = peers_after(requested, WireView::PairAccepted { device }, host, now);
            &&& no_trust_gained(state.peers, after, device.device_id)
            &&& !was_asked(after, device.device_id)
            &&& after == requested.peers
        }),
{
    lemma_message_to_the_unasked(
        state,
        WireView::PairRequest { device },
        host,
        now,
        device.device_id,
    );
    let requested = peers_after(state, WireView::PairRequest { device }, host, now);
    assert(!is_pending(requested, device.device_id));
}

/// An announcement does not make it look as if this device had asked its sender to
/// pair.
pub proof fn law_announcement_does_not_ask(
    peers: Seq<PeerView>,
    packet: PacketView,
    host: Seq<char>,
    now: i64,
    id: Seq<char>,
)
    requires
        was_asked(after_announcement(peers, packet, host, now), id),
    ensures
        was_asked(peers, id),
{
    let after = after_announcement(peers, packet, host, now);
    let j = choose|j: int| 0 <= j < after.len() && (#[trigger] after[j]).id == id && after[j].asked;
    let peer = after[j];
    let sender = announced_peer(peers, packet, host, now);
    lemma_peer_index(peers, packet.device_id);
    let all = upserted(peers, sender);
    assert(after.contains(peer));
    law_cap_adds_nobody(pruned(all, packet.device_id, host), peer);
    if trimmed(host).len() > 0 {
        let keep = |p: PeerView| !is_dead_duplicate(p, packet.device_id, host);
        lemma_filter_subset(all, keep, peer);
    }
    let i = choose|i: int| 0 <= i < all.len() && all[i] == peer;
    if i < peers.len() {
        assert(peers[i].id == id && peers[i].asked);
    }
}

/// An agreement to pair that was asked for makes its sender a paired peer with the
/// secret derived from its key.
pub proof fn law_awaited_agreement_pairs(
    state: StateView,
    device: PacketView,
    host: Seq<char>,
    now: i64,
)
    requires
        is_pending(state.peers, device.device_id),
        derived_shared_secret(state.setup.identity_secret, device.public_key) is Ok,
    ensures
        ({
            let secret = derived_shared_secret(
                state.setup.identity_secret,
                device.public_key,
            )->Ok_0;
            let peer = introduced_peer(
                state.peers,
                device,
                "paired"@,
                host,
                Some(secret),
                now,
            );
            &&& peers_after(state, WireView::PairAccepted { device }, host, now).contains(peer)
            &&& peer.id == device.device_id
            &&& is_paired(peer)
            &&& peer.shared_secret == Some(secret)
        }),
{
    let secret = derived_shared_secret(state.setup.identity_secret, device.public_key)->Ok_0;
    lemma_introduced(state.peers, device, "paired"@, host, Some(secret), now);
    let peer = introduced_peer(state.peers, device, "paired"@, host, Some(secret), now);
    let all = upserted(state.peers, peer);
    law_cap_keeps_paired(all);
    lemma_filter_keeps(all, |p: PeerView| is_paired(p), peer);
    lemma_filter_subset(capped(all), |p: PeerView| is_paired(p), peer);
}

/// No message costs a paired peer its place, unless it asks to pair anew.
pub proof fn law_messages_keep_paired_peers(
    state: StateView,
    message: WireView,
    host: Seq<char>,
    now: i64,
    k: int,
)
    requires
        unique_ids(state.peers),
        0 <= k < state.peers.len(),
        is_paired(state.peers[k]),
        !(message matches WireView::PairRequest { device } && device.device_id
            == state.peers[k].id),
    ensures
        exists|peer: PeerView| #[trigger]
            peers_after(state, message, host, now).contains(peer) && is_paired(peer) && peer.id
                == state.peers[k].id,
{
    let peers = state.peers;
    let kept = peers[k];
    let after = peers_after(state, message, host, now);
    match message {
        WireView::PairRequest { device } => {
            let asked = introduced_peer(peers, device, "pending"@, host, None, now);
            lemma_introduced(peers, device, "pending"@, host, None, now);
            lemma_peer_index(peers, asked.id);
            let all = upserted(peers, asked);
            assert(all[k] == kept);
            law_cap_keeps_paired(all);
            lemma_filter_keeps(all, |p: PeerView| is_paired(p), kept);
            lemma_filter_subset(capped(all), |p: PeerView| is_paired(p), kept);
            assert(after.contains(kept));
        },
        WireView::PairAccepted { device } => {
            let secret = derived_shared_secret(state.setup.identity_secret, device.public_key);
            if is_pending(peers, device.device_id) && secret is Ok {
                let agreed = introduced_peer(
                    peers,
                    device,
                    "paired"@,
                    host,
                    Some(secret->Ok_0),
                    now,
                );
                lemma_introduced(peers, device, "paired"@, host, Some(secret->Ok_0), now);
                lemma_peer_index(peers, agreed.id);
                let all = upserted(peers, agreed);
                let there = all[k];
                assert(is_paired(there) && there.id == kept.id);
                law_cap_keeps_paired(all);
                lemma_filter_keeps(all, |p: PeerView| is_paired(p), there);
                lemma_filter_subset(capped(all), |p: PeerView| is_paired(p), there);
                assert(after.contains(there));
            } else {
                assert(after.contains(kept));
            }
        },
        WireView::Profile { peer_id, avatar } => {
            lemma_peer_index(peers, peer_id);
            assert(after[k].id == kept.id);
            assert(after.contains(after[k]));
        },
        _ => {
            assert(after.contains(kept));
        },
    }
}

/// Messages keep the ids of the peers unique.
pub proof fn law_messages_keep_ids_unique(
    state: StateView,
    message: WireView,
    host: Seq<char>,
    now: i64,
)
    requires
        unique_ids(state.peers),
    ensures
        unique_ids(peers_after(state, message, host, now)),
{
    let peers = state.peers;
    match message {
        WireView::PairRequest { device } => {
            let peer = introduced_peer(peers, device, "pending"@, host, None, now);
            law_upsert_keeps_ids_unique(peers, peer);
            law_cap_keeps_ids_unique(upserted(peers, peer));
        },
        WireView::PairAccepted { device } => {
            let secret = derived_shared_secret(state.setup.identity_secret, device.public_key);
            if is_pending(peers, device.device_id) && secret is Ok {
                let peer = introduced_peer(
                    peers,
                    device,
                    "paired"@,
                    host,
                    Some(secret->Ok_0),
                    now,
                );
                law_upsert_keeps_ids_unique(peers, peer);
                law_cap_keeps_ids_unique(upserted(peers, peer));
            }
        },
        WireView::Profile { peer_id, .. } => {
            lemma_peer_index(peers, peer_id);
        },
        _ => {},
    }
}

/// The state after the user asked the peer of the given id to pair.
pub open spec fn after_asking(state: StateView, id: Seq<char>, now: i64) -> StateView {
    StateView {
        peers: with_peer(
            state.peers,
            id,
            asked_peer(state.peers[peer_index(state.peers, id)], now),
        ),
        ..state
    }
}

/// The state after the user accepted the peer of the given id and `secret` was
/// derived from the key it had announced.
pub open spec fn after_accepting(
    state: StateView,
    id: Seq<char>,
    secret: Seq<char>,
    now: i64,
) -> StateView {
    StateView {
        peers: with_peer(
            state.peers,
            id,
            accepted_peer(state.peers[peer_index(state.peers, id)], secret, now),
        ),
        ..state
    }
}

/// The state after a pairing message.
pub open spec fn after_pairing_message(
    state: StateView,
    message: WireView,
    host: Seq<char>,
    now: i64,
) -> StateView {
    StateView { peers: peers_after(state, message, host, now), ..state }
}

proof fn lemma_listed_peer_is_found(peers: Seq<PeerView>, peer: PeerView)
    requires
        unique_ids(peers),
        peers.contains(peer),
    ensures
        peer_index(peers, peer.id) >= 0,
        peer_with_id(peers, peer.id) == Ok::<PeerView, Seq<char>>(peer),
{
    lemma_peer_index(peers, peer.id);
    let k = choose|k: int| 0 <= k < peers.len() && peers[k] == peer;
    lemma_peer_index_is(peers, peer.id, k);
}

/// A request to pair brings the key of its sender: as long as the sender has not
/// fallen to the bound on the list, its key is the one in the request.
pub proof fn law_request_brings_the_key(
    state: StateView,
    device: PacketView,
    host: Seq<char>,
    now: i64,
)
    requires
        unique_ids(state.peers),
        peer_index(
            peers_after(state, WireView::PairRequest { device }, host, now),
            device.device_id,
        ) >= 0,
    ensures
        announced_key(
            peers_after(state, WireView::PairRequest { device }, host, now),
            device.device_id,
        ) == Ok::<Seq<char>, Seq<char>>(device.public_key),
{
    let after = peers_after(state, WireView::PairRequest { device }, host, now);
    let peer = introduced_peer(state.peers, device, "pending"@, host, None, now);
    let all = upserted(state.peers, peer);
    lemma_introduced(state.peers, device, "pending"@, host, None, now);
    law_upsert_keeps_ids_unique(state.peers, peer);
    lemma_peer_index(after, device.device_id);
    let found = after[peer_index(after, device.device_id)];
    assert(after.contains(found));
    law_cap_adds_nobody(all, found);
    lemma_listed_peer_is_found(all, found);
    lemma_listed_peer_is_found(all, peer);
}

/// Pairing gives both devices one secret. One device asks and sends a request; the
/// other hears it, accepts and answers; the first hears the answer. Then each has
/// the other as a paired peer, and both hold the same secret. The identities are
/// usable, the request was still listed when it was accepted, and the secret is one
/// that both sides of the key agreement arrive at, as accepting ensures.
pub proof fn law_paired_devices_share_one_secret(
    asker: StateView,
    acceptor: StateView,
    asker_os: Seq<char>,
    acceptor_os: Seq<char>,
    asker_host: Seq<char>,
    acceptor_host: Seq<char>,
    asked_at: i64,
    heard_at: i64,
    accepted_at: i64,
    answered_at: i64,
    secret: Seq<char>,
)
    requires
        unique_ids(asker.peers),
        unique_ids(acceptor.peers),
        peer_index(asker.peers, acceptor.setup.device_id) >= 0,
        derived_public_key(asker.setup.identity_secret) is Ok,
        derived_public_key(acceptor.setup.identity_secret) is Ok,
        peer_index(
            peers_after(
                acceptor,
                WireView::PairRequest { device: local_packet(asker, asker_os)->Ok_0 },
                asker_host,
                heard_at,
            ),
            asker.setup.device_id,
        ) >= 0,
        derived_shared_secret(
            acceptor.setup.identity_secret,
            derived_public_key(asker.setup.identity_secret)->Ok_0,
        ) == Ok::<Seq<char>, Seq<char>>(secret),
        is_agreed(
            acceptor.setup.identity_secret,
            derived_public_key(asker.setup.identity_secret)->Ok_0,
            secret,
        ),
    ensures
        ({
            let asking = after_asking(asker, acceptor.setup.device_id, asked_at);
            let request = WireView::PairRequest { device: local_packet(asking, asker_os)->Ok_0 };
            let asked = after_pairing_message(acceptor, request, asker_host, heard_at);
            let accepted = after_accepting(asked, asker.setup.device_id, secret, accepted_at);
            let answer = WireView::PairAccepted {
                device: local_packet(accepted, acceptor_os)->Ok_0,
            };
            let paired = after_pairing_message(asking, answer, acceptor_host, answered_at);
            &&& local_packet(asking, asker_os) is Ok
            &&& announced_key(asked.peers, asker.setup.device_id) == derived_public_key(
                asker.setup.identity_secret,
            )
            &&& local_packet(accepted, acceptor_os) is Ok
            &&& paired_check(accepted.peers, asker.setup.device_id) is Ok
            &&& secret_shared_with(accepted.peers, asker.setup.device_id) == Ok::<
                Seq<char>,
                Seq<char>,
            >(secret)
            &&& paired_check(paired.peers, acceptor.setup.device_id) is Ok
            &&& secret_shared_with(paired.peers, acceptor.setup.device_id) == Ok::<
                Seq<char>,
                Seq<char>,
            >(secret)
        }),
{
    let asker_id = asker.setup.device_id;
    let acceptor_id = acceptor.setup.device_id;
    let asking = after_asking(asker, acceptor_id, asked_at);
    let device = local_packet(asker, asker_os)->Ok_0;
    let request = WireView::PairRequest { device };
    let asked = after_pairing_message(acceptor, request, asker_host, heard_at);
    law_request_brings_the_key(acceptor, device, asker_host, heard_at);
    law_accepted_peer_is_trusted(asked.peers, asker_id, secret, accepted_at);
    let accepted = after_accepting(asked, asker_id, secret, accepted_at);
    let answering = local_packet(accepted, acceptor_os)->Ok_0;
    let answer = WireView::PairAccepted { device: answering };

    law_asked_peer_is_awaited(asker.peers, acceptor_id, asked_at);
    lemma_peer_index(asker.peers, acceptor_id);
    assert(unique_ids(asking.peers));
    assert(derived_shared_secret(asker.setup.identity_secret, answering.public_key) == Ok::<
        Seq<char>,
        Seq<char>,
    >(secret));
    law_awaited_agreement_pairs(asking, answering, acceptor_host, answered_at);
    law_messages_keep_ids_unique(asking, answer, acceptor_host, answered_at);
    let peer = introduced_peer(
        asking.peers,
        answering,
        "paired"@,
        acceptor_host,
        Some(secret),
        answered_at,
    );
    lemma_listed_peer_is_found(
        peers_after(asking, answer, acceptor_host, answered_at),
        peer,
    );
}

/// Pairing, call by call, gives both devices one secret. One device asks a peer that it
/// knows at `k`, and its request is handled by that peer; the peer accepts, and its
/// agreement is handled by the first device. Where each of these steps succeeds and
/// neither list of peers is full, each device then knows the other as a paired peer, and
/// both hold the same secret.
#[verifier::rlimit(40)]
pub proof fn law_pairing_gives_both_one_secret(
    asker: &mut PersistedState,
    peer_id: &str,
    asked_at: i64,
    k: int,
    asked: AppResult<PeerDevice>,
    asking: &PersistedState,
    asker_os: &str,
    request: AppResult<WireMessage>,
    acceptor: &mut PersistedState,
    acceptor_files: &mut IncomingFiles,
    acceptor_last: &mut i64,
    asker_host: &str,
    heard_at: i64,
    request_heard: WireMessage,
    heard: AppResult<Reaction>,
    accepting: &mut PersistedState,
    asker_id: &str,
    accepted_at: i64,
    accepted: AppResult<PeerDevice>,
    answering: &PersistedState,
    acceptor_os: &str,
    answer: AppResult<WireMessage>,
    waiting: &mut PersistedState,
    asker_files: &mut IncomingFiles,
    asker_last: &mut i64,
    acceptor_host: &str,
    answered_at: i64,
    answer_heard: WireMessage,
    done: AppResult<Reaction>,
)
    requires
        unique_ids(old(asker)@.peers) && old(asker).peers@.len() <= 256,
        unique_ids(old(acceptor)@.peers) && old(acceptor).peers@.len() < 256,
        is_first_of(old(asker).peers@, peer_id@, k),
        peer_id@ == old(acceptor).setup.device_id@,
        asker_id@ == old(asker).setup.device_id@,
        call_ensures(pair_peer, (asker, peer_id, asked_at), asked),
        asking@ == final(asker)@,
        call_ensures(pair_request, (asking, asker_os), request),
        request is Ok,
        request_heard@ == request->Ok_0@,
        call_ensures(
            handle_message,
            (acceptor, acceptor_files, acceptor_last, request_heard, asker_host, heard_at),
            heard,
        ),
        old(accepting)@ == final(acceptor)@,
        call_ensures(accept_pairing, (accepting, asker_id, accepted_at), accepted),
        answering@ == final(accepting)@,
        call_ensures(pair_acceptance, (answering, acceptor_os), answer),
        answer is Ok,
        answer_heard@ == answer->Ok_0@,
        old(waiting)@ == final(asker)@,
        call_ensures(
            handle_message,
            (waiting, asker_files, asker_last, answer_heard, acceptor_host, answered_at),
            done,
        ),
    ensures
        asked is Ok && heard is Ok && accepted is Ok && done is Ok,
        exists|i: int, j: int|
            {
                let theirs = #[trigger] final(waiting)@.peers[i];
                let ours = #[trigger] final(accepting)@.peers[j];
                &&& 0 <= i < final(waiting)@.peers.len()
                &&& 0 <= j < final(accepting)@.peers.len()
                &&& theirs.id == old(acceptor).setup.device_id@
                &&& ours.id == old(asker).setup.device_id@
                &&& theirs.trust_state == "paired"@
                &&& ours.trust_state == "paired"@
                &&& theirs.shared_secret is Some
                &&& theirs.shared_secret == ours.shared_secret
            },
{
    let a = old(asker)@;
    let b = old(acceptor)@;
    let a_id = a.setup.device_id;
    let b_id = b.setup.device_id;
    lemma_first_of(old(asker).peers@, peer_id@, k);
    let device = local_packet(a, asker_os@)->Ok_0;
    assert(request_heard@ == (WireView::PairRequest { device }));
    let heard_peers = final(acceptor)@.peers;
    let newcomer = introduced_peer(b.peers, device, "pending"@, asker_host@, None, heard_at);
    lemma_introduced(b.peers, device, "pending"@, asker_host@, None, heard_at);
    lemma_peer_index(b.peers, a_id);
    law_cap_bounds_the_list(upserted(b.peers, newcomer));
    law_upsert_keeps_ids_unique(b.peers, newcomer);
    lemma_listed_peer_is_found(heard_peers, newcomer);
    let key = derived_public_key(a.setup.identity_secret)->Ok_0;
    law_request_brings_the_key(b, device, asker_host@, heard_at);
    law_public_key_is_accepted(a.setup.identity_secret);
    law_public_key_is_accepted(b.setup.identity_secret);
    let secret = derived_shared_secret(b.setup.identity_secret, key)->Ok_0;
    assert(derived_shared_secret(b.setup.identity_secret, key) == Ok::<Seq<char>, Seq<char>>(
        secret,
    ));
    law_paired_devices_share_one_secret(
        a,
        b,
        asker_os@,
        acceptor_os@,
        asker_host@,
        acceptor_host@,
        asked_at,
        heard_at,
        accepted_at,
        answered_at,
        secret,
    );
    let asking_view = after_asking(a, b_id, asked_at);
    assert(final(asker)@ == asking_view);
    let accepted_view = after_accepting(final(acceptor)@, a_id, secret, accepted_at);
    assert(final(accepting)@ == accepted_view);
    law_asked_peer_is_awaited(a.peers, b_id, asked_at);
    assert(derived_shared_secret(
        a.setup.identity_secret,
        derived_public_key(b.setup.identity_secret)->Ok_0,
    ) == Ok::<Seq<char>, Seq<char>>(secret));
    let ours = final(accepting)@.peers;
    let theirs = final(waiting)@.peers;
    lemma_peer_index(ours, a_id);
    lemma_peer_index(theirs, b_id);
    let i = peer_index(theirs, b_id);
    let j = peer_index(ours, a_id);
    assert(theirs[i].shared_secret == ours[j].shared_secret);
}

} // verus!
