//! Announcing this device on the network and hearing others.

use crate::keys::{derive_public_key, derived_public_key};
use crate::model::{
    outcome, views, AppResult, DiscoveryPacket, PacketView, PeerDevice, PeerView, PersistedState,
    StateView, WireMessage, WireView, DISCOVERY_MAGIC, TRANSPORT_PORT,
};
use crate::peers::{
    is_first_of, is_paired, is_unknown, lemma_first_of, lemma_peer_index, lemma_peer_index_is,
    lemma_unknown, pair_peer, peer_index,
};
use crate::roster::{
    after_announcement, announced_peer, apply_stale_peer_status, capped, clamp_device_name,
    elapsed_fits, is_as_of, is_dead_duplicate, is_stale, law_announcement_keeps_ids_unique,
    law_announcement_keeps_paired, law_announcer_is_listed, law_cap_adds_nobody,
    law_cap_bounds_the_list, law_prune_keeps_paired, lemma_announcement_spares,
    lemma_cap_on_full_list, lemma_filter_keeps, lemma_filter_subset, pruned, refreshed,
    seen_again, unique_ids, upsert_peer_from_addr, upserted,
};
use crate::setup::list_peers;
use crate::text::{same_text, trimmed};
use crate::wire::{send_plain_wire, PlainSend};
use vstd::prelude::*;

verus! {

/// What this device says of itself.
pub open spec fn local_packet(state: StateView, os: Seq<char>) -> Result<PacketView, Seq<char>> {
    match derived_public_key(state.setup.identity_secret) {
        Ok(public_key) => Ok(
            PacketView {
                magic: DISCOVERY_MAGIC@,
                device_id: state.setup.device_id,
                device_name: if state.setup.device_name.len() == 0 {
                    "SimplePass Device"@
                } else {
                    state.setup.device_name
                },
                public_key,
                os,
                port: TRANSPORT_PORT,
                request: false,
            },
        ),
        Err(complaint) => Err(complaint),
    }
}

/// What this device, which runs the given system, says of itself.
pub fn local_discovery_packet(state: &PersistedState, os: &str) -> (r: AppResult<DiscoveryPacket>)
    ensures
        outcome(r) == local_packet(state@, os@),
{
    let public_key = derive_public_key(state.setup.identity_secret.as_str())?;
    let device_name = if state.setup.device_name.as_str().is_empty() {
        "SimplePass Device".to_string()
    } else {
        state.setup.device_name.clone()
    };
    Ok(
        DiscoveryPacket {
            magic: DISCOVERY_MAGIC.to_string(),
            device_id: state.setup.device_id.clone(),
            device_name,
            public_key,
            os: os.to_string(),
            port: TRANSPORT_PORT,
            request: false,
        },
    )
}

/// What this device says of itself when it wants everyone else to answer at once.
pub fn rescan_peers(state: &PersistedState, os: &str) -> (r: AppResult<DiscoveryPacket>)
    ensures
        outcome(r) == match local_packet(state@, os@) {
            Ok(packet) => Ok::<PacketView, Seq<char>>(PacketView { request: true, ..packet }),
            Err(complaint) => Err(complaint),
        },
{
    let mut packet = local_discovery_packet(state, os)?;
    packet.request = true;
    Ok(packet)
}

/// The message that asks a peer to pair with this device.
pub fn pair_request(state: &PersistedState, os: &str) -> (r: AppResult<WireMessage>)
    ensures
        outcome(r) == match local_packet(state@, os@) {
            Ok(device) => Ok::<WireView, Seq<char>>(WireView::PairRequest { device }),
            Err(complaint) => Err(complaint),
        },
{
    let device = local_discovery_packet(state, os)?;
    Ok(WireMessage::PairRequest { device })
}

/// The message that tells a peer that this device agreed to pair.
pub fn pair_acceptance(state: &PersistedState, os: &str) -> (r: AppResult<WireMessage>)
    ensures
        outcome(r) == match local_packet(state@, os@) {
            Ok(device) => Ok::<WireView, Seq<char>>(WireView::PairAccepted { device }),
            Err(complaint) => Err(complaint),
        },
{
    let device = local_discovery_packet(state, os)?;
    Ok(WireMessage::PairAccepted { device })
}

/// Whether a packet is another device's announcement.
pub open spec fn is_announcement(state: StateView, packet: PacketView) -> bool {
    packet.magic == DISCOVERY_MAGIC@ && packet.device_id != state.setup.device_id
}

/// A packet that names no port means the usual one.
pub open spec fn with_port(packet: PacketView) -> PacketView {
    PacketView {
        port: if packet.port == 0 {
            TRANSPORT_PORT
        } else {
            packet.port
        },
        ..packet
    }
}

/// Enters what a packet from `host` announces. Packets of other programs and this
/// device's own are ignored. Returns whether the sender wants an answer, or
/// nothing for a packet that was ignored.
pub fn hear_announcement(
    state: &mut PersistedState,
    packet: DiscoveryPacket,
    host: &str,
    now: i64,
) -> (r: Option<bool>)
    ensures
        if is_announcement(old(state)@, packet@) {
            &&& r == Some(packet@.request)
            &&& final(state)@ == StateView {
                peers: after_announcement(old(state)@.peers, with_port(packet@), host@, now),
                ..old(state)@
            }
        } else {
            r is None && final(state)@ == old(state)@
        },
{
    if !same_text(packet.magic.as_str(), DISCOVERY_MAGIC) {
        return None;
    }
    if same_text(packet.device_id.as_str(), state.setup.device_id.as_str()) {
        return None;
    }
    let mut heard = packet;
    if heard.port == 0 {
        heard.port = TRANSPORT_PORT;
    }
    let request: bool = heard.request;
    upsert_peer_from_addr(state, &mut heard, host, now);
    Some(request)
}

/// Marks the online peers that have been silent for too long as offline, and
/// gives the new list where that changed anything.
pub fn mark_stale_peers_offline(state: &mut PersistedState, now: i64) -> (r: Option<Vec<PeerDevice>>)
    requires
        forall|i: int|
            0 <= i < old(state)@.peers.len() && (#[trigger] old(state)@.peers[i]).status
                == "online"@ ==> elapsed_fits(old(state)@.peers[i].last_seen, now),
    ensures
        final(state)@ == (StateView {
            peers: old(state)@.peers.map_values(|peer: PeerView| refreshed(peer, now)),
            ..old(state)@
        }),
        r is Some <==> exists|i: int|
            0 <= i < old(state)@.peers.len() && is_stale(#[trigger] old(state)@.peers[i], now),
        r matches Some(peers) ==> views(peers@) == final(state)@.peers,
{
    if apply_stale_peer_status(state, now) {
        Some(list_peers(state))
    } else {
        None
    }
}

/// What a device announces of itself is an announcement to every device but
/// itself, with the port that is meant and the key that it answers pairing with.
pub proof fn law_announcement_is_heard(sender: StateView, receiver: StateView, os: Seq<char>)
    requires
        local_packet(sender, os) is Ok,
        receiver.setup.device_id != sender.setup.device_id,
    ensures
        ({
            let packet = local_packet(sender, os)->Ok_0;
            &&& is_announcement(receiver, packet)
            &&& !is_announcement(sender, packet)
            &&& with_port(packet) == packet
            &&& derived_public_key(sender.setup.identity_secret) == Ok::<Seq<char>, Seq<char>>(
                packet.public_key,
            )
        }),
{
}

/// What this device says of itself is its own id, its name or a placeholder where it has
/// none, the public key of its identity, the system given and the port it listens on; it
/// asks for no answer. It can say so exactly if its identity has a public key.
pub proof fn law_local_discovery_packet(
    state: &PersistedState,
    os: &str,
    secret: &str,
    key: AppResult<String>,
    r: AppResult<DiscoveryPacket>,
)
    requires
        call_ensures(local_discovery_packet, (state, os), r),
        secret@ == state.setup.identity_secret@,
        call_ensures(derive_public_key, (secret,), key),
    ensures
        r is Ok <==> key is Ok,
        r matches Ok(packet) ==> {
            &&& packet.magic@ == "simplepass:v1"@
            &&& packet.device_id@ == state.setup.device_id@
            &&& packet.device_name@ == if state.setup.device_name@.len() == 0 {
                "SimplePass Device"@
            } else {
                state.setup.device_name@
            }
            &&& packet.public_key@ == key->Ok_0@
            &&& packet.os@ == os@
            &&& packet.port == 45_938
            &&& !packet.request
        },
{
}

/// A rescan says of this device what it always says, and asks everyone for an answer.
pub proof fn law_rescan_peers(
    state: &PersistedState,
    os: &str,
    packet: AppResult<DiscoveryPacket>,
    r: AppResult<DiscoveryPacket>,
)
    requires
        call_ensures(rescan_peers, (state, os), r),
        call_ensures(local_discovery_packet, (state, os), packet),
    ensures
        r is Ok <==> packet is Ok,
        r is Ok ==> r->Ok_0.request && r->Ok_0@ == (PacketView {
            request: true,
            ..packet->Ok_0@
        }),
{
}

/// A request to pair and an agreement to pair carry what this device says of itself.
pub proof fn law_pairing_messages(
    state: &PersistedState,
    os: &str,
    packet: AppResult<DiscoveryPacket>,
    request: AppResult<WireMessage>,
    acceptance: AppResult<WireMessage>,
)
    requires
        call_ensures(local_discovery_packet, (state, os), packet),
        call_ensures(pair_request, (state, os), request),
        call_ensures(pair_acceptance, (state, os), acceptance),
    ensures
        request is Ok <==> packet is Ok,
        acceptance is Ok <==> packet is Ok,
        request is Ok ==> request->Ok_0 is PairRequest && request->Ok_0->PairRequest_device@
            == packet->Ok_0@,
        acceptance is Ok ==> acceptance->Ok_0 is PairAccepted
            && acceptance->Ok_0->PairAccepted_device@ == packet->Ok_0@,
{
}

/// A packet of another program or of this device itself is ignored and changes nothing.
/// Any other is heard, and it is passed on whether its sender wants an answer.
pub proof fn law_hear_announcement(
    state: &mut PersistedState,
    packet: DiscoveryPacket,
    host: &str,
    now: i64,
    r: Option<bool>,
)
    requires
        call_ensures(hear_announcement, (state, packet, host, now), r),
    ensures
        r is None <==> packet.magic@ != "simplepass:v1"@ || packet.device_id@
            == old(state).setup.device_id@,
        r is None ==> final(state)@ == old(state)@,
        r matches Some(wants_answer) ==> wants_answer == packet.request,
        final(state)@.setup == old(state)@.setup,
        final(state)@.messages == old(state)@.messages,
        final(state)@.transfers == old(state)@.transfers,
{
}

/// Whoever announces itself while there is room is known from then on, at the host that
/// the announcement came from, under the id, the bounded name, the key and the port that
/// it announced, or the usual port where it named none. A known sender keeps its trust,
/// its secret and its avatar; an unknown one is unpaired, without a secret. Nobody else
/// is added or changed, and nobody else is dropped but unpaired peers that are offline
/// at that host.
pub proof fn law_announcer_is_known(
    state: &mut PersistedState,
    packet: DiscoveryPacket,
    host: &str,
    now: i64,
    k: int,
    device_name: &str,
    name: String,
    other: PeerView,
    r: Option<bool>,
)
    requires
        call_ensures(hear_announcement, (state, packet, host, now), r),
        r is Some,
        device_name@ == packet.device_name@,
        call_ensures(clamp_device_name, (device_name,), name),
        old(state).peers@.len() < 256,
        is_first_of(old(state).peers@, packet.device_id@, k) || is_unknown(
            old(state).peers@,
            packet.device_id@,
        ),
    ensures
        exists|i: int|
            {
                let peer = #[trigger] final(state)@.peers[i];
                &&& 0 <= i < final(state)@.peers.len()
                &&& peer.id == packet.device_id@
                &&& peer.host == host@
                &&& peer.port == if packet.port == 0 {
                    45_938
                } else {
                    packet.port
                }
                &&& peer.name == name@
                &&& peer.public_key == Some(packet.public_key@)
                &&& peer.os == packet.os@
                &&& peer.status == "online"@
                &&& peer.last_seen == now
                &&& if is_unknown(old(state).peers@, packet.device_id@) {
                    &&& peer.trust_state == "unpaired"@
                    &&& peer.shared_secret is None
                    &&& !peer.asked
                    &&& peer.avatar is None
                } else {
                    &&& peer.trust_state == old(state)@.peers[k].trust_state
                    &&& peer.shared_secret == old(state)@.peers[k].shared_secret
                    &&& peer.asked == old(state)@.peers[k].asked
                    &&& peer.avatar == old(state)@.peers[k].avatar
                }
            },
        other.id != packet.device_id@ && final(state)@.peers.contains(other)
            ==> old(state)@.peers.contains(other),
        other.id != packet.device_id@ && old(state)@.peers.contains(other) && (other.trust_state
            == "paired"@ || other.host != host@ || other.status != "offline"@)
            ==> final(state)@.peers.contains(other),
{
    let before = old(state).peers@;
    let peers = old(state)@.peers;
    let heard = with_port(packet@);
    let id = packet.device_id@;
    let sender = announced_peer(peers, heard, host@, now);
    law_announcer_is_listed(peers, heard, host@, now);
    let after = final(state)@.peers;
    let i = choose|i: int| 0 <= i < after.len() && after[i] == sender;
    if is_first_of(before, id, k) {
        lemma_first_of(before, id, k);
        assert(before[k].id@ == id);
        assert(peers[k] == before[k]@);
    } else {
        lemma_unknown(before, id);
    }
    assert(after[i].id == id);
    if other.id != id {
        lemma_announcement_spares(peers, heard, host@, now, other);
    }
}

/// What goes out in the clear to a peer that announced itself, such as a request to
/// pair, goes to the host that it announced itself from and the port that it named: the
/// peer found under its id afterwards is dialed there.
pub proof fn law_announcer_is_dialed_where_it_is(
    state: &mut PersistedState,
    packet: DiscoveryPacket,
    host: &str,
    now: i64,
    heard: Option<bool>,
    asking: &mut PersistedState,
    peer_id: &str,
    asked_at: i64,
    asked: AppResult<PeerDevice>,
    peer: &PeerDevice,
    message: WireMessage,
    r: AppResult<PlainSend>,
)
    requires
        call_ensures(hear_announcement, (state, packet, host, now), heard),
        heard is Some,
        old(state).peers@.len() < 256,
        unique_ids(old(state)@.peers),
        old(asking)@ == final(state)@,
        peer_id@ == packet.device_id@,
        call_ensures(pair_peer, (asking, peer_id, asked_at), asked),
        asked is Ok ==> peer@ == asked->Ok_0@,
        call_ensures(send_plain_wire, (peer, message), r),
    ensures
        asked is Ok,
        r matches Ok(send) ==> {
            &&& send.host@ == host@
            &&& send.port == if packet.port == 0 {
                45_938
            } else {
                packet.port
            }
            &&& send.envelope is Plain && send.envelope->message@ == message@
        },
{
    let peers = old(state)@.peers;
    let packet_heard = with_port(packet@);
    let id = packet.device_id@;
    let sender = announced_peer(peers, packet_heard, host@, now);
    law_announcer_is_listed(peers, packet_heard, host@, now);
    law_announcement_keeps_ids_unique(peers, packet_heard, host@, now);
    let after = final(state)@.peers;
    let i = choose|i: int| 0 <= i < after.len() && after[i] == sender;
    assert(after[i].id == id);
    lemma_peer_index_is(after, id, i);
}

/// Exactly the online peers that have been silent for more than nine seconds are marked
/// offline, and nothing else changes; the new list is given exactly if there was any.
pub proof fn law_mark_stale_peers_offline(
    state: &mut PersistedState,
    now: i64,
    r: Option<Vec<PeerDevice>>,
)
    requires
        call_ensures(mark_stale_peers_offline, (state, now), r),
    ensures
        final(state)@.peers.len() == old(state)@.peers.len(),
        forall|i: int|
            0 <= i < old(state)@.peers.len() ==> is_as_of(
                old(state)@.peers[i],
                #[trigger] final(state)@.peers[i],
                now,
            ),
        r is None ==> final(state)@.peers == old(state)@.peers,
        r matches Some(peers) ==> views(peers@) == final(state)@.peers && exists|i: int|
            0 <= i < old(state)@.peers.len() && (#[trigger] final(state)@.peers[i]).status
                != old(state)@.peers[i].status,
        final(state)@.setup == old(state)@.setup,
        final(state)@.messages == old(state)@.messages,
        final(state)@.transfers == old(state)@.transfers,
{
    reveal_strlit("online");
    reveal_strlit("offline");
    assert("online"@.len() == 6);
    assert("offline"@.len() == 7);
    if r is Some {
        let i = choose|i: int|
            0 <= i < old(state)@.peers.len() && is_stale(#[trigger] old(state)@.peers[i], now);
        assert(final(state)@.peers[i].status != old(state)@.peers[i].status);
    } else {
        let after = final(state)@.peers;
        assert forall|i: int| 0 <= i < old(state)@.peers.len() implies #[trigger] after[i]
            == old(state)@.peers[i] by {
            assert(!is_stale(old(state)@.peers[i], now));
        }
        assert(final(state)@.peers =~= old(state)@.peers);
    }
}

/// However many devices announce themselves, the list stays within 256, or holds nobody
/// but paired peers; and no announcement costs a paired peer its place, its trust or its
/// secret.
pub proof fn law_announcements_keep_the_list_bounded(
    state: &mut PersistedState,
    packet: DiscoveryPacket,
    host: &str,
    now: i64,
    r: Option<bool>,
    k: int,
)
    requires
        call_ensures(hear_announcement, (state, packet, host, now), r),
        r is Some,
    ensures
        final(state)@.peers.len() <= 256 || forall|i: int|
            0 <= i < final(state)@.peers.len() ==> (#[trigger] final(state)@.peers[i]).trust_state
                == "paired"@,
        unique_ids(old(state)@.peers) && 0 <= k < old(state).peers@.len()
            && old(state).peers@[k].trust_state@ == "paired"@ ==> exists|i: int|
            {
                let peer = #[trigger] final(state)@.peers[i];
                &&& 0 <= i < final(state)@.peers.len()
                &&& peer.id == old(state).peers@[k].id@
                &&& peer.trust_state == "paired"@
                &&& peer.shared_secret == old(state)@.peers[k].shared_secret
                &&& peer.avatar == old(state)@.peers[k].avatar
            },
{
    let peers = old(state)@.peers;
    let heard = with_port(packet@);
    let all = pruned(
        upserted(peers, announced_peer(peers, heard, host@, now)),
        heard.device_id,
        host@,
    );
    law_cap_bounds_the_list(all);
    if final(state)@.peers.len() > 256 {
        assert forall|i: int| 0 <= i < final(state)@.peers.len() implies (
        #[trigger] final(state)@.peers[i]).trust_state == "paired"@ by {
            assert(is_paired(capped(all)[i]));
        }
    }
    if unique_ids(peers) && 0 <= k < old(state).peers@.len()
        && old(state).peers@[k].trust_state@ == "paired"@ {
        assert(is_paired(peers[k]));
        law_announcement_keeps_paired(peers, heard, host@, now, k);
        let after = final(state)@.peers;
        let kept = if peers[k].id == heard.device_id {
            seen_again(peers[k], heard, host@, now)
        } else {
            peers[k]
        };
        let i = choose|i: int| 0 <= i < after.len() && after[i] == kept;
        assert(after[i].id == old(state).peers@[k].id@);
    }
}

/// An announcement makes room for its sender in a full list by dropping those unpaired
/// peers that were seen longest ago: where the sender is not listed afterwards with what
/// it announced, or another peer is dropped that is no dead earlier identity of its host,
/// every unpaired peer that stays was seen as late or later.
pub proof fn law_announcement_drops_the_stalest(
    state: &mut PersistedState,
    packet: DiscoveryPacket,
    host: &str,
    now: i64,
    r: Option<bool>,
    other: PeerView,
    i: int,
)
    requires
        call_ensures(hear_announcement, (state, packet, host, now), r),
        r is Some,
        0 <= i < final(state)@.peers.len(),
        final(state)@.peers[i].trust_state != "paired"@,
    ensures
        (exists|j: int|
            {
                let peer = #[trigger] final(state)@.peers[j];
                &&& 0 <= j < final(state)@.peers.len()
                &&& peer.id == packet.device_id@
                &&& peer.host == host@
                &&& peer.public_key == Some(packet.public_key@)
                &&& peer.status == "online"@
                &&& peer.last_seen == now
            }) || now <= final(state)@.peers[i].last_seen,
        other.id != packet.device_id@ && old(state)@.peers.contains(other) && (other.trust_state
            == "paired"@ || other.host != host@ || other.status != "offline"@)
            && !final(state)@.peers.contains(other) ==> other.trust_state != "paired"@
            && other.last_seen <= final(state)@.peers[i].last_seen,
        other.id != packet.device_id@ && final(state)@.peers.contains(other)
            ==> old(state)@.peers.contains(other),
{
    let peers = old(state)@.peers;
    let heard = with_port(packet@);
    let id = heard.device_id;
    let sender = announced_peer(peers, heard, host@, now);
    let all = upserted(peers, sender);
    lemma_peer_index(peers, id);
    let place = if peer_index(peers, id) >= 0 {
        peer_index(peers, id)
    } else {
        peers.len() as int
    };
    assert(all[place] == sender);
    let rest = pruned(all, id, host@);
    law_prune_keeps_paired(all, id, host@, sender);
    let keep = |p: PeerView| !is_dead_duplicate(p, id, host@);
    if other.id != id && peers.contains(other) {
        let j = choose|j: int| 0 <= j < peers.len() && peers[j] == other;
        assert(all[j] == other);
        if keep(other) && trimmed(host@).len() > 0 {
            lemma_filter_keeps(all, keep, other);
        }
    }
    lemma_cap_on_full_list(rest, sender, other, i);
    let after = final(state)@.peers;
    if after.contains(sender) {
        let j = choose|j: int| 0 <= j < after.len() && after[j] == sender;
        assert(after[j].id == packet.device_id@);
    }
    if other.id != id && after.contains(other) {
        law_cap_adds_nobody(rest, other);
        if trimmed(host@).len() > 0 {
            lemma_filter_subset(all, keep, other);
        }
        let j = choose|j: int| 0 <= j < all.len() && all[j] == other;
        assert(j != place);
        assert(peers[j] == other);
    }
}

} // verus!
