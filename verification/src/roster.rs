//! Keeping the list of known devices in step with what the network shows.

use crate::model::{
    views, DiscoveryPacket, PacketView, PeerDevice, PeerView, PersistedState, StateView,
    MAX_DEVICE_NAME_LEN, MAX_PEERS, PEER_OFFLINE_AFTER_MS,
};
use crate::peers::{
    differ_only_at, find_peer, is_first_of, is_paired, is_unknown, lemma_first_of,
    lemma_known_or_unknown, lemma_peer_index, lemma_unknown, lemma_updated_peers, paired,
    peer_index,
};
use crate::text::{
    clone_opt, is_blank, law_trimmed_empty_iff_blank, opt_text, same_text, trim, trimmed,
};
use vstd::prelude::*;

verus! {

/// A peer-supplied name, bounded before it is kept.
pub open spec fn clamped_name(name: Seq<char>) -> Seq<char> {
    let bare = trimmed(name);
    if bare.len() == 0 {
        "Unknown device"@
    } else if bare.len() > MAX_DEVICE_NAME_LEN {
        bare.take(MAX_DEVICE_NAME_LEN as int)
    } else {
        bare
    }
}

/// Bounds a peer-supplied device name: trimmed, cut to `MAX_DEVICE_NAME_LEN`
/// characters, and replaced by a placeholder when nothing is left.
pub fn clamp_device_name(name: &str) -> (r: String)
    ensures
        r@ == clamped_name(name@),
{
    let bare = trim(name);
    if bare.is_empty() {
        return "Unknown device".to_string();
    }
    let len: usize = bare.unicode_len();
    if len > MAX_DEVICE_NAME_LEN {
        proof {
            assert(bare@.subrange(0, MAX_DEVICE_NAME_LEN as int) =~= bare@.take(
                MAX_DEVICE_NAME_LEN as int,
            ));
        }
        bare.substring_char(0, MAX_DEVICE_NAME_LEN).to_string()
    } else {
        bare.to_string()
    }
}

/// The place of the first peer, of those not paired, that was seen longest ago,
/// or -1.
pub open spec fn stalest_unpaired(peers: Seq<PeerView>) -> int
    decreases peers.len(),
{
    if peers.len() == 0 {
        -1
    } else {
        let k = stalest_unpaired(peers.drop_last());
        let last = peers.last();
        if is_paired(last) {
            k
        } else if k < 0 || last.last_seen < peers[k].last_seen {
            peers.len() - 1
        } else {
            k
        }
    }
}

/// The peers after the stalest unpaired ones were evicted to meet the cap.
pub open spec fn capped(peers: Seq<PeerView>) -> Seq<PeerView>
    decreases peers.len(),
{
    let k = stalest_unpaired(peers);
    if peers.len() > MAX_PEERS && 0 <= k < peers.len() {
        capped(peers.remove(k))
    } else {
        peers
    }
}

/// `stalest_unpaired` gives an unpaired peer, seen no later than any other, and
/// the first of those; it fails only where every peer is paired.
pub proof fn lemma_stalest_unpaired(peers: Seq<PeerView>)
    ensures
        -1 <= stalest_unpaired(peers) < peers.len(),
        stalest_unpaired(peers) >= 0 ==> {
            let k = stalest_unpaired(peers);
            &&& !is_paired(peers[k])
            &&& forall|j: int|
                0 <= j < peers.len() && !is_paired(#[trigger] peers[j]) ==> peers[k].last_seen
                    <= peers[j].last_seen
            &&& forall|j: int|
                0 <= j < k && !is_paired(#[trigger] peers[j]) ==> peers[k].last_seen
                    < peers[j].last_seen
        },
        stalest_unpaired(peers) < 0 ==> forall|j: int|
            0 <= j < peers.len() ==> is_paired(#[trigger] peers[j]),
    decreases peers.len(),
{
    if peers.len() > 0 {
        let init = peers.drop_last();
        lemma_stalest_unpaired(init);
        assert forall|j: int| 0 <= j < peers.len() - 1 implies #[trigger] peers[j] == init[j] by {}
    }
}

fn find_stalest_unpaired(peers: &Vec<PeerDevice>) -> (r: Option<usize>)
    ensures
        match r {
            Some(k) => k == stalest_unpaired(views(peers@)),
            None => stalest_unpaired(views(peers@)) == -1,
        },
{
    let mut best: Option<usize> = None;
    let mut i: usize = 0;
    while i < peers.len()
        invariant
            i <= peers@.len(),
            match best {
                Some(b) => b < i && b == stalest_unpaired(views(peers@).take(i as int)),
                None => stalest_unpaired(views(peers@).take(i as int)) == -1,
            },
        decreases peers@.len() - i,
    {
        proof {
            let next = views(peers@).take(i + 1);
            assert(next.drop_last() =~= views(peers@).take(i as int));
            assert(next.last() == peers@[i as int]@);
        }
        if !paired(&peers[i]) {
            let staler = match best {
                Some(b) => peers[i].last_seen < peers[b].last_seen,
                None => true,
            };
            if staler {
                best = Some(i);
            }
        }
        i = i + 1;
    }
    proof {
        assert(views(peers@).take(i as int) =~= views(peers@));
    }
    best
}

/// Bounds the peer list to `MAX_PEERS` by evicting the stalest unpaired peers;
/// paired peers always stay.
pub fn enforce_peer_cap(state: &mut PersistedState)
    ensures
        final(state)@ == (StateView { peers: capped(old(state)@.peers), ..old(state)@ }),
{
    while state.peers.len() > MAX_PEERS
        invariant_except_break
            capped(state@.peers) == capped(old(state)@.peers),
        invariant
            state@ == (StateView { peers: state@.peers, ..old(state)@ }),
        ensures
            state@.peers == capped(old(state)@.peers),
        decreases state.peers@.len(),
    {
        match find_stalest_unpaired(&state.peers) {
            Some(k) => {
                proof {
                    lemma_stalest_unpaired(state@.peers);
                }
                let ghost before = state@.peers;
                let gone = state.peers.remove(k);
                proof {
                    assert(state@.peers =~= before.remove(k as int));
                }
            },
            None => {
                break;
            },
        }
    }
}

/// Whether a peer is a dead earlier identity of the machine at `host`: another
/// id, offline, and never paired.
pub open spec fn is_dead_duplicate(peer: PeerView, keep_id: Seq<char>, host: Seq<char>) -> bool {
    &&& peer.id != keep_id
    &&& peer.host == host
    &&& peer.status == "offline"@
    &&& !is_paired(peer)
}

/// The peers without the dead earlier identities of the machine at `host`.
pub open spec fn without_dead_duplicates(
    peers: Seq<PeerView>,
    keep_id: Seq<char>,
    host: Seq<char>,
) -> Seq<PeerView> {
    peers.filter(|peer: PeerView| !is_dead_duplicate(peer, keep_id, host))
}

/// The peers after `keep_id` was seen at `host`.
pub open spec fn pruned(peers: Seq<PeerView>, keep_id: Seq<char>, host: Seq<char>) -> Seq<
    PeerView,
> {
    if trimmed(host).len() == 0 {
        peers
    } else {
        without_dead_duplicates(peers, keep_id, host)
    }
}

/// Drops the dead earlier identities of the machine at `host`, where `keep_id`
/// is now seen. Paired peers are never dropped. Returns whether any was.
pub fn prune_offline_host_duplicates(state: &mut PersistedState, keep_id: &str, host: &str) -> (r:
    bool)
    ensures
        final(state)@ == (StateView {
            peers: pruned(old(state)@.peers, keep_id@, host@),
            ..old(state)@
        }),
        r == (final(state)@.peers.len() != old(state)@.peers.len()),
        r == (trimmed(host@).len() > 0 && exists|i: int|
            0 <= i < old(state)@.peers.len() && is_dead_duplicate(
                #[trigger] old(state)@.peers[i],
                keep_id@,
                host@,
            )),
{
    if trim(host).is_empty() {
        return false;
    }
    let ghost all = state@.peers;
    let mut kept: Vec<PeerDevice> = Vec::new();
    let mut i: usize = 0;
    proof {
        reveal(Seq::filter);
        assert(views(kept@) =~= without_dead_duplicates(all.take(0), keep_id@, host@));
    }
    while i < state.peers.len()
        invariant
            i <= state.peers@.len(),
            all == state@.peers,
            views(kept@) == without_dead_duplicates(all.take(i as int), keep_id@, host@),
            kept@.len() <= i,
            kept@.len() < i <==> exists|j: int|
                0 <= j < i && is_dead_duplicate(#[trigger] all[j], keep_id@, host@),
        decreases state.peers@.len() - i,
    {
        proof {
            reveal(Seq::filter);
            let next = all.take(i + 1);
            assert(next.drop_last() =~= all.take(i as int));
        }
        let ghost before = kept@;
        let peer = &state.peers[i];
        let dead = !same_text(peer.id.as_str(), keep_id) && same_text(peer.host.as_str(), host)
            && same_text(peer.status.as_str(), "offline") && !paired(peer);
        if !dead {
            kept.push(peer.clone());
            proof {
                assert(views(kept@) =~= views(before).push(all[i as int]));
            }
        } else {
            proof {
                assert(is_dead_duplicate(all[i as int], keep_id@, host@));
            }
        }
        i = i + 1;
    }
    proof {
        assert(all.take(i as int) =~= all);
    }
    let removed: bool = kept.len() != state.peers.len();
    state.peers = kept;
    removed
}

/// Whether a peer has been silent for so long that it counts as offline.
pub open spec fn is_stale(peer: PeerView, now: i64) -> bool {
    peer.status == "online"@ && now - peer.last_seen > PEER_OFFLINE_AFTER_MS
}

/// A peer with its status brought up to date.
pub open spec fn refreshed(peer: PeerView, now: i64) -> PeerView {
    if is_stale(peer, now) {
        PeerView { status: "offline"@, ..peer }
    } else {
        peer
    }
}

/// Whether `later - earlier` is a time that 64 bits hold.
pub open spec fn elapsed_fits(earlier: i64, later: i64) -> bool {
    i64::MIN <= later - earlier <= i64::MAX
}

/// Whether `later - earlier` is a time that 64 bits hold.
pub fn elapsed_is_known(earlier: i64, later: i64) -> (r: bool)
    ensures
        r == elapsed_fits(earlier, later),
{
    let elapsed: i128 = later as i128 - earlier as i128;
    i64::MIN as i128 <= elapsed && elapsed <= i64::MAX as i128
}

/// Whether it can be told how long every online peer has been silent.
pub fn silences_are_known(state: &PersistedState, now: i64) -> (r: bool)
    ensures
        r == forall|i: int|
            0 <= i < state@.peers.len() && (#[trigger] state@.peers[i]).status == "online"@
                ==> elapsed_fits(state@.peers[i].last_seen, now),
{
    let mut i: usize = 0;
    while i < state.peers.len()
        invariant
            i <= state.peers@.len(),
            forall|j: int|
                0 <= j < i && (#[trigger] state@.peers[j]).status == "online"@ ==> elapsed_fits(
                    state@.peers[j].last_seen,
                    now,
                ),
        decreases state.peers@.len() - i,
    {
        if same_text(state.peers[i].status.as_str(), "online") && !elapsed_is_known(
            state.peers[i].last_seen,
            now,
        ) {
            assert(state@.peers[i as int].status == "online"@);
            return false;
        }
        i = i + 1;
    }
    true
}

/// Marks the online peers that have been silent for too long as offline.
/// Returns whether there was any.
pub fn apply_stale_peer_status(state: &mut PersistedState, now: i64) -> (r: bool)
    requires
        forall|i: int|
            0 <= i < old(state)@.peers.len() && (#[trigger] old(state)@.peers[i]).status
                == "online"@ ==> elapsed_fits(old(state)@.peers[i].last_seen, now),
    ensures
        final(state)@ == (StateView {
            peers: old(state)@.peers.map_values(|peer: PeerView| refreshed(peer, now)),
            ..old(state)@
        }),
        r == exists|i: int|
            0 <= i < old(state)@.peers.len() && is_stale(#[trigger] old(state)@.peers[i], now),
{
    let mut changed: bool = false;
    let mut i: usize = 0;
    let ghost all = state@.peers;
    while i < state.peers.len()
        invariant
            i <= state.peers@.len(),
            state.peers@.len() == all.len(),
            all == old(state)@.peers,
            state@ == (StateView { peers: state@.peers, ..old(state)@ }),
            forall|j: int|
                0 <= j < all.len() && (#[trigger] all[j]).status == "online"@ ==> elapsed_fits(
                    all[j].last_seen,
                    now,
                ),
            forall|j: int| 0 <= j < i ==> #[trigger] state@.peers[j] == refreshed(all[j], now),
            forall|j: int| i <= j < all.len() ==> #[trigger] state@.peers[j] == all[j],
            changed == exists|j: int| 0 <= j < i && is_stale(#[trigger] all[j], now),
        decreases state.peers@.len() - i,
    {
        proof {
            assert(state@.peers[i as int] == all[i as int]);
        }
        if same_text(state.peers[i].status.as_str(), "online") && now - state.peers[i].last_seen
            > PEER_OFFLINE_AFTER_MS {
            let ghost before = state@.peers;
            let mut peer = state.peers[i].clone();
            peer.status = "offline".to_string();
            let ghost after = peer@;
            state.peers.set(i, peer);
            changed = true;
            proof {
                assert(state@.peers =~= before.update(i as int, after));
                assert(is_stale(all[i as int], now));
            }
        }
        i = i + 1;
    }
    proof {
        assert(state@.peers =~= all.map_values(|peer: PeerView| refreshed(peer, now)));
    }
    changed
}

/// A known peer that announced itself from `host`.
pub open spec fn seen_again(peer: PeerView, packet: PacketView, host: Seq<char>, now: i64) -> PeerView {
    PeerView {
        name: clamped_name(packet.device_name),
        host,
        port: packet.port,
        public_key: Some(packet.public_key),
        os: packet.os,
        status: "online"@,
        last_seen: now,
        ..peer
    }
}

/// A peer that announced itself for the first time.
pub open spec fn first_seen(
    packet: PacketView,
    host: Seq<char>,
    trust_state: Seq<char>,
    shared_secret: Option<Seq<char>>,
    now: i64,
) -> PeerView {
    PeerView {
        id: packet.device_id,
        name: clamped_name(packet.device_name),
        host,
        port: packet.port,
        public_key: Some(packet.public_key),
        os: packet.os,
        status: "online"@,
        trust_state,
        shared_secret,
        asked: false,
        avatar: None,
        last_seen: now,
    }
}

/// The peers with `peer` in the place of the first one of its id, or at the end.
pub open spec fn upserted(peers: Seq<PeerView>, peer: PeerView) -> Seq<PeerView> {
    let k = peer_index(peers, peer.id);
    if k >= 0 {
        peers.update(k, peer)
    } else {
        peers.push(peer)
    }
}

/// What an announcement makes of the peer that sent it.
pub open spec fn announced_peer(
    peers: Seq<PeerView>,
    packet: PacketView,
    host: Seq<char>,
    now: i64,
) -> PeerView {
    let k = peer_index(peers, packet.device_id);
    if k >= 0 {
        seen_again(peers[k], packet, host, now)
    } else {
        first_seen(packet, host, "unpaired"@, None, now)
    }
}

/// The peers after an announcement was heard from `host`.
pub open spec fn after_announcement(
    peers: Seq<PeerView>,
    packet: PacketView,
    host: Seq<char>,
    now: i64,
) -> Seq<PeerView> {
    capped(
        pruned(
            upserted(peers, announced_peer(peers, packet, host, now)),
            packet.device_id,
            host,
        ),
    )
}

/// Records an announcement heard from `host`: bounds the name in the packet,
/// refreshes the peer or adds it as unpaired, then drops dead duplicates and
/// bounds the list.
pub fn upsert_peer_from_addr(
    state: &mut PersistedState,
    packet: &mut DiscoveryPacket,
    host: &str,
    now: i64,
)
    ensures
        final(state)@ == (StateView {
            peers: after_announcement(old(state)@.peers, old(packet)@, host@, now),
            ..old(state)@
        }),
        final(packet)@ == (PacketView {
            device_name: clamped_name(old(packet)@.device_name),
            ..old(packet)@
        }),
{
    let ghost before = state@.peers;
    let ghost heard = packet@;
    proof {
        lemma_peer_index(before, packet.device_id@);
    }
    packet.device_name = clamp_device_name(packet.device_name.as_str());
    let name = packet.device_name.clone();
    match find_peer(state.peers.as_slice(), packet.device_id.as_str()) {
        Some(k) => {
            let mut peer = state.peers[k].clone();
            peer.name = name;
            peer.host = host.to_string();
            peer.port = packet.port;
            peer.public_key = Some(packet.public_key.clone());
            peer.os = packet.os.clone();
            peer.status = "online".to_string();
            peer.last_seen = now;
            let ghost after = peer@;
            state.peers.set(k, peer);
            proof {
                assert(state@.peers =~= before.update(k as int, after));
            }
        },
        None => {
            let peer = PeerDevice {
                id: packet.device_id.clone(),
                name,
                host: host.to_string(),
                port: packet.port,
                public_key: Some(packet.public_key.clone()),
                os: packet.os.clone(),
                status: "online".to_string(),
                trust_state: "unpaired".to_string(),
                shared_secret: None,
                asked: false,
                avatar: None,
                last_seen: now,
            };
            let ghost after = peer@;
            state.peers.push(peer);
            proof {
                assert(state@.peers =~= before.push(after));
            }
        },
    }
    proof {
        assert(state@.peers == upserted(before, announced_peer(before, heard, host@, now)));
    }
    let _ = prune_offline_host_duplicates(state, packet.device_id.as_str(), host);
    enforce_peer_cap(state);
}

/// What a pairing message makes of the peer that sent it. An unknown sender
/// address leaves a known peer's address as it was. A secret settles what the
/// peer was asked; without one, whether it was asked stays as it was.
pub open spec fn introduced_peer(
    peers: Seq<PeerView>,
    packet: PacketView,
    trust_state: Seq<char>,
    host: Seq<char>,
    shared_secret: Option<Seq<char>>,
    now: i64,
) -> PeerView {
    let k = peer_index(peers, packet.device_id);
    if k >= 0 {
        let known = peers[k];
        PeerView {
            trust_state,
            host: if host.len() > 0 {
                host
            } else {
                known.host
            },
            asked: known.asked && shared_secret is None,
            shared_secret: if shared_secret is Some {
                shared_secret
            } else {
                known.shared_secret
            },
            ..seen_again(known, packet, host, now)
        }
    } else {
        first_seen(packet, host, trust_state, shared_secret, now)
    }
}

/// Records a pairing message: refreshes or adds its sender with the given trust
/// and secret, bounds the list, and gives the sender.
pub fn upsert_discovered_peer(
    state: &mut PersistedState,
    packet: &DiscoveryPacket,
    trust_state: &str,
    host: &str,
    shared_secret: Option<String>,
    now: i64,
) -> (r: PeerDevice)
    ensures
        ({
            let before = old(state)@;
            let peer = introduced_peer(
                before.peers,
                packet@,
                trust_state@,
                host@,
                opt_text(shared_secret),
                now,
            );
            &&& r@ == peer
            &&& final(state)@ == StateView { peers: capped(upserted(before.peers, peer)), ..before }
        }),
{
    let ghost before = state@.peers;
    proof {
        lemma_peer_index(before, packet.device_id@);
    }
    let name = clamp_device_name(packet.device_name.as_str());
    let changed = match find_peer(state.peers.as_slice(), packet.device_id.as_str()) {
        Some(k) => {
            let mut peer = state.peers[k].clone();
            peer.name = name;
            if !host.is_empty() {
                peer.host = host.to_string();
            }
            peer.port = packet.port;
            peer.public_key = Some(packet.public_key.clone());
            peer.os = packet.os.clone();
            peer.status = "online".to_string();
            peer.trust_state = trust_state.to_string();
            if shared_secret.is_some() {
                peer.asked = false;
                peer.shared_secret = clone_opt(&shared_secret);
            }
            peer.last_seen = now;
            let copy = peer.clone();
            state.peers.set(k, peer);
            proof {
                assert(state@.peers =~= before.update(k as int, copy@));
            }
            copy
        },
        None => {
            let peer = PeerDevice {
                id: packet.device_id.clone(),
                name,
                host: host.to_string(),
                port: packet.port,
                public_key: Some(packet.public_key.clone()),
                os: packet.os.clone(),
                status: "online".to_string(),
                trust_state: trust_state.to_string(),
                shared_secret,
                asked: false,
                avatar: None,
                last_seen: now,
            };
            let copy = peer.clone();
            state.peers.push(peer);
            proof {
                assert(state@.peers =~= before.push(copy@));
            }
            copy
        },
    };
    enforce_peer_cap(state);
    changed
}

/// No two peers have the same id.
pub open spec fn unique_ids(peers: Seq<PeerView>) -> bool {
    forall|i: int, j: int|
        0 <= i < j < peers.len() ==> (#[trigger] peers[i]).id != (#[trigger] peers[j]).id
}

/// The paired peers, in order.
pub open spec fn paired_peers(peers: Seq<PeerView>) -> Seq<PeerView> {
    peers.filter(|peer: PeerView| is_paired(peer))
}

proof fn lemma_paired_peers_remove(peers: Seq<PeerView>, k: int)
    requires
        0 <= k < peers.len(),
        !is_paired(peers[k]),
    ensures
        paired_peers(peers.remove(k)) == paired_peers(peers),
    decreases peers.len(),
{
    reveal(Seq::filter);
    let rest = peers.remove(k);
    if k == peers.len() - 1 {
        assert(rest =~= peers.drop_last());
    } else {
        lemma_paired_peers_remove(peers.drop_last(), k);
        assert(rest.drop_last() =~= peers.drop_last().remove(k));
        assert(rest.last() == peers.last());
    }
}

/// Meeting the cap evicts no paired peer and keeps their order.
pub proof fn law_cap_keeps_paired(peers: Seq<PeerView>)
    ensures
        paired_peers(capped(peers)) == paired_peers(peers),
    decreases peers.len(),
{
    let k = stalest_unpaired(peers);
    if peers.len() > MAX_PEERS && 0 <= k < peers.len() {
        lemma_stalest_unpaired(peers);
        lemma_paired_peers_remove(peers, k);
        law_cap_keeps_paired(peers.remove(k));
    }
}

/// After the cap is met, the list is within it, or nobody is left but paired
/// peers; a list within the cap is left alone, and none is cut below it.
pub proof fn law_cap_bounds_the_list(peers: Seq<PeerView>)
    ensures
        capped(peers).len() <= MAX_PEERS || forall|i: int|
            0 <= i < capped(peers).len() ==> is_paired(#[trigger] capped(peers)[i]),
        peers.len() <= MAX_PEERS ==> capped(peers) == peers,
        peers.len() >= MAX_PEERS ==> capped(peers).len() >= MAX_PEERS,
    decreases peers.len(),
{
    lemma_stalest_unpaired(peers);
    let k = stalest_unpaired(peers);
    if peers.len() > MAX_PEERS && 0 <= k < peers.len() {
        law_cap_bounds_the_list(peers.remove(k));
    }
}

/// Meeting the cap adds nobody.
pub proof fn law_cap_adds_nobody(peers: Seq<PeerView>, peer: PeerView)
    requires
        capped(peers).contains(peer),
    ensures
        peers.contains(peer),
    decreases peers.len(),
{
    lemma_stalest_unpaired(peers);
    let k = stalest_unpaired(peers);
    if peers.len() > MAX_PEERS && 0 <= k < peers.len() {
        law_cap_adds_nobody(peers.remove(k), peer);
        let rest = peers.remove(k);
        let i = choose|i: int| 0 <= i < rest.len() && rest[i] == peer;
        assert(rest[i] == peers[if i < k {
            i
        } else {
            i + 1
        }]);
    }
}

/// Those evicted to meet the cap were seen no later than any unpaired peer that
/// stayed.
pub proof fn law_cap_evicts_the_stalest(peers: Seq<PeerView>, gone: PeerView, kept: PeerView)
    requires
        peers.contains(gone),
        !capped(peers).contains(gone),
        capped(peers).contains(kept),
        !is_paired(kept),
    ensures
        !is_paired(gone),
        gone.last_seen <= kept.last_seen,
    decreases peers.len(),
{
    lemma_stalest_unpaired(peers);
    let k = stalest_unpaired(peers);
    if peers.len() > MAX_PEERS && 0 <= k < peers.len() {
        let rest = peers.remove(k);
        if rest.contains(gone) {
            law_cap_evicts_the_stalest(rest, gone, kept);
        } else {
            let g = choose|i: int| 0 <= i < peers.len() && peers[i] == gone;
            if g != k {
                let at = if g < k {
                    g
                } else {
                    g - 1
                };
                assert(rest[at] == gone);
            }
            assert(gone == peers[k]);
            law_cap_adds_nobody(peers, kept);
            let i = choose|i: int| 0 <= i < peers.len() && peers[i] == kept;
            assert(peers[i] == kept);
        }
    }
}

/// Meeting the cap keeps ids unique.
pub proof fn law_cap_keeps_ids_unique(peers: Seq<PeerView>)
    requires
        unique_ids(peers),
    ensures
        unique_ids(capped(peers)),
    decreases peers.len(),
{
    lemma_stalest_unpaired(peers);
    let k = stalest_unpaired(peers);
    if peers.len() > MAX_PEERS && 0 <= k < peers.len() {
        let rest = peers.remove(k);
        assert forall|i: int, j: int| 0 <= i < j < rest.len() implies (#[trigger] rest[i]).id != (
        #[trigger] rest[j]).id by {
            let a = if i < k {
                i
            } else {
                i + 1
            };
            let b = if j < k {
                j
            } else {
                j + 1
            };
            assert(rest[i] == peers[a] && rest[j] == peers[b]);
        }
        law_cap_keeps_ids_unique(rest);
    }
}

/// Putting a peer in its place keeps ids unique.
pub proof fn law_upsert_keeps_ids_unique(peers: Seq<PeerView>, peer: PeerView)
    requires
        unique_ids(peers),
    ensures
        unique_ids(upserted(peers, peer)),
{
    lemma_peer_index(peers, peer.id);
}

/// Where no two items of a list share an id, no two of those kept by a filter do.
pub(crate) proof fn lemma_filter_keeps_ids_unique(peers: Seq<PeerView>, keep: spec_fn(PeerView) -> bool)
    requires
        unique_ids(peers),
    ensures
        unique_ids(peers.filter(keep)),
        forall|i: int|
            0 <= i < peers.filter(keep).len() ==> peers.contains(
                #[trigger] peers.filter(keep)[i],
            ),
    decreases peers.len(),
{
    reveal(Seq::filter);
    if peers.len() > 0 {
        let init = peers.drop_last();
        let last = peers.last();
        lemma_filter_keeps_ids_unique(init, keep);
        let kept = init.filter(keep);
        assert forall|i: int| 0 <= i < kept.len() implies peers.contains(#[trigger] kept[i])
            && kept[i].id != last.id by {
            let j = choose|j: int| 0 <= j < init.len() && init[j] == kept[i];
            assert(peers[j] == kept[i]);
            assert(peers[peers.len() - 1] == last);
        }
        assert(peers.contains(last)) by {
            assert(peers[peers.len() - 1] == last);
        }
        let all = peers.filter(keep);
        if keep(last) {
            assert(all =~= kept.push(last));
        } else {
            assert(all =~= kept);
        }
    }
}

/// Hearing an announcement keeps ids unique.
pub proof fn law_announcement_keeps_ids_unique(
    peers: Seq<PeerView>,
    packet: PacketView,
    host: Seq<char>,
    now: i64,
)
    requires
        unique_ids(peers),
    ensures
        unique_ids(after_announcement(peers, packet, host, now)),
{
    let peer = announced_peer(peers, packet, host, now);
    lemma_peer_index(peers, packet.device_id);
    law_upsert_keeps_ids_unique(peers, peer);
    let all = upserted(peers, peer);
    lemma_filter_keeps_ids_unique(
        all,
        |p: PeerView| !is_dead_duplicate(p, packet.device_id, host),
    );
    law_cap_keeps_ids_unique(pruned(all, packet.device_id, host));
}

/// An announcement grants no trust: whoever is paired after it was paired
/// before it, under the same id and with the same secret.
pub proof fn law_announcement_grants_no_trust(
    peers: Seq<PeerView>,
    packet: PacketView,
    host: Seq<char>,
    now: i64,
    peer: PeerView,
)
    requires
        after_announcement(peers, packet, host, now).contains(peer),
        is_paired(peer),
    ensures
        exists|k: int|
            0 <= k < peers.len() && is_paired(#[trigger] peers[k]) && peers[k].id == peer.id
                && peers[k].shared_secret == peer.shared_secret,
{
    reveal_strlit("paired");
    reveal_strlit("unpaired");
    let sender = announced_peer(peers, packet, host, now);
    lemma_peer_index(peers, packet.device_id);
    let all = upserted(peers, sender);
    let rest = pruned(all, packet.device_id, host);
    law_cap_adds_nobody(rest, peer);
    if trimmed(host).len() > 0 {
        let keep = |p: PeerView| !is_dead_duplicate(p, packet.device_id, host);
        lemma_filter_subset(all, keep, peer);
    }
    let i = choose|i: int| 0 <= i < all.len() && all[i] == peer;
    let k = peer_index(peers, packet.device_id);
    if k >= 0 {
        if i == k {
            assert(is_paired(peers[k]));
        } else {
            assert(peers[i] == peer);
        }
    } else if i < peers.len() {
        assert(peers[i] == peer);
    } else {
        assert(peer.trust_state.len() == "unpaired"@.len());
        assert("unpaired"@.len() != "paired"@.len());
    }
}

pub(crate) proof fn lemma_filter_subset(
    peers: Seq<PeerView>,
    keep: spec_fn(PeerView) -> bool,
    peer: PeerView,
)
    requires
        peers.filter(keep).contains(peer),
    ensures
        peers.contains(peer),
        keep(peer),
    decreases peers.len(),
{
    reveal(Seq::filter);
    if peers.len() > 0 {
        let init = peers.drop_last();
        let last = peers.last();
        let kept = peers.filter(keep);
        let i = choose|i: int| 0 <= i < kept.len() && kept[i] == peer;
        if keep(last) && i == kept.len() - 1 {
            assert(peers[peers.len() - 1] == peer);
        } else {
            assert(init.filter(keep)[i] == peer);
            lemma_filter_subset(init, keep, peer);
            let j = choose|j: int| 0 <= j < init.len() && init[j] == peer;
            assert(peers[j] == peer);
        }
    }
}

pub(crate) proof fn lemma_filter_keeps(
    peers: Seq<PeerView>,
    keep: spec_fn(PeerView) -> bool,
    peer: PeerView,
)
    requires
        peers.contains(peer),
        keep(peer),
    ensures
        peers.filter(keep).contains(peer),
    decreases peers.len(),
{
    reveal(Seq::filter);
    if peers.len() > 0 {
        let init = peers.drop_last();
        let last = peers.last();
        let kept = peers.filter(keep);
        if last == peer {
            assert(kept[kept.len() - 1] == peer);
        } else {
            let j = choose|j: int| 0 <= j < peers.len() && peers[j] == peer;
            assert(init[j] == peer);
            lemma_filter_keeps(init, keep, peer);
            let i = choose|i: int| 0 <= i < init.filter(keep).len() && init.filter(keep)[i] == peer;
            assert(kept[i] == peer);
        }
    }
}

/// Pruning never drops a paired peer, nor the one just seen.
pub proof fn law_prune_keeps_paired(
    peers: Seq<PeerView>,
    keep_id: Seq<char>,
    host: Seq<char>,
    peer: PeerView,
)
    requires
        peers.contains(peer),
        is_paired(peer) || peer.id == keep_id,
    ensures
        pruned(peers, keep_id, host).contains(peer),
{
    if trimmed(host).len() > 0 {
        lemma_filter_keeps(peers, |p: PeerView| !is_dead_duplicate(p, keep_id, host), peer);
    }
}

/// An announcement costs no paired peer its place: each stays as it was, except
/// for the sender, which stays paired with its secret.
pub proof fn law_announcement_keeps_paired(
    peers: Seq<PeerView>,
    packet: PacketView,
    host: Seq<char>,
    now: i64,
    k: int,
)
    requires
        unique_ids(peers),
        0 <= k < peers.len(),
        is_paired(peers[k]),
    ensures
        after_announcement(peers, packet, host, now).contains(
            if peers[k].id == packet.device_id {
                seen_again(peers[k], packet, host, now)
            } else {
                peers[k]
            },
        ),
{
    let sender = announced_peer(peers, packet, host, now);
    lemma_peer_index(peers, packet.device_id);
    let all = upserted(peers, sender);
    let peer = if peers[k].id == packet.device_id {
        seen_again(peers[k], packet, host, now)
    } else {
        peers[k]
    };
    assert(all[k] == peer);
    law_prune_keeps_paired(all, packet.device_id, host, peer);
    let rest = pruned(all, packet.device_id, host);
    law_cap_keeps_paired(rest);
    lemma_filter_keeps(rest, |p: PeerView| is_paired(p), peer);
    lemma_filter_subset(capped(rest), |p: PeerView| is_paired(p), peer);
}

proof fn lemma_filter_len(peers: Seq<PeerView>, keep: spec_fn(PeerView) -> bool)
    ensures
        peers.filter(keep).len() <= peers.len(),
    decreases peers.len(),
{
    reveal(Seq::filter);
    if peers.len() > 0 {
        lemma_filter_len(peers.drop_last(), keep);
    }
}

/// Whoever announces itself while there is room is in the list, online and with
/// the id and the key that it announced.
pub proof fn law_announcer_is_listed(
    peers: Seq<PeerView>,
    packet: PacketView,
    host: Seq<char>,
    now: i64,
)
    requires
        peers.len() < MAX_PEERS,
    ensures
        ({
            let peer = announced_peer(peers, packet, host, now);
            &&& after_announcement(peers, packet, host, now).contains(peer)
            &&& peer.id == packet.device_id
            &&& peer.public_key == Some(packet.public_key)
            &&& peer.status == "online"@
            &&& peer.host == host
        }),
{
    let peer = announced_peer(peers, packet, host, now);
    lemma_peer_index(peers, packet.device_id);
    let all = upserted(peers, peer);
    let k = peer_index(peers, packet.device_id);
    if k >= 0 {
        assert(all[k] == peer);
    } else {
        assert(all[peers.len() as int] == peer);
    }
    law_prune_keeps_paired(all, packet.device_id, host, peer);
    let rest = pruned(all, packet.device_id, host);
    lemma_filter_len(all, |p: PeerView| !is_dead_duplicate(p, packet.device_id, host));
    law_cap_bounds_the_list(rest);
}

/// Looking for silent peers twice at the same time finds none the second time.
pub proof fn law_refreshing_settles(peer: PeerView, now: i64)
    ensures
        !is_stale(refreshed(peer, now), now),
        refreshed(refreshed(peer, now), now) == refreshed(peer, now),
{
    reveal_strlit("online");
    reveal_strlit("offline");
    assert("online"@.len() == 6);
    assert("offline"@.len() == 7);
}

/// A name kept from a packet is never empty and never longer than the bound.
pub proof fn law_clamped_name_is_bounded(name: Seq<char>)
    ensures
        0 < clamped_name(name).len() <= MAX_DEVICE_NAME_LEN,
{
    reveal_strlit("Unknown device");
}

/// A peer-supplied name is kept without the white space around it and cut to its first
/// 80 characters; where nothing is left, a placeholder takes its place.
pub proof fn law_clamp_device_name(name: &str, bare: &str, r: String)
    requires
        call_ensures(clamp_device_name, (name,), r),
        call_ensures(trim, (name,), bare),
    ensures
        bare@.len() == 0 ==> r@ == "Unknown device"@,
        0 < bare@.len() <= 80 ==> r@ == bare@,
        bare@.len() > 80 ==> r@ == bare@.subrange(0, 80),
{
}

/// The cap of 256 leaves a list alone that meets it. It drops no paired peer and adds
/// nobody, and whoever is dropped was seen no later than any unpaired peer that stays.
/// Unless only paired peers are left, the cap is met.
pub proof fn law_enforce_peer_cap(state: &mut PersistedState, gone: PeerView, kept: PeerView)
    requires
        call_ensures(enforce_peer_cap, (state,), ()),
    ensures
        old(state)@.peers.len() <= 256 ==> final(state)@.peers == old(state)@.peers,
        old(state)@.peers.len() > 256 && final(state)@.peers.contains(kept) && kept.trust_state
            != "paired"@ ==> final(state)@.peers.len() == 256,
        old(state)@.peers.contains(kept) && kept.trust_state == "paired"@
            ==> final(state)@.peers.contains(kept),
        final(state)@.peers.contains(kept) ==> old(state)@.peers.contains(kept),
        old(state)@.peers.contains(gone) && !final(state)@.peers.contains(gone)
            && final(state)@.peers.contains(kept) && kept.trust_state != "paired"@
            ==> gone.last_seen <= kept.last_seen,
        final(state)@.setup == old(state)@.setup,
        final(state)@.messages == old(state)@.messages,
        final(state)@.transfers == old(state)@.transfers,
{
    let peers = old(state)@.peers;
    law_cap_bounds_the_list(peers);
    if capped(peers).contains(kept) {
        law_cap_adds_nobody(peers, kept);
        if !is_paired(kept) {
            let i = choose|i: int| 0 <= i < capped(peers).len() && capped(peers)[i] == kept;
            assert(!is_paired(capped(peers)[i]));
        }
    }
    if peers.contains(kept) && is_paired(kept) {
        law_cap_keeps_paired(peers);
        lemma_filter_keeps(peers, |p: PeerView| is_paired(p), kept);
        lemma_filter_subset(capped(peers), |p: PeerView| is_paired(p), kept);
    }
    if peers.contains(gone) && !capped(peers).contains(gone) && capped(peers).contains(kept)
        && !is_paired(kept) {
        law_cap_evicts_the_stalest(peers, gone, kept);
    }
}

/// Seeing a device at `host` drops exactly those peers that are known at that host under
/// another id, are "offline" and are not paired; the rest stay, in order. Where the host
/// is blank nothing is dropped. It says whether anything was.
pub proof fn law_prune_offline_host_duplicates(
    state: &mut PersistedState,
    keep_id: &str,
    host: &str,
    bare: &str,
    r: bool,
)
    requires
        call_ensures(prune_offline_host_duplicates, (state, keep_id, host), r),
        call_ensures(trim, (host,), bare),
    ensures
        bare@.len() == 0 ==> final(state)@.peers == old(state)@.peers,
        bare@.len() > 0 ==> final(state)@.peers == old(state)@.peers.filter(
            |peer: PeerView|
                !(peer.id != keep_id@ && peer.host == host@ && peer.status == "offline"@
                    && peer.trust_state != "paired"@),
        ),
        r <==> final(state)@.peers.len() != old(state)@.peers.len(),
        final(state)@.setup == old(state)@.setup,
        final(state)@.messages == old(state)@.messages,
        final(state)@.transfers == old(state)@.transfers,
{
    if bare@.len() > 0 {
        let named = |peer: PeerView| !is_dead_duplicate(peer, keep_id@, host@);
        let plain = |peer: PeerView|
            !(peer.id != keep_id@ && peer.host == host@ && peer.status == "offline"@
                && peer.trust_state != "paired"@);
        assert(named =~= plain);
        assert(final(state)@.peers == old(state)@.peers.filter(named));
    }
}

/// Whether `after` is `before` as it is at `now`: offline if it was online and has been
/// silent for more than nine seconds, and otherwise as it was.
pub open spec fn is_as_of(before: PeerView, after: PeerView, now: i64) -> bool {
    &&& after == (PeerView { status: after.status, ..before })
    &&& after.status == if before.status == "online"@ && now - before.last_seen > 9_000 {
        "offline"@
    } else {
        before.status
    }
}

/// Exactly the online peers that have been silent for more than nine seconds are marked
/// offline; nothing else changes about any peer. It says whether there was any.
pub proof fn law_apply_stale_peer_status(state: &mut PersistedState, now: i64, r: bool)
    requires
        call_ensures(apply_stale_peer_status, (state, now), r),
    ensures
        final(state)@.peers.len() == old(state)@.peers.len(),
        forall|i: int|
            0 <= i < old(state)@.peers.len() ==> is_as_of(
                old(state)@.peers[i],
                #[trigger] final(state)@.peers[i],
                now,
            ),
        r <==> exists|i: int|
            0 <= i < old(state)@.peers.len() && (#[trigger] old(state)@.peers[i]).status
                == "online"@ && now - old(state)@.peers[i].last_seen > 9_000,
        final(state)@.setup == old(state)@.setup,
        final(state)@.messages == old(state)@.messages,
        final(state)@.transfers == old(state)@.transfers,
{
    if r {
        let i = choose|i: int|
            0 <= i < old(state)@.peers.len() && is_stale(#[trigger] old(state)@.peers[i], now);
        assert(old(state)@.peers[i].status == "online"@);
    }
    if exists|i: int|
        0 <= i < old(state)@.peers.len() && (#[trigger] old(state)@.peers[i]).status == "online"@
            && now - old(state)@.peers[i].last_seen > 9_000 {
        let i = choose|i: int|
            0 <= i < old(state)@.peers.len() && (#[trigger] old(state)@.peers[i]).status
                == "online"@ && now - old(state)@.peers[i].last_seen > 9_000;
        assert(is_stale(old(state)@.peers[i], now));
    }
}

/// Whether a peer carries what a packet says of its sender, and is online.
pub open spec fn carries(peer: PeerView, packet: PacketView, name: Seq<char>, now: i64) -> bool {
    &&& peer.id == packet.device_id
    &&& peer.name == name
    &&& peer.port == packet.port
    &&& peer.public_key == Some(packet.public_key)
    &&& peer.os == packet.os
    &&& peer.status == "online"@
    &&& peer.last_seen == now
}

/// A pairing message enters its sender with what its packet says, the trust given and
/// the secret given, at the address it came from, or where that is not known at the one
/// known before. While there is room, a known sender keeps its place and its avatar, an
/// unknown one is added at the end, and no other peer changes.
pub proof fn law_upsert_discovered_peer(
    state: &mut PersistedState,
    packet: &DiscoveryPacket,
    trust_state: &str,
    host: &str,
    shared_secret: Option<String>,
    now: i64,
    k: int,
    device_name: &str,
    name: String,
    r: PeerDevice,
)
    requires
        call_ensures(
            upsert_discovered_peer,
            (state, packet, trust_state, host, shared_secret, now),
            r,
        ),
        device_name@ == packet.device_name@,
        call_ensures(clamp_device_name, (device_name,), name),
    ensures
        carries(r@, packet@, name@, now),
        r.trust_state@ == trust_state@,
        shared_secret matches Some(secret) ==> r.shared_secret is Some && r.shared_secret->Some_0@
            == secret@ && !r.asked,
        is_first_of(old(state).peers@, packet.device_id@, k) ==> {
            let was = old(state).peers@[k];
            &&& r.host@ == if host@.len() > 0 {
                host@
            } else {
                was.host@
            }
            &&& r@.avatar == was@.avatar
            &&& shared_secret is None ==> r@.shared_secret == was@.shared_secret && r.asked
                == was.asked
        },
        is_unknown(old(state).peers@, packet.device_id@) ==> {
            &&& r.host@ == host@
            &&& r.avatar is None
            &&& !r.asked
            &&& shared_secret is None ==> r.shared_secret is None
        },
        is_first_of(old(state).peers@, packet.device_id@, k) && old(state).peers@.len() <= 256 ==> {
            &&& differ_only_at(old(state).peers@, final(state).peers@, k)
            &&& final(state).peers@[k]@ == r@
        },
        is_unknown(old(state).peers@, packet.device_id@) && old(state).peers@.len() < 256 ==> {
            &&& final(state)@.peers == old(state)@.peers.push(r@)
        },
        final(state)@.setup == old(state)@.setup,
        final(state)@.messages == old(state)@.messages,
        final(state)@.transfers == old(state)@.transfers,
{
    let before = old(state).peers@;
    law_cap_bounds_the_list(upserted(old(state)@.peers, r@));
    if is_first_of(before, packet.device_id@, k) {
        lemma_first_of(before, packet.device_id@, k);
        assert(old(state)@.peers[k] == before[k]@);
        if before.len() <= 256 {
            lemma_updated_peers(before, final(state).peers@, k, r@);
        }
    }
    if is_unknown(before, packet.device_id@) {
        lemma_unknown(before, packet.device_id@);
    }
    let found = lemma_known_or_unknown(before, packet.device_id@);
    if found >= 0 {
        assert(old(state)@.peers[found] == before[found]@);
    }
}

pub(crate) proof fn lemma_announcement_spares(
    peers: Seq<PeerView>,
    packet: PacketView,
    host: Seq<char>,
    now: i64,
    other: PeerView,
)
    requires
        peers.len() < MAX_PEERS,
        other.id != packet.device_id,
    ensures
        after_announcement(peers, packet, host, now).contains(other) ==> peers.contains(other),
        peers.contains(other) && (is_paired(other) || other.host != host || other.status
            != "offline"@) ==> after_announcement(peers, packet, host, now).contains(other),
        other.host == host && other.status == "offline"@ && !is_paired(other) && !is_blank(host)
            ==> !after_announcement(peers, packet, host, now).contains(other),
{
    let id = packet.device_id;
    let sender = announced_peer(peers, packet, host, now);
    let after = after_announcement(peers, packet, host, now);
    let all = upserted(peers, sender);
    lemma_peer_index(peers, id);
    let keep = |p: PeerView| !is_dead_duplicate(p, id, host);
    let rest = pruned(all, id, host);
    lemma_filter_len(all, keep);
    law_cap_bounds_the_list(rest);
    law_trimmed_empty_iff_blank(host);
    if after.contains(other) {
        if trimmed(host).len() > 0 {
            lemma_filter_subset(all, keep, other);
        }
        let j = choose|j: int| 0 <= j < all.len() && all[j] == other;
        assert(sender.id == id);
        assert(peers[j] == other);
    }
    if peers.contains(other) && (is_paired(other) || other.host != host || other.status
        != "offline"@) {
        let j = choose|j: int| 0 <= j < peers.len() && peers[j] == other;
        assert(all[j] == other);
        if trimmed(host).len() > 0 {
            lemma_filter_keeps(all, keep, other);
        }
    }
}

/// An announcement heard from `host` while there is room enters its sender, at that
/// host, with what its packet says. A known sender keeps its trust, its secret and its
/// avatar; an unknown one is unpaired, without a secret. Nobody else is added or
/// changed, and nobody else is dropped but dead earlier identities of that host.
pub proof fn law_upsert_peer_from_addr(
    state: &mut PersistedState,
    packet: &mut DiscoveryPacket,
    host: &str,
    now: i64,
    k: int,
    device_name: &str,
    name: String,
    other: PeerView,
)
    requires
        call_ensures(upsert_peer_from_addr, (state, packet, host, now), ()),
        device_name@ == old(packet).device_name@,
        call_ensures(clamp_device_name, (device_name,), name),
        old(state).peers@.len() < 256,
    ensures
        is_first_of(old(state).peers@, old(packet).device_id@, k) ==> {
            let was = old(state).peers@[k]@;
            exists|i: int|
                0 <= i < final(state)@.peers.len() && carries(
                    #[trigger] final(state)@.peers[i],
                    old(packet)@,
                    name@,
                    now,
                ) && final(state)@.peers[i].host == host@ && final(state)@.peers[i].trust_state
                    == was.trust_state && final(state)@.peers[i].shared_secret
                    == was.shared_secret && final(state)@.peers[i].asked == was.asked
                    && final(state)@.peers[i].avatar == was.avatar
        },
        is_unknown(old(state).peers@, old(packet).device_id@) ==> exists|i: int|
            0 <= i < final(state)@.peers.len() && carries(
                #[trigger] final(state)@.peers[i],
                old(packet)@,
                name@,
                now,
            ) && final(state)@.peers[i].host == host@ && final(state)@.peers[i].trust_state
                == "unpaired"@ && final(state)@.peers[i].shared_secret is None
                && !final(state)@.peers[i].asked && final(state)@.peers[i].avatar is None,
        other.id != old(packet).device_id@ && final(state)@.peers.contains(other)
            ==> old(state)@.peers.contains(other),
        other.id != old(packet).device_id@ && old(state)@.peers.contains(other) && (
        other.trust_state == "paired"@ || other.host != host@ || other.status != "offline"@)
            ==> final(state)@.peers.contains(other),
        other.id != old(packet).device_id@ && other.host == host@ && other.status == "offline"@
            && other.trust_state != "paired"@ && !is_blank(host@)
            ==> !final(state)@.peers.contains(other),
        final(packet)@ == (PacketView { device_name: name@, ..old(packet)@ }),
        final(state)@.setup == old(state)@.setup,
        final(state)@.messages == old(state)@.messages,
        final(state)@.transfers == old(state)@.transfers,
{
    let before = old(state).peers@;
    let peers = old(state)@.peers;
    let heard = old(packet)@;
    let id = heard.device_id;
    let sender = announced_peer(peers, heard, host@, now);
    let found = lemma_known_or_unknown(before, id);
    law_announcer_is_listed(peers, heard, host@, now);
    let after = final(state)@.peers;
    let i = choose|i: int| 0 <= i < after.len() && after[i] == sender;
    if is_first_of(before, id, k) {
        lemma_first_of(before, id, k);
        assert(peers[k] == before[k]@);
        assert(carries(after[i], heard, name@, now));
    }
    if is_unknown(before, id) {
        lemma_unknown(before, id);
        assert(carries(after[i], heard, name@, now));
    }
    if other.id != id {
        lemma_announcement_spares(peers, heard, host@, now, other);
    }
}

/// How long ago a time was is known exactly if 64 bits hold it, and the silences of the
/// peers are known exactly if that of every online peer is.
pub proof fn law_silences_are_known(state: &PersistedState, now: i64, r: bool, then: i64, known: bool)
    requires
        call_ensures(silences_are_known, (state, now), r),
        call_ensures(elapsed_is_known, (then, now), known),
    ensures
        known <==> -0x8000_0000_0000_0000 <= now - then <= 0x7fff_ffff_ffff_ffff,
        r <==> forall|i: int|
            0 <= i < state.peers@.len() && (#[trigger] state.peers@[i]).status@ == "online"@
                ==> -0x8000_0000_0000_0000 <= now - state.peers@[i].last_seen
                <= 0x7fff_ffff_ffff_ffff,
{
    if r {
        assert forall|i: int|
            0 <= i < state.peers@.len() && (#[trigger] state.peers@[i]).status@ == "online"@
                implies -0x8000_0000_0000_0000 <= now - state.peers@[i].last_seen
            <= 0x7fff_ffff_ffff_ffff by {
            assert(state@.peers[i].status == "online"@);
        }
    } else {
        let i = choose|i: int|
            0 <= i < state@.peers.len() && (#[trigger] state@.peers[i]).status == "online"@
                && !elapsed_fits(state@.peers[i].last_seen, now);
        assert(state.peers@[i].status@ == "online"@);
    }
}

pub(crate) proof fn lemma_cap_on_full_list(
    rest: Seq<PeerView>,
    sender: PeerView,
    other: PeerView,
    i: int,
)
    requires
        rest.contains(sender),
        0 <= i < capped(rest).len(),
        !is_paired(capped(rest)[i]),
    ensures
        !capped(rest).contains(sender) ==> !is_paired(sender) && sender.last_seen
            <= capped(rest)[i].last_seen,
        rest.contains(other) && !capped(rest).contains(other) ==> !is_paired(other)
            && other.last_seen <= capped(rest)[i].last_seen,
{
    let kept = capped(rest)[i];
    assert(capped(rest).contains(kept));
    if !capped(rest).contains(sender) {
        law_cap_evicts_the_stalest(rest, sender, kept);
    }
    if rest.contains(other) && !capped(rest).contains(other) {
        law_cap_evicts_the_stalest(rest, other, kept);
    }
}

} // verus!
