use simplepass::chat::{list_messages, record_sent_message};
use simplepass::clock::{auto_open_rate_ok, now_ms, time_stamp, DiscoveryPace};
use simplepass::discovery::{
    hear_announcement, local_discovery_packet, mark_stale_peers_offline, pair_acceptance,
    pair_request, rescan_peers,
};
use simplepass::keys::{derive_public_key, derive_shared_secret, new_shared_secret};
use simplepass::model::{
    default_message_kind, default_theme, lock_err, DiscoveryPacket, PeerDevice, PersistedState, WireMessage,
    DISCOVERY_MAGIC, MAX_AVATAR_LEN, MAX_DEVICE_NAME_LEN, MAX_PEERS, PEER_OFFLINE_AFTER_MS,
    TRANSPORT_PORT,
};
use simplepass::peers::{
    accept_pairing, delete_peer, deny_pairing, ensure_paired, get_peer, pair_peer,
    peer_public_key, recent_peer, revoke_peer,
};
use simplepass::roster::{
    apply_stale_peer_status, clamp_device_name, elapsed_is_known, enforce_peer_cap,
    prune_offline_host_duplicates, silences_are_known, upsert_discovered_peer,
    upsert_peer_from_addr,
};
use simplepass::setup::{
    auto_open_enabled, existing_device_id, existing_identity_secret, get_setup_state, list_peers,
    save_setup, save_widget_position, set_auto_open, set_avatar, set_floating_icon, set_theme,
};
use simplepass::transfers::{incoming_row, record_transfer};

fn peer_at(id: &str, host: &str, status: &str) -> PeerDevice {
    PeerDevice {
        id: id.to_string(),
        name: id.to_string(),
        host: host.to_string(),
        port: TRANSPORT_PORT,
        public_key: None,
        os: "windows".to_string(),
        status: status.to_string(),
        trust_state: "unpaired".to_string(),
        asked: false,
        shared_secret: None,
        avatar: None,
        last_seen: 1_000,
    }
}

fn paired_at(id: &str, last_seen: i64) -> PeerDevice {
    let mut peer = peer_at(id, "10.0.0.9", "online");
    peer.trust_state = "paired".to_string();
    peer.last_seen = last_seen;
    peer
}

fn packet(device_id: &str, name: &str) -> DiscoveryPacket {
    DiscoveryPacket {
        magic: DISCOVERY_MAGIC.to_string(),
        device_id: device_id.to_string(),
        device_name: name.to_string(),
        public_key: "key".to_string(),
        os: "macos".to_string(),
        port: 7,
        request: false,
    }
}

#[test]
fn stale_online_peers_are_marked_offline() {
    let mut state = PersistedState::default();
    state.peers.push(PeerDevice {
        id: "peer-1".to_string(),
        name: "Peer".to_string(),
        host: "192.168.1.10".to_string(),
        port: TRANSPORT_PORT,
        public_key: None,
        os: "windows".to_string(),
        status: "online".to_string(),
        trust_state: "paired".to_string(),
        asked: false,
        shared_secret: Some(new_shared_secret()),
        avatar: None,
        last_seen: 1_000,
    });

    let changed = apply_stale_peer_status(&mut state, 1_000 + PEER_OFFLINE_AFTER_MS + 1);

    assert!(changed);
    assert_eq!(state.peers[0].status, "offline");
}

#[test]
fn a_peer_silent_for_just_the_limit_stays_online() {
    let mut state = PersistedState::default();
    state.peers.push(peer_at("p", "10.0.0.1", "online"));
    assert!(!apply_stale_peer_status(&mut state, 1_000 + PEER_OFFLINE_AFTER_MS));
    assert_eq!(state.peers[0].status, "online");
    assert!(mark_stale_peers_offline(&mut state, 1_000).is_none());
    let peers = mark_stale_peers_offline(&mut state, 20_000).unwrap();
    assert_eq!(peers[0].status, "offline");
    // Already offline: nothing changes any more.
    assert!(mark_stale_peers_offline(&mut state, 30_000).is_none());
}

#[test]
fn prune_drops_offline_same_host_duplicate() {
    let mut state = PersistedState::default();
    state.peers.push(peer_at("old", "192.168.1.67", "offline"));
    state.peers.push(peer_at("new", "192.168.1.67", "online"));

    let removed = prune_offline_host_duplicates(&mut state, "new", "192.168.1.67");

    assert!(removed);
    assert_eq!(state.peers.len(), 1);
    assert_eq!(state.peers[0].id, "new");
}

#[test]
fn prune_keeps_online_and_other_host_peers() {
    let mut state = PersistedState::default();
    state.peers.push(peer_at("online-same-host", "192.168.1.67", "online"));
    state.peers.push(peer_at("offline-other-host", "192.168.1.50", "offline"));
    state.peers.push(peer_at("new", "192.168.1.67", "online"));

    let removed = prune_offline_host_duplicates(&mut state, "new", "192.168.1.67");

    assert!(!removed);
    assert_eq!(state.peers.len(), 3);
}

#[test]
fn prune_never_drops_paired_peer() {
    let mut state = PersistedState::default();
    let mut paired = peer_at("paired-old", "192.168.1.67", "offline");
    paired.trust_state = "paired".to_string();
    state.peers.push(paired);
    state.peers.push(peer_at("new", "192.168.1.67", "online"));

    let removed = prune_offline_host_duplicates(&mut state, "new", "192.168.1.67");

    assert!(!removed);
    assert_eq!(state.peers.len(), 2);
    assert!(state.peers.iter().any(|peer| peer.id == "paired-old"));
}

#[test]
fn prune_ignores_a_blank_host() {
    let mut state = PersistedState::default();
    state.peers.push(peer_at("old", "  ", "offline"));
    assert!(!prune_offline_host_duplicates(&mut state, "new", "  "));
    assert_eq!(state.peers.len(), 1);
}

#[test]
fn enforce_peer_cap_drops_stalest_unpaired_first() {
    let mut state = PersistedState::default();
    // One paired peer that must survive, plus MAX_PEERS unpaired ones.
    let mut paired = peer_at("keep-paired", "10.0.0.1", "offline");
    paired.trust_state = "paired".to_string();
    paired.last_seen = 0; // stalest of all, yet must not be evicted
    state.peers.push(paired);
    for index in 0..MAX_PEERS {
        let mut peer = peer_at(&format!("u{index}"), "10.0.0.2", "online");
        peer.last_seen = (index as i64) + 1;
        state.peers.push(peer);
    }
    assert_eq!(state.peers.len(), MAX_PEERS + 1);

    enforce_peer_cap(&mut state);

    assert_eq!(state.peers.len(), MAX_PEERS);
    assert!(state.peers.iter().any(|peer| peer.id == "keep-paired"));
    // The stalest unpaired peer (u0, last_seen=1) was the one dropped.
    assert!(!state.peers.iter().any(|peer| peer.id == "u0"));
}

#[test]
fn paired_peers_may_exceed_the_cap() {
    let mut state = PersistedState::default();
    for index in 0..(MAX_PEERS + 3) {
        state.peers.push(paired_at(&format!("p{index}"), 0));
    }
    state.peers.push(peer_at("stranger", "10.0.0.3", "online"));
    enforce_peer_cap(&mut state);
    assert_eq!(state.peers.len(), MAX_PEERS + 3);
    assert!(!state.peers.iter().any(|peer| peer.id == "stranger"));
}

#[test]
fn clamp_device_name_bounds_length() {
    let long = "a".repeat(MAX_DEVICE_NAME_LEN + 50);
    assert_eq!(clamp_device_name(&long).chars().count(), MAX_DEVICE_NAME_LEN);
    assert_eq!(clamp_device_name("  Desk  "), "Desk");
    assert_eq!(clamp_device_name("   "), "Unknown device");
}

#[test]
fn clamping_counts_characters_and_not_bytes() {
    let long = "é".repeat(MAX_DEVICE_NAME_LEN + 1);
    assert_eq!(clamp_device_name(&long), "é".repeat(MAX_DEVICE_NAME_LEN));
    let exact = "é".repeat(MAX_DEVICE_NAME_LEN);
    assert_eq!(clamp_device_name(&exact), exact);
}

#[test]
fn an_announcement_adds_an_unpaired_peer_and_then_refreshes_it() {
    let mut state = PersistedState::default();
    let mut heard = packet("p", " Desk ");
    upsert_peer_from_addr(&mut state, &mut heard, "10.0.0.5", 50);
    assert_eq!(heard.device_name, "Desk");
    assert_eq!((heard.device_id.as_str(), heard.port), ("p", 7));
    assert_eq!(state.peers.len(), 1);
    let peer = &state.peers[0];
    assert_eq!(peer.name, "Desk");
    assert_eq!(peer.host, "10.0.0.5");
    assert_eq!(peer.port, 7);
    assert_eq!(peer.public_key.as_deref(), Some("key"));
    assert_eq!(peer.os, "macos");
    assert_eq!(peer.status, "online");
    assert_eq!(peer.trust_state, "unpaired");
    assert_eq!(peer.shared_secret, None);
    assert_eq!(peer.last_seen, 50);

    state.peers[0].trust_state = "paired".to_string();
    state.peers[0].shared_secret = Some("secret".to_string());
    state.peers[0].status = "offline".to_string();
    upsert_peer_from_addr(&mut state, &mut packet("p", "Laptop"), "10.0.0.6", 90);
    assert_eq!(state.peers.len(), 1);
    let peer = &state.peers[0];
    assert_eq!(peer.name, "Laptop");
    assert_eq!(peer.host, "10.0.0.6");
    assert_eq!(peer.status, "online");
    assert_eq!(peer.trust_state, "paired");
    assert_eq!(peer.shared_secret.as_deref(), Some("secret"));
    assert_eq!(peer.last_seen, 90);
}

#[test]
fn a_pairing_message_without_an_address_keeps_the_known_one() {
    let mut state = PersistedState::default();
    state.peers.push(peer_at("p", "10.0.0.1", "offline"));
    let peer = upsert_discovered_peer(&mut state, &packet("p", "Desk"), "pending", "", None, 5);
    assert_eq!(peer.host, "10.0.0.1");
    assert_eq!(peer.trust_state, "pending");
    let peer = upsert_discovered_peer(
        &mut state,
        &packet("p", "Desk"),
        "paired",
        "10.0.0.8",
        Some("secret".to_string()),
        6,
    );
    assert_eq!(peer.host, "10.0.0.8");
    assert_eq!(state.peers[0].shared_secret.as_deref(), Some("secret"));
    let stranger = upsert_discovered_peer(&mut state, &packet("q", ""), "pending", "", None, 7);
    assert_eq!(stranger.name, "Unknown device");
    assert_eq!(stranger.host, "");
    assert_eq!(state.peers.len(), 2);
}

#[test]
fn packets_of_others_are_heard_and_those_of_this_device_are_not() {
    let mut state = PersistedState::default();
    let mut probe = packet("p", "Desk");
    probe.request = true;
    probe.port = 0;
    assert_eq!(hear_announcement(&mut state, probe, "10.0.0.5", 1), Some(true));
    assert_eq!(state.peers[0].port, TRANSPORT_PORT);
    assert_eq!(hear_announcement(&mut state, packet("p", "Desk"), "10.0.0.5", 2), Some(false));
    let mut foreign = packet("q", "Desk");
    foreign.magic = "simplepass:v2".to_string();
    assert_eq!(hear_announcement(&mut state, foreign, "10.0.0.6", 3), None);
    let own = packet(&state.setup.device_id.clone(), "Me");
    assert_eq!(hear_announcement(&mut state, own, "10.0.0.7", 4), None);
    assert_eq!(state.peers.len(), 1);
}

#[test]
fn the_local_packet_names_this_device() {
    let mut state = PersistedState::default();
    let packet = local_discovery_packet(&state, "linux").unwrap();
    assert_eq!(packet.magic, "simplepass:v1");
    assert_eq!(packet.device_id, state.setup.device_id);
    assert_eq!(packet.device_name, "SimplePass Device");
    assert_eq!(packet.public_key, derive_public_key(&state.setup.identity_secret).unwrap());
    assert_eq!(packet.os, "linux");
    assert_eq!(packet.port, TRANSPORT_PORT);
    assert!(!packet.request);

    save_setup(&mut state, " Desk ", false).unwrap();
    let probe = rescan_peers(&state, "linux").unwrap();
    assert_eq!(probe.device_name, "Desk");
    assert!(probe.request);

    state.setup.identity_secret = "AAEC".to_string();
    assert_eq!(
        local_discovery_packet(&state, "linux").unwrap_err(),
        "Shared secret has an invalid length."
    );
}

#[test]
fn two_devices_pair_and_come_to_share_one_secret() {
    let mut alice = PersistedState::default();
    let mut bob = PersistedState::default();
    let from_bob = local_discovery_packet(&bob, "linux").unwrap();
    let from_alice = local_discovery_packet(&alice, "linux").unwrap();
    let bob_id = bob.setup.device_id.clone();
    let alice_id = alice.setup.device_id.clone();
    hear_announcement(&mut alice, from_bob, "10.0.0.2", 1);
    hear_announcement(&mut bob, from_alice, "10.0.0.1", 1);

    let asked = pair_peer(&mut alice, &bob_id, 2).unwrap();
    assert_eq!(asked.trust_state, "pending");
    assert!(asked.asked);
    assert_eq!(asked.last_seen, 2);
    let accepted = accept_pairing(&mut bob, &alice_id, 3).unwrap();
    assert_eq!(accepted.trust_state, "paired");
    assert!(!accepted.asked);
    assert_eq!(accepted.last_seen, 3);
    let bob_key = peer_public_key(&alice.peers, &bob_id).unwrap();
    let alice_secret = derive_shared_secret(&alice.setup.identity_secret, &bob_key).unwrap();
    assert_eq!(accepted.shared_secret.as_deref(), Some(alice_secret.as_str()));
}

#[test]
fn a_decision_settles_what_was_asked() {
    let mut state = PersistedState::default();
    state.peers.push(peer_at("p", "10.0.0.1", "online"));
    assert!(pair_peer(&mut state, "p", 1).unwrap().asked);
    deny_pairing(&mut state, "p");
    assert!(!state.peers[0].asked);
    assert!(pair_peer(&mut state, "p", 2).unwrap().asked);
    revoke_peer(&mut state, "p");
    assert!(!state.peers[0].asked);
    // An announcement leaves the question open.
    pair_peer(&mut state, "p", 3).unwrap();
    hear_announcement(&mut state, packet("p", "Desk"), "10.0.0.1", 4);
    assert!(state.peers[0].asked);
    assert_eq!(state.peers[0].trust_state, "pending");
}

#[test]
fn pairing_messages_carry_the_local_packet() {
    let mut state = PersistedState::default();
    let local = local_discovery_packet(&state, "linux").unwrap();
    match pair_request(&state, "linux").unwrap() {
        WireMessage::PairRequest { device } => {
            assert_eq!(device.device_id, state.setup.device_id);
            assert_eq!(device.public_key, local.public_key);
            assert_eq!((device.os.as_str(), device.request), ("linux", false));
        }
        other => panic!("unexpected {other:?}"),
    }
    match pair_acceptance(&state, "linux").unwrap() {
        WireMessage::PairAccepted { device } => assert_eq!(device.public_key, local.public_key),
        other => panic!("unexpected {other:?}"),
    }
    state.setup.identity_secret = "AAEC".to_string();
    let complaint = "Shared secret has an invalid length.";
    assert_eq!(pair_request(&state, "linux").unwrap_err(), complaint);
    assert_eq!(pair_acceptance(&state, "linux").unwrap_err(), complaint);
}

#[test]
fn pairing_with_nobody_is_refused() {
    let mut state = PersistedState::default();
    assert_eq!(pair_peer(&mut state, "p", 1).unwrap_err(), "Peer not found.");
    assert_eq!(accept_pairing(&mut state, "p", 1).unwrap_err(), "Peer public key is missing.");
    assert_eq!(get_peer(&state, "p").unwrap_err(), "Peer not found.");
    assert_eq!(ensure_paired(&state, "p").unwrap_err(), "Peer not found.");
    state.peers.push(peer_at("p", "10.0.0.1", "online"));
    assert_eq!(accept_pairing(&mut state, "p", 1).unwrap_err(), "Peer public key is missing.");
    assert_eq!(ensure_paired(&state, "p").unwrap_err(), "p is not paired.");
    assert_eq!(get_peer(&state, "p").unwrap().host, "10.0.0.1");
    state.peers[0].public_key = Some("AAEC".to_string());
    assert_eq!(
        accept_pairing(&mut state, "p", 1).unwrap_err(),
        "Public key has an invalid length."
    );
    assert_eq!(state.peers[0].trust_state, "unpaired");
}

#[test]
fn denying_keeps_the_secret_and_revoking_forgets_it() {
    let mut state = PersistedState::default();
    let mut peer = paired_at("p", 1);
    peer.shared_secret = Some("secret".to_string());
    state.peers.push(peer);
    assert!(ensure_paired(&state, "p").is_ok());
    deny_pairing(&mut state, "p");
    assert_eq!(state.peers[0].trust_state, "unpaired");
    assert_eq!(state.peers[0].shared_secret.as_deref(), Some("secret"));
    revoke_peer(&mut state, "p");
    assert_eq!(state.peers[0].shared_secret, None);
    // Unknown peers are ignored.
    deny_pairing(&mut state, "q");
    revoke_peer(&mut state, "q");
    assert_eq!(state.peers.len(), 1);
}

#[test]
fn forgetting_a_device_leaves_nothing_of_it() {
    let mut state = PersistedState::default();
    state.peers.push(paired_at("p", 1));
    state.peers.push(paired_at("q", 1));
    record_sent_message(&mut state, "p", "hi");
    record_sent_message(&mut state, "q", "ho");
    record_transfer(&mut state, incoming_row("t", "p", "p", "a.txt", 100, "complete"));
    record_transfer(&mut state, incoming_row("u", "q", "q", "b.txt", 100, "complete"));
    delete_peer(&mut state, "p");
    assert_eq!(state.peers.len(), 1);
    assert_eq!(state.peers[0].id, "q");
    assert!(list_messages(&state, "p").is_empty());
    assert_eq!(list_messages(&state, "q").len(), 1);
    assert_eq!(state.transfers.len(), 1);
    assert_eq!(state.transfers[0].id, "u");

    // Heard again, it is a stranger.
    hear_announcement(&mut state, packet("p", "Desk"), "10.0.0.5", 9);
    let peer = get_peer(&state, "p").unwrap();
    assert_eq!(peer.trust_state, "unpaired");
    assert_eq!(peer.shared_secret, None);
}

#[test]
fn the_recent_peer_is_the_one_last_chatted_with() {
    let mut state = PersistedState::default();
    assert!(recent_peer(&state).is_none());
    state.peers.push(peer_at("stranger", "10.0.0.1", "online"));
    assert!(recent_peer(&state).is_none());
    state.peers.push(paired_at("a", 5));
    state.peers.push(paired_at("b", 9));
    state.peers.push(paired_at("c", 9));
    // No chat yet: most recently seen, and the first of those.
    assert_eq!(recent_peer(&state).unwrap().id, "b");
    let message = record_sent_message(&mut state, "a", "hi");
    assert_eq!(recent_peer(&state).unwrap().id, "a");
    let mut later = message.clone();
    later.peer_id = "c".to_string();
    later.created_at = message.created_at + 1;
    state.messages.push(later);
    assert_eq!(recent_peer(&state).unwrap().id, "c");
}

#[test]
fn a_fresh_state_has_an_identity_and_nothing_else() {
    let state = PersistedState::default();
    let other = PersistedState::default();
    assert_ne!(state.setup.device_id, other.setup.device_id);
    assert_eq!(state.setup.device_id.len(), 36);
    assert_eq!(state.setup.device_id.chars().nth(14), Some('4'));
    assert!(!state.setup.configured);
    assert_eq!(state.setup.device_name, "");
    assert!(state.setup.start_at_login);
    assert_eq!(state.setup.theme, "light");
    assert!(!state.setup.auto_open);
    assert!(!state.setup.floating_icon);
    assert!(state.peers.is_empty() && state.messages.is_empty() && state.transfers.is_empty());
    assert_eq!(existing_device_id(&state), state.setup.device_id);
    assert_eq!(existing_identity_secret(&state), state.setup.identity_secret);
}

#[test]
fn naming_the_device_keeps_its_identity() {
    let mut state = PersistedState::default();
    let before = get_setup_state(&state);
    assert_eq!(save_setup(&mut state, "  \t", true).unwrap_err(), "Device name is required.");
    assert!(!state.setup.configured);
    let after = save_setup(&mut state, " Desk ", false).unwrap();
    assert!(after.configured);
    assert_eq!(after.device_name, "Desk");
    assert!(!after.start_at_login);
    assert_eq!(after.device_id, before.device_id);
    assert_eq!(after.public_key, before.public_key);
    assert!(after.public_key.is_some());
    state.setup.identity_secret = String::new();
    assert_eq!(get_setup_state(&state).public_key, None);
}

#[test]
fn settings_are_toggled_one_by_one() {
    let mut state = PersistedState::default();
    assert!(set_floating_icon(&mut state, true).floating_icon);
    assert!(!auto_open_enabled(&state));
    assert!(set_auto_open(&mut state, true).auto_open);
    assert!(auto_open_enabled(&state));
    assert_eq!(set_theme(&mut state, "dark").theme, "dark");
    assert_eq!(set_theme(&mut state, "DARK").theme, "light");
    assert!(!save_widget_position(&mut state, true, 1, 2));
    assert_eq!(state.setup.widget_x, None);
    assert!(save_widget_position(&mut state, false, 1, 2));
    assert_eq!((state.setup.widget_x, state.setup.widget_y), (Some(1), Some(2)));
    assert!(state.setup.floating_icon && state.setup.auto_open);
}

#[test]
fn a_new_avatar_goes_to_the_paired_peers() {
    let mut state = PersistedState::default();
    state.peers.push(paired_at("a", 1));
    state.peers.push(peer_at("b", "10.0.0.1", "online"));
    state.peers.push(paired_at("c", 1));
    let change = set_avatar(&mut state, Some("data:x".to_string())).unwrap();
    assert_eq!(change.response.avatar.as_deref(), Some("data:x"));
    let ids: Vec<&str> = change.sends.iter().map(|send| send.peer.id.as_str()).collect();
    assert_eq!(ids, vec!["a", "c"]);

    let largest = "a".repeat(MAX_AVATAR_LEN);
    assert!(set_avatar(&mut state, Some(largest)).is_ok());
    let too_large = "é".repeat(MAX_AVATAR_LEN / 2 + 1);
    assert_eq!(
        set_avatar(&mut state, Some(too_large)).unwrap_err(),
        "That image is too large."
    );
    assert!(set_avatar(&mut state, None).unwrap().response.avatar.is_none());
}

#[test]
fn the_peer_list_is_copied_whole() {
    let mut state = PersistedState::default();
    state.peers.push(paired_at("a", 1));
    state.peers.push(paired_at("b", 2));
    let peers = list_peers(&state);
    assert_eq!(peers.len(), 2);
    assert_eq!(peers[1].id, "b");
    assert_eq!(peers[1].last_seen, 2);
}

#[test]
fn openings_are_spaced_out() {
    let mut last: i64 = 0;
    assert!(!auto_open_rate_ok(&mut last, 1199));
    assert_eq!(last, 0);
    assert!(auto_open_rate_ok(&mut last, 1200));
    assert_eq!(last, 1200);
    assert!(!auto_open_rate_ok(&mut last, 2399));
    assert!(auto_open_rate_ok(&mut last, 2400));
}

#[test]
fn the_discovery_loop_keeps_its_pace() {
    let mut pace = DiscoveryPace::new();
    let duties = pace.tick(1_501);
    assert!(!duties.broadcast && duties.stale_check);
    let duties = pace.tick(2_500);
    assert!(!duties.broadcast && !duties.stale_check);
    let duties = pace.tick(2_501);
    assert!(duties.broadcast && !duties.stale_check);
    let duties = pace.tick(3_002);
    assert!(!duties.broadcast && duties.stale_check);
}

#[test]
fn the_clock_counts_milliseconds() {
    let before = std::time::SystemTime::now()
        .duration_since(std::time::UNIX_EPOCH)
        .unwrap()
        .as_millis() as i64;
    let now = now_ms();
    assert!(now >= before && now < before + 60_000);
    assert_eq!(time_stamp(None), 0);
    assert_eq!(time_stamp(Some(1_700_000_000_000)), 1_700_000_000_000);
    assert_eq!(time_stamp(Some(1u128 << 63)), i64::MIN);
}

#[test]
fn defaults_are_spelled_out() {
    assert_eq!(default_theme(), "light");
    assert_eq!(default_message_kind(), "text");
    let poisoned = std::sync::PoisonError::new(());
    assert_eq!(lock_err(poisoned), "Application state is unavailable.");
}

#[test]
fn impossible_times_are_noticed() {
    assert!(elapsed_is_known(0, i64::MAX));
    assert!(!elapsed_is_known(-1, i64::MAX));
    assert!(!elapsed_is_known(2, i64::MIN));
    let mut state = PersistedState::default();
    state.peers.push(peer_at("p", "10.0.0.1", "offline"));
    state.peers[0].last_seen = i64::MIN;
    assert!(silences_are_known(&state, 0));
    state.peers[0].status = "online".to_string();
    assert!(!silences_are_known(&state, 0));
}
