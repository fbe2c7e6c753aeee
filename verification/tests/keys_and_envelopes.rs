use simplepass::codec::base64_decode;
use simplepass::envelope::{
    decrypt_envelope, encrypt_message, envelope_peer_id, fits_key_stream, open_envelope,
    plain_envelope_allowed, seal_message, shared_secret_of, Opened,
};
use simplepass::keys::{
    decode_secret, derive_public_key, derive_shared_secret, new_identity_secret,
    new_shared_secret, public_key_array, secret_array, secret_text,
};
use simplepass::model::{
    DiscoveryPacket, PeerDevice, PersistedState, TransportEnvelope, WireMessage, DISCOVERY_MAGIC,
    TRANSPORT_PORT,
};
use simplepass::peers::{ensure_paired, revoke_peer};

const SECRET_A: &str = "AAECAwQFBgcICQoLDA0ODxAREhMUFRYXGBkaGxwdHh8=";
const SECRET_B: &str = "ZGVmZ2hpamtsbW5vcHFyc3R1dnd4eXp7fH1+f4CBgoM=";
const PUBLIC_A: &str = "j0DFrbaPJWJK5bIU6nZ6bslNgp09e14a0bpvPiE4KF8=";
const PUBLIC_B: &str = "fZwkMWU5glwYluV/KBl3Rnk85gy+461H2p0HuF+lXio=";
const SHARED: &str = "64dzR7xNZ6Bo7SbXOr9dcQz9orycR1m7ozhaQ7flmcA=";

fn packet(device_id: &str) -> DiscoveryPacket {
    DiscoveryPacket {
        magic: DISCOVERY_MAGIC.to_string(),
        device_id: device_id.to_string(),
        device_name: "Peer".to_string(),
        public_key: "key".to_string(),
        os: "windows".to_string(),
        port: TRANSPORT_PORT,
        request: false,
    }
}

fn peer(id: &str, secret: Option<&str>) -> PeerDevice {
    PeerDevice {
        id: id.to_string(),
        name: "Desk".to_string(),
        host: "10.0.0.2".to_string(),
        port: TRANSPORT_PORT,
        public_key: None,
        os: "windows".to_string(),
        status: "online".to_string(),
        trust_state: "paired".to_string(),
        asked: false,
        shared_secret: secret.map(|text| text.to_string()),
        avatar: None,
        last_seen: 0,
    }
}

fn state_with(peer: PeerDevice) -> PersistedState {
    let mut state = PersistedState::default();
    state.peers.push(peer);
    state
}

#[test]
fn x25519_shared_secret_matches_on_both_devices() {
    let alice_secret = new_identity_secret();
    let bob_secret = new_identity_secret();
    let alice_public = derive_public_key(&alice_secret).expect("alice public key");
    let bob_public = derive_public_key(&bob_secret).expect("bob public key");

    let alice_shared = derive_shared_secret(&alice_secret, &bob_public).expect("alice shared");
    let bob_shared = derive_shared_secret(&bob_secret, &alice_public).expect("bob shared");

    assert_eq!(alice_shared, bob_shared);
}

#[test]
fn encryption_round_trip_uses_sender_peer_id() {
    let secret = new_shared_secret();
    let message = WireMessage::Chat {
        peer_id: "sender-device".to_string(),
        text: "hello".to_string(),
    };
    let plaintext = br#"{"type":"chat","peer_id":"sender-device","text":"hello"}"#;
    let envelope = encrypt_message(envelope_peer_id(&message).expect("peer id"), &secret, plaintext)
        .expect("encrypted envelope");

    match envelope {
        TransportEnvelope::Encrypted { peer_id, nonce, body } => {
            assert_eq!(peer_id, "sender-device");
            assert!(!nonce.is_empty());
            assert!(!body.is_empty());
        }
        TransportEnvelope::Plain { .. } => panic!("expected encrypted envelope"),
    }
}

#[test]
fn file_messages_route_through_sender_peer_id() {
    let secret = new_shared_secret();
    for message in [
        WireMessage::FileStart {
            peer_id: "sender".to_string(),
            transfer_id: "t1".to_string(),
            file_name: "report.pdf".to_string(),
            total_size: 1024,
        },
        WireMessage::FileChunk {
            peer_id: "sender".to_string(),
            transfer_id: "t1".to_string(),
            data: "Y2h1bmstYnl0ZXM=".to_string(),
        },
        WireMessage::FileEnd {
            peer_id: "sender".to_string(),
            transfer_id: "t1".to_string(),
        },
    ] {
        let peer_id = envelope_peer_id(&message).expect("peer id");
        assert_eq!(peer_id, "sender");
        let plaintext = format!("{message:?}");
        let envelope =
            encrypt_message(peer_id, &secret, plaintext.as_bytes()).expect("encrypted envelope");
        match envelope {
            TransportEnvelope::Encrypted { peer_id, body, .. } => {
                assert_eq!(peer_id, "sender");
                assert!(!body.is_empty());
            }
            TransportEnvelope::Plain { .. } => panic!("expected encrypted envelope"),
        }
    }
}

#[test]
fn plain_envelopes_allowed_only_for_pairing() {
    let device = packet("peer");
    assert!(plain_envelope_allowed(&WireMessage::PairRequest { device: device.clone() }));
    assert!(plain_envelope_allowed(&WireMessage::PairAccepted { device }));

    // Chat, links, files, typing, profile must never be accepted in the clear.
    assert!(!plain_envelope_allowed(&WireMessage::Chat {
        peer_id: "peer".to_string(),
        text: "hi".to_string(),
    }));
    assert!(!plain_envelope_allowed(&WireMessage::FileChunk {
        peer_id: "peer".to_string(),
        transfer_id: "t1".to_string(),
        data: "Ynl0ZXM=".to_string(),
    }));
}

#[test]
fn key_derivation_gives_the_known_keys() {
    assert_eq!(derive_public_key(SECRET_A).unwrap(), PUBLIC_A);
    assert_eq!(derive_public_key(SECRET_B).unwrap(), PUBLIC_B);
    assert_eq!(derive_shared_secret(SECRET_A, PUBLIC_B).unwrap(), SHARED);
    assert_eq!(derive_shared_secret(SECRET_B, PUBLIC_A).unwrap(), SHARED);
    assert_eq!(decode_secret(SHARED).unwrap().len(), 32);
}

#[test]
fn secret_text_round_trips() {
    let mut key = [0u8; 32];
    for (index, byte) in key.iter_mut().enumerate() {
        *byte = index as u8;
    }
    assert_eq!(secret_text(&key), SECRET_A);
    assert_eq!(secret_array(SECRET_A).unwrap(), key);
    assert_eq!(decode_secret(SECRET_A).unwrap(), key.to_vec());
}

#[test]
fn fresh_secrets_differ_and_are_keys() {
    let one = new_shared_secret();
    let two = new_identity_secret();
    assert_ne!(one, two);
    assert_eq!(decode_secret(&one).unwrap().len(), 32);
    assert_eq!(decode_secret(&two).unwrap().len(), 32);
}

#[test]
fn keys_of_another_length_are_refused() {
    assert_eq!(decode_secret("AAEC").unwrap_err(), "Shared secret has an invalid length.");
    assert_eq!(secret_array("AAEC").unwrap_err(), "Shared secret has an invalid length.");
    assert_eq!(public_key_array("AAEC").unwrap_err(), "Public key has an invalid length.");
    assert_eq!(
        derive_shared_secret(SECRET_A, "AAEC").unwrap_err(),
        "Public key has an invalid length."
    );
    assert_eq!(derive_public_key("AAEC").unwrap_err(), "Shared secret has an invalid length.");
}

#[test]
fn base64_is_padded_and_canonical() {
    assert_eq!(base64_decode("").unwrap(), Vec::<u8>::new());
    assert_eq!(base64_decode("aA==").unwrap(), b"h".to_vec());
    assert_eq!(base64_decode("aGk=").unwrap(), b"hi".to_vec());
    assert_eq!(base64_decode("+/+/").unwrap(), vec![0xfb, 0xff, 0xbf]);
    // Missing padding, stray bits and foreign symbols are refused.
    for text in ["aA", "aGk", "aB==", "a", "-_-_", "aA==aA=="] {
        assert!(base64_decode(text).is_err(), "{text}");
    }
    let complaint = base64_decode("*").unwrap_err();
    assert_eq!(base64_decode("*").unwrap_err(), complaint);
    assert_eq!(decode_secret("*").unwrap_err(), complaint);
}

#[test]
fn sealing_gives_the_known_ciphertext() {
    let mut nonce = [0u8; 12];
    for (index, byte) in nonce.iter_mut().enumerate() {
        *byte = index as u8;
    }
    match seal_message("me", SECRET_A, &nonce, b"hello").unwrap() {
        TransportEnvelope::Encrypted { peer_id, nonce, body } => {
            assert_eq!(peer_id, "me");
            assert_eq!(nonce, "AAECAwQFBgcICQoL");
            assert_eq!(body, "4Z5kbEb1k5aVxnBYbWOmn1jEE5bd");
        }
        TransportEnvelope::Plain { .. } => panic!("expected encrypted envelope"),
    }
    assert_eq!(
        seal_message("me", "AAEC", &nonce, b"hello").unwrap_err(),
        "Shared secret has an invalid length."
    );
}

#[test]
fn a_sealed_message_arrives() {
    let state = state_with(peer("me", Some(SECRET_A)));
    let envelope = encrypt_message("me", SECRET_A, b"hello").unwrap();
    match &envelope {
        TransportEnvelope::Encrypted { nonce, body, .. } => {
            assert_eq!(base64_decode(nonce).unwrap().len(), 12);
            assert_eq!(base64_decode(body).unwrap().len(), 5 + 16);
        }
        TransportEnvelope::Plain { .. } => panic!("expected encrypted envelope"),
    }
    match decrypt_envelope(&state, envelope.clone()).unwrap() {
        Opened::Plaintext(bytes) => assert_eq!(bytes, b"hello".to_vec()),
        Opened::Message(_) => panic!("expected a plaintext"),
    }
    // Two seals of one message use two nonces.
    let again = encrypt_message("me", SECRET_A, b"hello").unwrap();
    assert_ne!(format!("{envelope:?}"), format!("{again:?}"));
}

#[test]
fn a_message_sealed_under_another_secret_is_refused() {
    let state = state_with(peer("me", Some(SECRET_B)));
    let envelope = encrypt_message("me", SECRET_A, b"hello").unwrap();
    assert_eq!(decrypt_envelope(&state, envelope).unwrap_err(), "aead::Error");
}

#[test]
fn a_sealed_message_needs_a_shared_secret() {
    let state = state_with(peer("me", None));
    let envelope = encrypt_message("me", SECRET_A, b"hello").unwrap();
    assert_eq!(
        decrypt_envelope(&state, envelope.clone()).unwrap_err(),
        "Desk does not have a shared secret yet."
    );
    let stranger = PersistedState::default();
    assert_eq!(decrypt_envelope(&stranger, envelope).unwrap_err(), "Peer not found.");
    assert_eq!(
        shared_secret_of(&peer("me", None)).unwrap_err(),
        "Desk does not have a shared secret yet."
    );
}

#[test]
fn a_revoked_peer_is_no_longer_heard() {
    let mut state = state_with(peer("me", Some(SECRET_A)));
    let envelope = encrypt_message("me", SECRET_A, b"hello").unwrap();
    assert!(decrypt_envelope(&state, envelope.clone()).is_ok());
    revoke_peer(&mut state, "me");
    assert_eq!(ensure_paired(&state, "me").unwrap_err(), "Desk is not paired.");
    assert_eq!(
        decrypt_envelope(&state, envelope).unwrap_err(),
        "Desk does not have a shared secret yet."
    );
}

#[test]
fn the_key_stream_has_an_end() {
    assert!(fits_key_stream(1_048_576));
    assert!(fits_key_stream(274_877_906_816));
    assert!(!fits_key_stream(274_877_906_817));
    assert!(!fits_key_stream(274_877_906_879));
    assert!(fits_key_stream(274_877_906_880));
}

#[test]
fn only_pairing_is_opened_in_the_clear() {
    let state = PersistedState::default();
    let request = WireMessage::PairRequest { device: packet("peer") };
    match decrypt_envelope(&state, TransportEnvelope::Plain { message: request }).unwrap() {
        Opened::Message(WireMessage::PairRequest { device }) => {
            assert_eq!(device.device_id, "peer")
        }
        other => panic!("unexpected {other:?}"),
    }
    let chat = WireMessage::Chat { peer_id: "peer".to_string(), text: "hi".to_string() };
    assert_eq!(
        decrypt_envelope(&state, TransportEnvelope::Plain { message: chat }).unwrap_err(),
        "Rejected an unencrypted message; only pairing may be sent in the clear."
    );
}

#[test]
fn an_envelope_with_a_short_nonce_is_not_put_to_the_cipher() {
    let state = state_with(peer("me", Some(SECRET_A)));
    let odd = TransportEnvelope::Encrypted {
        peer_id: "me".to_string(),
        nonce: "AAEC".to_string(),
        body: "AAEC".to_string(),
    };
    assert!(open_envelope(&state, odd.clone()).is_none());
    // Nobody's secret is known to a stranger, so the nonce is never looked at.
    let complaint = open_envelope(&PersistedState::default(), odd).unwrap().unwrap_err();
    assert_eq!(complaint, "Peer not found.");
    let whole = encrypt_message("me", SECRET_A, b"hello").unwrap();
    assert!(open_envelope(&state, whole).unwrap().is_ok());
}

#[test]
fn pairing_messages_are_not_sealed() {
    let message = WireMessage::PairAccepted { device: packet("peer") };
    assert_eq!(
        envelope_peer_id(&message).unwrap_err(),
        "Pairing messages must be sent without encryption."
    );
}
