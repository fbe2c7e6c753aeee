//! Sealing messages for a trusted peer and opening what arrives.
//!
//! Only the pairing handshake travels in the clear. Everything else is sealed
//! with ChaCha20-Poly1305 under the secret shared with the peer.

use crate::codec::{base64_decode, base64_encode};
use crate::codec::{base64_decoding, base64_encoding, law_base64_round_trip};
use crate::ids::random_bytes;
use crate::keys::{decode_secret, decoded_secret};
use crate::model::{
    outcome, AppResult, EnvelopeView, PeerDevice, PeerView, PersistedState, StateView,
    TransportEnvelope, WireMessage, WireView,
};
use crate::peers::{
    get_peer, is_first_of, is_unknown, lemma_first_of, lemma_unknown, peer_with_id,
};
use chacha20poly1305::aead::{Aead, KeyInit};
use vstd::prelude::*;

verus! {

/// The ChaCha20-Poly1305 ciphertext, tag included, of a plaintext.
pub uninterp spec fn chacha_sealed(key: Seq<u8>, nonce: Seq<u8>, plaintext: Seq<u8>) -> Seq<u8>;

/// The plaintext that a ChaCha20-Poly1305 ciphertext was made from, if its tag
/// is right.
pub uninterp spec fn chacha_opened(key: Seq<u8>, nonce: Seq<u8>, ciphertext: Seq<u8>) -> Option<
    Seq<u8>,
>;

/// The first length that the cipher refuses.
pub const CIPHER_LIMIT: u64 = 274_877_906_880;

/// Whether a text of `n` bytes runs past the end of the cipher's key stream
/// without being refused.
pub open spec fn exhausts_key_stream(n: int) -> bool {
    274_877_906_816 < n < CIPHER_LIMIT
}

/// Whether the cipher answers for a text of `n` bytes: it seals or refuses it, and
/// does not run past the end of its key stream.
pub fn fits_key_stream(n: usize) -> (r: bool)
    ensures
        r == !exhausts_key_stream(n as int),
{
    let len: u64 = n as u64;
    !(len > 274_877_906_816 && len < CIPHER_LIMIT)
}

/// Calls `chacha20poly1305::aead::Aead::encrypt` of a `ChaCha20Poly1305` with
/// the given key. It fails exactly on texts that are too long; otherwise the
/// ciphertext is a function of key, nonce and plaintext, is longer than the
/// plaintext by the tag, and opens to that plaintext again.
#[verifier::external_body]
fn chacha_encrypt(key: &[u8], nonce: &[u8; 12], plaintext: &[u8]) -> (r: Result<Vec<u8>, String>)
    requires
        key@.len() == 32,
        !exhausts_key_stream(plaintext@.len() as int),
    ensures
        r is Ok <==> plaintext@.len() < CIPHER_LIMIT,
        r matches Ok(sealed) ==> sealed@ == chacha_sealed(key@, nonce@, plaintext@),
        r matches Ok(sealed) ==> sealed@.len() == plaintext@.len() + 16,
        r matches Ok(sealed) ==> chacha_opened(key@, nonce@, sealed@) == Some(plaintext@),
        r matches Err(complaint) ==> complaint@ == "aead::Error"@,
{
    let cipher = chacha20poly1305::ChaCha20Poly1305::new_from_slice(key)
        .map_err(|err| err.to_string())?;
    cipher
        .encrypt(chacha20poly1305::Nonce::from_slice(nonce), plaintext)
        .map_err(|err| err.to_string())
}

/// Calls `chacha20poly1305::aead::Aead::decrypt` of a `ChaCha20Poly1305` with
/// the given key. Whether the tag is right, and what the plaintext then is, is
/// a function of key, nonce and ciphertext.
#[verifier::external_body]
fn chacha_decrypt(key: &[u8], nonce: &[u8], ciphertext: &[u8]) -> (r: Result<Vec<u8>, String>)
    requires
        key@.len() == 32,
        nonce@.len() == 12,
        !exhausts_key_stream(ciphertext@.len() - 16),
    ensures
        r matches Ok(plaintext) ==> chacha_opened(key@, nonce@, ciphertext@) == Some(plaintext@),
        r matches Ok(plaintext) ==> ciphertext@.len() == plaintext@.len() + 16,
        r is Err <==> chacha_opened(key@, nonce@, ciphertext@) is None,
        r matches Err(complaint) ==> complaint@ == "aead::Error"@,
{
    let cipher = chacha20poly1305::ChaCha20Poly1305::new_from_slice(key)
        .map_err(|err| err.to_string())?;
    cipher
        .decrypt(chacha20poly1305::Nonce::from_slice(nonce), ciphertext)
        .map_err(|err| err.to_string())
}

/// The envelope that carries `plaintext` under a secret and a nonce.
pub open spec fn sealed_envelope(
    peer_id: Seq<char>,
    secret: Seq<char>,
    nonce: Seq<u8>,
    plaintext: Seq<u8>,
) -> Result<EnvelopeView, Seq<char>> {
    match decoded_secret(secret) {
        Ok(key) => if plaintext.len() < CIPHER_LIMIT {
            Ok(
                EnvelopeView::Encrypted {
                    peer_id,
                    nonce: base64_encoding(nonce),
                    body: base64_encoding(chacha_sealed(key, nonce, plaintext)),
                },
            )
        } else {
            Err("aead::Error"@)
        },
        Err(complaint) => Err(complaint),
    }
}

/// The plaintext of a sealed body.
pub open spec fn opened_body(secret: Seq<char>, nonce: Seq<char>, body: Seq<char>) -> Result<
    Seq<u8>,
    Seq<char>,
> {
    match decoded_secret(secret) {
        Ok(key) => match base64_decoding(nonce) {
            Ok(nonce_bytes) => match base64_decoding(body) {
                Ok(sealed) => match chacha_opened(key, nonce_bytes, sealed) {
                    Some(plaintext) => Ok(plaintext),
                    None => Err("aead::Error"@),
                },
                Err(complaint) => Err(complaint),
            },
            Err(complaint) => Err(complaint),
        },
        Err(complaint) => Err(complaint),
    }
}

/// Whether a sealed envelope opens to `plaintext` under `secret`.
pub open spec fn opens_to(envelope: EnvelopeView, secret: Seq<char>, plaintext: Seq<u8>) -> bool {
    &&& envelope is Encrypted
    &&& body_fits_cipher(secret, envelope->nonce, envelope->body)
    &&& opened_body(secret, envelope->nonce, envelope->body) == Ok::<Seq<u8>, Seq<char>>(plaintext)
}

/// Whether a sealed envelope has a nonce of twelve bytes and a body longer than the
/// plaintext by the tag.
pub open spec fn has_sealed_lengths(envelope: EnvelopeView, plaintext_len: nat) -> bool {
    &&& envelope is Encrypted
    &&& base64_decoding(envelope->nonce) is Ok
    &&& base64_decoding(envelope->nonce)->Ok_0.len() == 12
    &&& base64_decoding(envelope->body) is Ok
    &&& base64_decoding(envelope->body)->Ok_0.len() == plaintext_len + 16
}

/// Seals a serialized message under the given secret and nonce. The receiver,
/// who has the same secret, can open the envelope to that very plaintext.
pub fn seal_message(peer_id: &str, secret: &str, nonce: &[u8; 12], plaintext: &[u8]) -> (r: AppResult<
    TransportEnvelope,
>)
    requires
        !exhausts_key_stream(plaintext@.len() as int),
    ensures
        outcome(r) == sealed_envelope(peer_id@, secret@, nonce@, plaintext@),
        r matches Ok(envelope) ==> opens_to(envelope@, secret@, plaintext@),
        r matches Ok(envelope) ==> has_sealed_lengths(envelope@, plaintext@.len()),
{
    let key = decode_secret(secret)?;
    let sealed = chacha_encrypt(key.as_slice(), nonce, plaintext)?;
    proof {
        law_base64_round_trip(nonce@);
        law_base64_round_trip(sealed@);
    }
    Ok(
        TransportEnvelope::Encrypted {
            peer_id: peer_id.to_string(),
            nonce: base64_encode(nonce),
            body: base64_encode(sealed.as_slice()),
        },
    )
}

/// Seals a serialized message under the given secret and a fresh random nonce.
pub fn encrypt_message(peer_id: &str, secret: &str, plaintext: &[u8]) -> (r: AppResult<
    TransportEnvelope,
>)
    requires
        !exhausts_key_stream(plaintext@.len() as int),
    ensures
        exists|nonce: Seq<u8>|
            nonce.len() == 12 && outcome(r) == #[trigger] sealed_envelope(
                peer_id@,
                secret@,
                nonce,
                plaintext@,
            ),
        r is Ok <==> decoded_secret(secret@) is Ok && plaintext@.len() < CIPHER_LIMIT,
        r matches Ok(envelope) ==> opens_to(envelope@, secret@, plaintext@),
        r matches Ok(envelope) ==> has_sealed_lengths(envelope@, plaintext@.len()),
{
    let nonce: [u8; 12] = random_bytes();
    seal_message(peer_id, secret, &nonce, plaintext)
}

/// The id that a message names as its sender.
pub open spec fn sender_of(message: WireView) -> Option<Seq<char>> {
    match message {
        WireView::Chat { peer_id, .. } => Some(peer_id),
        WireView::Link { peer_id, .. } => Some(peer_id),
        WireView::FileStart { peer_id, .. } => Some(peer_id),
        WireView::FileChunk { peer_id, .. } => Some(peer_id),
        WireView::FileEnd { peer_id, .. } => Some(peer_id),
        WireView::FileCancel { peer_id, .. } => Some(peer_id),
        WireView::Typing { peer_id, .. } => Some(peer_id),
        WireView::Profile { peer_id, .. } => Some(peer_id),
        WireView::PairRequest { .. } => None,
        WireView::PairAccepted { .. } => None,
    }
}

/// Whether a message belongs to the pairing handshake.
pub open spec fn is_pairing(message: WireView) -> bool {
    message is PairRequest || message is PairAccepted
}

/// The id under which a message is sealed: that of its sender.
pub fn envelope_peer_id(message: &WireMessage) -> (r: AppResult<&str>)
    ensures
        match sender_of(message@) {
            Some(peer_id) => r is Ok && r->Ok_0@ == peer_id,
            None => r is Err && r->Err_0@ == "Pairing messages must be sent without encryption."@,
        },
        r is Err <==> is_pairing(message@),
{
    match message {
        WireMessage::Chat { peer_id, .. } => Ok(peer_id.as_str()),
        WireMessage::Link { peer_id, .. } => Ok(peer_id.as_str()),
        WireMessage::FileStart { peer_id, .. } => Ok(peer_id.as_str()),
        WireMessage::FileChunk { peer_id, .. } => Ok(peer_id.as_str()),
        WireMessage::FileEnd { peer_id, .. } => Ok(peer_id.as_str()),
        WireMessage::FileCancel { peer_id, .. } => Ok(peer_id.as_str()),
        WireMessage::Typing { peer_id, .. } => Ok(peer_id.as_str()),
        WireMessage::Profile { peer_id, .. } => Ok(peer_id.as_str()),
        WireMessage::PairRequest { .. } => Err(
            "Pairing messages must be sent without encryption.".to_string(),
        ),
        WireMessage::PairAccepted { .. } => Err(
            "Pairing messages must be sent without encryption.".to_string(),
        ),
    }
}

/// Whether a message may travel in the clear: only the pairing handshake may.
pub fn plain_envelope_allowed(message: &WireMessage) -> (r: bool)
    ensures
        r == is_pairing(message@),
{
    match message {
        WireMessage::PairRequest { .. } => true,
        WireMessage::PairAccepted { .. } => true,
        _ => false,
    }
}

/// What an accepted envelope held: a pairing message, or the bytes of a sealed
/// one.
#[derive(Debug)]
pub enum Opened {
    Message(WireMessage),
    Plaintext(Vec<u8>),
}

/// View of an [`Opened`].
#[verifier::ext_equal]
pub enum OpenedView {
    Message(WireView),
    Plaintext(Seq<u8>),
}

impl View for Opened {
    type V = OpenedView;

    open spec fn view(&self) -> OpenedView {
        match self {
            Opened::Message(message) => OpenedView::Message(message@),
            Opened::Plaintext(bytes) => OpenedView::Plaintext(bytes@),
        }
    }
}

/// The secret shared with a peer.
pub open spec fn secret_of(peer: PeerView) -> Result<Seq<char>, Seq<char>> {
    match peer.shared_secret {
        Some(secret) => Ok(secret),
        None => Err(peer.name + " does not have a shared secret yet."@),
    }
}

/// The secret shared with the peer of the given id.
pub open spec fn secret_shared_with(peers: Seq<PeerView>, peer_id: Seq<char>) -> Result<
    Seq<char>,
    Seq<char>,
> {
    match peer_with_id(peers, peer_id) {
        Ok(peer) => secret_of(peer),
        Err(complaint) => Err(complaint),
    }
}

/// What an envelope holds for the device in this state.
pub open spec fn opened_envelope(state: StateView, envelope: EnvelopeView) -> Result<
    OpenedView,
    Seq<char>,
> {
    match envelope {
        EnvelopeView::Plain { message } => if is_pairing(message) {
            Ok(OpenedView::Message(message))
        } else {
            Err("Rejected an unencrypted message; only pairing may be sent in the clear."@)
        },
        EnvelopeView::Encrypted { peer_id, nonce, body } => match secret_shared_with(
            state.peers,
            peer_id,
        ) {
            Ok(secret) => match opened_body(secret, nonce, body) {
                Ok(plaintext) => Ok(OpenedView::Plaintext(plaintext)),
                Err(complaint) => Err(complaint),
            },
            Err(complaint) => Err(complaint),
        },
    }
}

/// Whether the cipher can be asked about a sealed body: nothing was refused
/// before, or the nonce has its length and the body does not exhaust the key
/// stream.
pub open spec fn body_fits_cipher(secret: Seq<char>, nonce: Seq<char>, body: Seq<char>) -> bool {
    decoded_secret(secret) is Ok && base64_decoding(nonce) is Ok && base64_decoding(body) is Ok
        ==> base64_decoding(nonce)->Ok_0.len() == 12 && !exhausts_key_stream(
        base64_decoding(body)->Ok_0.len() - 16,
    )
}

/// Whether opening an envelope asks the cipher only what it can answer.
pub open spec fn envelope_fits_cipher(state: StateView, envelope: EnvelopeView) -> bool {
    match envelope {
        EnvelopeView::Plain { .. } => true,
        EnvelopeView::Encrypted { peer_id, nonce, body } => secret_shared_with(
            state.peers,
            peer_id,
        ) matches Ok(secret) ==> body_fits_cipher(secret, nonce, body),
    }
}

/// The secret shared with a peer.
pub fn shared_secret_of(peer: &PeerDevice) -> (r: AppResult<String>)
    ensures
        outcome(r) == secret_of(peer@),
{
    match &peer.shared_secret {
        Some(secret) => Ok(secret.clone()),
        None => Err(peer.name.clone().concat(" does not have a shared secret yet.")),
    }
}

fn open_body(secret: &str, nonce: &str, body: &str) -> (r: AppResult<Vec<u8>>)
    requires
        body_fits_cipher(secret@, nonce@, body@),
    ensures
        outcome(r) == opened_body(secret@, nonce@, body@),
{
    let key = decode_secret(secret)?;
    let nonce_bytes = base64_decode(nonce)?;
    let sealed = base64_decode(body)?;
    chacha_decrypt(key.as_slice(), nonce_bytes.as_slice(), sealed.as_slice())
}

/// Opens an envelope. A message in the clear is accepted only if it belongs to
/// the pairing handshake; a sealed one only if it opens under the secret shared
/// with the peer it names.
pub fn decrypt_envelope(state: &PersistedState, envelope: TransportEnvelope) -> (r: AppResult<Opened>)
    requires
        envelope_fits_cipher(state@, envelope@),
    ensures
        outcome(r) == opened_envelope(state@, envelope@),
{
    match envelope {
        TransportEnvelope::Plain { message } => {
            if plain_envelope_allowed(&message) {
                Ok(Opened::Message(message))
            } else {
                Err(
                    "Rejected an unencrypted message; only pairing may be sent in the clear.".to_string(),
                )
            }
        },
        TransportEnvelope::Encrypted { peer_id, nonce, body } => {
            let peer = get_peer(state, peer_id.as_str())?;
            let secret = shared_secret_of(&peer)?;
            let plaintext = open_body(secret.as_str(), nonce.as_str(), body.as_str())?;
            Ok(Opened::Plaintext(plaintext))
        },
    }
}

fn fits_cipher(secret: &str, nonce: &str, body: &str) -> (r: bool)
    ensures
        r == body_fits_cipher(secret@, nonce@, body@),
{
    let key = decode_secret(secret);
    let nonce_bytes = base64_decode(nonce);
    let sealed = base64_decode(body);
    if let (Ok(_), Ok(n), Ok(b)) = (key, nonce_bytes, sealed) {
        n.len() == 12 && (b.len() < 16 || fits_key_stream(b.len() - 16))
    } else {
        true
    }
}

/// Opens an envelope, or gives nothing where the envelope asks of the cipher
/// what it cannot answer: a nonce of another length, or a body at the very end
/// of the key stream.
pub fn open_envelope(state: &PersistedState, envelope: TransportEnvelope) -> (r: Option<
    AppResult<Opened>,
>)
    ensures
        r is Some <==> envelope_fits_cipher(state@, envelope@),
        r matches Some(opened) ==> outcome(opened) == opened_envelope(state@, envelope@),
{
    let mut fits: bool = true;
    if let TransportEnvelope::Encrypted { peer_id, nonce, body } = &envelope {
        if let Ok(peer) = get_peer(state, peer_id.as_str()) {
            if let Ok(secret) = shared_secret_of(&peer) {
                fits = fits_cipher(secret.as_str(), nonce.as_str(), body.as_str());
            }
        }
    }
    if fits {
        Some(decrypt_envelope(state, envelope))
    } else {
        None
    }
}

/// Nothing but the pairing handshake is accepted in the clear.
pub proof fn law_plain_is_pairing_only(state: StateView, message: WireView)
    ensures
        opened_envelope(state, EnvelopeView::Plain { message }) is Ok <==> is_pairing(message),
        opened_envelope(state, EnvelopeView::Plain { message }) matches Ok(opened) ==> opened
            == OpenedView::Message(message),
{
}

/// A sealed envelope from a device that is unknown, or with which no secret is
/// shared, is refused whatever it holds.
pub proof fn law_sealed_needs_a_secret(
    state: StateView,
    peer_id: Seq<char>,
    nonce: Seq<char>,
    body: Seq<char>,
)
    requires
        secret_shared_with(state.peers, peer_id) is Err,
    ensures
        opened_envelope(state, EnvelopeView::Encrypted { peer_id, nonce, body }) == Err::<
            OpenedView,
            Seq<char>,
        >(secret_shared_with(state.peers, peer_id)->Err_0),
{
}

/// What one device seals under a shared secret, the other, which knows the
/// sender under that secret, opens to the same bytes.
pub proof fn law_sealed_message_arrives(
    receiver: StateView,
    envelope: EnvelopeView,
    secret: Seq<char>,
    plaintext: Seq<u8>,
)
    requires
        opens_to(envelope, secret, plaintext),
        secret_shared_with(receiver.peers, envelope->Encrypted_peer_id) == Ok::<
            Seq<char>,
            Seq<char>,
        >(secret),
    ensures
        envelope_fits_cipher(receiver, envelope),
        opened_envelope(receiver, envelope) == Ok::<OpenedView, Seq<char>>(
            OpenedView::Plaintext(plaintext),
        ),
{
}

/// What `encrypt_message` seals is an envelope named after the id given, with a nonce of
/// twelve bytes, whose body is what ChaCha20-Poly1305 makes of that very plaintext under
/// that secret and nonce. It can seal exactly if the secret can be used and the text is
/// not too long for the cipher.
pub proof fn law_encrypt_message(
    peer_id: &str,
    secret: &str,
    plaintext: &[u8],
    key: AppResult<Vec<u8>>,
    r: AppResult<TransportEnvelope>,
)
    requires
        call_ensures(encrypt_message, (peer_id, secret, plaintext), r),
        call_ensures(decode_secret, (secret,), key),
    ensures
        r is Ok <==> key is Ok && plaintext@.len() < 274_877_906_880,
        r matches Ok(envelope) ==> {
            &&& envelope is Encrypted
            &&& envelope->Encrypted_peer_id@ == peer_id@
            &&& exists|nonce: Seq<u8>|
                {
                    &&& nonce.len() == 12
                    &&& base64_decoding(envelope->nonce@) == Ok::<Seq<u8>, Seq<char>>(nonce)
                    &&& base64_decoding(envelope->body@) == Ok::<Seq<u8>, Seq<char>>(
                        #[trigger] chacha_sealed(key->Ok_0@, nonce, plaintext@),
                    )
                }
        },
{
    if let Ok(envelope) = r {
        let nonce = choose|nonce: Seq<u8>|
            nonce.len() == 12 && outcome(r) == #[trigger] sealed_envelope(
                peer_id@,
                secret@,
                nonce,
                plaintext@,
            );
        law_base64_round_trip(nonce);
        law_base64_round_trip(chacha_sealed(key->Ok_0@, nonce, plaintext@));
    }
}

/// What one device seals, another opens to the same bytes, if the first peer that it
/// knows under the id on the envelope shares with it the secret that was sealed under.
pub proof fn law_sealed_bytes_arrive(
    peer_id: &str,
    secret: &str,
    plaintext: &[u8],
    sealed: AppResult<TransportEnvelope>,
    state: &PersistedState,
    k: int,
    envelope: TransportEnvelope,
    r: AppResult<Opened>,
    checked: Option<AppResult<Opened>>,
)
    requires
        call_ensures(encrypt_message, (peer_id, secret, plaintext), sealed),
        sealed is Ok,
        is_first_of(state.peers@, peer_id@, k),
        state.peers@[k].shared_secret is Some,
        state.peers@[k].shared_secret->Some_0@ == secret@,
        envelope@ == sealed->Ok_0@,
        call_ensures(decrypt_envelope, (state, envelope), r),
        call_ensures(open_envelope, (state, envelope), checked),
    ensures
        r is Ok && r->Ok_0 is Plaintext && r->Ok_0->Plaintext_0@ == plaintext@,
        checked is Some && checked->Some_0 is Ok && checked->Some_0->Ok_0 is Plaintext
            && checked->Some_0->Ok_0->Plaintext_0@ == plaintext@,
{
    lemma_first_of(state.peers@, peer_id@, k);
    law_sealed_message_arrives(state@, envelope@, secret@, plaintext@);
    assert(outcome(r) == Ok::<OpenedView, Seq<char>>(OpenedView::Plaintext(plaintext@)));
    assert(outcome(checked->Some_0) == Ok::<OpenedView, Seq<char>>(
        OpenedView::Plaintext(plaintext@),
    ));
}

/// A sealed envelope opens exactly if the first peer known under its id shares a secret
/// with this device, secret, nonce and body are base64 of what they should be, and the
/// cipher accepts the body under that very secret; it opens to what the cipher then
/// gives.
pub proof fn law_sealed_envelope_opens_under_its_peers_secret(
    state: &PersistedState,
    envelope: TransportEnvelope,
    k: int,
    r: AppResult<Opened>,
)
    requires
        call_ensures(decrypt_envelope, (state, envelope), r),
        envelope is Encrypted,
    ensures
        is_unknown(state.peers@, envelope->Encrypted_peer_id@) ==> r is Err,
        is_first_of(state.peers@, envelope->Encrypted_peer_id@, k)
            && state.peers@[k].shared_secret is None ==> r is Err,
        is_first_of(state.peers@, envelope->Encrypted_peer_id@, k)
            && state.peers@[k].shared_secret is Some ==> {
            let key = decoded_secret(state.peers@[k].shared_secret->Some_0@);
            let nonce = base64_decoding(envelope->nonce@);
            let body = base64_decoding(envelope->body@);
            &&& r is Ok <==> key is Ok && nonce is Ok && body is Ok && chacha_opened(
                key->Ok_0,
                nonce->Ok_0,
                body->Ok_0,
            ) is Some
            &&& r is Ok ==> r->Ok_0 is Plaintext && chacha_opened(
                key->Ok_0,
                nonce->Ok_0,
                body->Ok_0,
            ) == Some(r->Ok_0->Plaintext_0@)
        },
{
    let id = envelope->Encrypted_peer_id@;
    if is_first_of(state.peers@, id, k) {
        lemma_first_of(state.peers@, id, k);
    }
    if is_unknown(state.peers@, id) {
        lemma_unknown(state.peers@, id);
    }
}

/// In the clear a request to pair and an agreement to pair are accepted, as they came,
/// and nothing else is.
pub proof fn law_clear_envelope_opens_if_pairing(
    state: &PersistedState,
    envelope: TransportEnvelope,
    r: AppResult<Opened>,
)
    requires
        call_ensures(decrypt_envelope, (state, envelope), r),
        envelope is Plain,
    ensures
        r is Ok <==> envelope->message is PairRequest || envelope->message is PairAccepted,
        r is Ok ==> r->Ok_0 is Message && r->Ok_0->Message_0@ == envelope->message@,
{
}

/// Opening with care gives what opening gives, wherever the cipher can be asked: always
/// for an envelope in the clear, and for a sealed one with a nonce of twelve bytes whose
/// body stays clear of the end of the key stream.
pub proof fn law_open_envelope(
    state: &PersistedState,
    envelope: TransportEnvelope,
    plain: AppResult<Opened>,
    r: Option<AppResult<Opened>>,
)
    requires
        call_ensures(decrypt_envelope, (state, envelope), plain),
        call_ensures(open_envelope, (state, envelope), r),
    ensures
        r matches Some(opened) ==> outcome(opened) == outcome(plain),
        envelope is Plain ==> r is Some,
        envelope is Encrypted && base64_decoding(envelope->nonce@) is Ok && base64_decoding(
            envelope->nonce@,
        )->Ok_0.len() == 12 && base64_decoding(envelope->body@) is Ok && base64_decoding(
            envelope->body@,
        )->Ok_0.len() <= 274_877_906_832 ==> r is Some,
{
}

/// A message is sealed under the id of its sender, whatever it is about; only the pairing
/// handshake names none, and only it may travel in the clear.
pub proof fn law_envelope_peer_id(message: &WireMessage, r: AppResult<&str>, clear: bool)
    requires
        call_ensures(envelope_peer_id, (message,), r),
        call_ensures(plain_envelope_allowed, (message,), clear),
    ensures
        clear <==> message is PairRequest || message is PairAccepted,
        r is Ok <==> !clear,
        message is Chat ==> r->Ok_0@ == message->Chat_peer_id@,
        message is Link ==> r->Ok_0@ == message->Link_peer_id@,
        message is FileStart ==> r->Ok_0@ == message->FileStart_peer_id@,
        message is FileChunk ==> r->Ok_0@ == message->FileChunk_peer_id@,
        message is FileEnd ==> r->Ok_0@ == message->FileEnd_peer_id@,
        message is FileCancel ==> r->Ok_0@ == message->FileCancel_peer_id@,
        message is Typing ==> r->Ok_0@ == message->Typing_peer_id@,
        message is Profile ==> r->Ok_0@ == message->Profile_peer_id@,
        sender_of(message@) == match r {
            Ok(peer_id) => Some(peer_id@),
            Err(_) => None,
        },
{
}

/// The secret shared with a peer is the one that this peer is known with.
pub proof fn law_shared_secret_of(peer: &PeerDevice, r: AppResult<String>)
    requires
        call_ensures(shared_secret_of, (peer,), r),
    ensures
        match peer.shared_secret {
            Some(secret) => r is Ok && r->Ok_0@ == secret@,
            None => r is Err && r->Err_0@ == peer.name@ + " does not have a shared secret yet."@,
        },
{
}

/// What `seal_message` seals is an envelope named after the id given, with the nonce
/// given, whose body is what ChaCha20-Poly1305 makes of that very plaintext under that
/// secret and nonce.
pub proof fn law_seal_message(
    peer_id: &str,
    secret: &str,
    nonce: &[u8; 12],
    plaintext: &[u8],
    key: AppResult<Vec<u8>>,
    r: AppResult<TransportEnvelope>,
)
    requires
        call_ensures(seal_message, (peer_id, secret, nonce, plaintext), r),
        call_ensures(decode_secret, (secret,), key),
    ensures
        r is Ok <==> key is Ok && plaintext@.len() < 274_877_906_880,
        r matches Ok(envelope) ==> {
            &&& envelope is Encrypted
            &&& envelope->Encrypted_peer_id@ == peer_id@
            &&& base64_decoding(envelope->nonce@) == Ok::<Seq<u8>, Seq<char>>(nonce@)
            &&& base64_decoding(envelope->body@) == Ok::<Seq<u8>, Seq<char>>(
                chacha_sealed(key->Ok_0@, nonce@, plaintext@),
            )
        },
{
    if r is Ok {
        law_base64_round_trip(nonce@);
        law_base64_round_trip(chacha_sealed(key->Ok_0@, nonce@, plaintext@));
    }
}

/// The cipher is asked about a text of any length but the few just short of those that
/// it refuses.
pub proof fn law_fits_key_stream(n: usize, r: bool)
    requires
        call_ensures(fits_key_stream, (n,), r),
    ensures
        r <==> n <= 274_877_906_816 || n >= 274_877_906_880,
{
}

} // verus!
