//! Identity secrets, public keys and the secrets that two devices share.

use crate::codec::{base64_decode, base64_encode};
use crate::codec::{base64_decoding, base64_encoding, law_base64_round_trip};
use crate::ids::random_bytes;
use crate::model::{outcome, AppResult};
use sha2::Digest;
use vstd::prelude::*;

verus! {

/// The X25519 public key of a secret key.
pub uninterp spec fn x25519_public(secret: Seq<u8>) -> [u8; 32];

/// The X25519 shared secret of a secret key and a public key.
pub uninterp spec fn x25519_shared(secret: Seq<u8>, public: Seq<u8>) -> [u8; 32];

/// The SHA-256 digest of some bytes.
pub uninterp spec fn sha256(bytes: Seq<u8>) -> [u8; 32];

/// The key that a secret's text stands for: 32 bytes in base64.
pub open spec fn decoded_secret(secret: Seq<char>) -> Result<Seq<u8>, Seq<char>> {
    match base64_decoding(secret) {
        Ok(bytes) => if bytes.len() == 32 {
            Ok(bytes)
        } else {
            Err("Shared secret has an invalid length."@)
        },
        Err(complaint) => Err(complaint),
    }
}

/// The bytes that a public key's text stands for.
pub open spec fn decoded_public_key(public_key: Seq<char>) -> Result<Seq<u8>, Seq<char>> {
    match base64_decoding(public_key) {
        Ok(bytes) => if bytes.len() == 32 {
            Ok(bytes)
        } else {
            Err("Public key has an invalid length."@)
        },
        Err(complaint) => Err(complaint),
    }
}

/// The text of the public key of an identity.
pub open spec fn derived_public_key(identity_secret: Seq<char>) -> Result<Seq<char>, Seq<char>> {
    match decoded_secret(identity_secret) {
        Ok(secret) => Ok(base64_encoding(x25519_public(secret)@)),
        Err(complaint) => Err(complaint),
    }
}

/// The text of the secret that an identity shares with the owner of a public key.
pub open spec fn derived_shared_secret(
    identity_secret: Seq<char>,
    peer_public_key: Seq<char>,
) -> Result<Seq<char>, Seq<char>> {
    match decoded_secret(identity_secret) {
        Ok(secret) => match decoded_public_key(peer_public_key) {
            Ok(public) => Ok(base64_encoding(sha256(x25519_shared(secret, public)@)@)),
            Err(complaint) => Err(complaint),
        },
        Err(complaint) => Err(complaint),
    }
}

/// Whether `secret` is what both sides come to share: whoever holds the identity
/// behind `peer_public_key` derives it from the public key of `identity_secret`.
pub open spec fn is_agreed(
    identity_secret: Seq<char>,
    peer_public_key: Seq<char>,
    secret: Seq<char>,
) -> bool {
    forall|other: Seq<char>|
        #![trigger derived_public_key(other)]
        derived_public_key(other) == Ok::<Seq<char>, Seq<char>>(peer_public_key)
            ==> derived_shared_secret(other, derived_public_key(identity_secret)->Ok_0) == Ok::<
            Seq<char>,
            Seq<char>,
        >(secret)
}

/// Calls `x25519_dalek::PublicKey::from(&StaticSecret)`. The public key is a
/// function of the secret's bytes alone.
#[verifier::external_body]
fn x25519_public_key(secret: &[u8; 32]) -> (r: [u8; 32])
    ensures
        r == x25519_public(secret@),
{
    x25519_dalek::PublicKey::from(&x25519_dalek::StaticSecret::from(*secret)).to_bytes()
}

/// Calls `x25519_dalek::StaticSecret::diffie_hellman`. The shared secret is a
/// function of the two keys' bytes alone, and whoever holds the secret behind
/// the public key arrives at the same one from the other side.
#[verifier::external_body]
fn x25519_diffie_hellman(secret: &[u8; 32], public: &[u8; 32]) -> (r: [u8; 32])
    ensures
        r == x25519_shared(secret@, public@),
        forall|other: Seq<u8>|
            other.len() == 32 && public@ == (#[trigger] x25519_public(other))@ ==> r
                == x25519_shared(other, x25519_public(secret@)@),
{
    let theirs = x25519_dalek::PublicKey::from(*public);
    x25519_dalek::StaticSecret::from(*secret).diffie_hellman(&theirs).to_bytes()
}

/// Calls `sha2::Sha256::digest`. The digest is a function of the bytes alone.
#[verifier::external_body]
fn sha256_digest(bytes: &[u8; 32]) -> (r: [u8; 32])
    ensures
        r == sha256(bytes@),
{
    sha2::Sha256::digest(bytes).into()
}

fn to_array(bytes: &Vec<u8>) -> (r: [u8; 32])
    requires
        bytes@.len() == 32,
    ensures
        r@ == bytes@,
{
    let mut a: [u8; 32] = [0u8; 32];
    let mut i: usize = 0;
    while i < 32
        invariant
            i <= 32,
            bytes@.len() == 32,
            forall|k: int| 0 <= k < i ==> a@[k] == bytes@[k],
        decreases 32 - i,
    {
        a[i] = bytes[i];
        i = i + 1;
    }
    assert(a@ =~= bytes@);
    a
}

/// The text of a 32-byte key.
pub fn secret_text(key: &[u8; 32]) -> (r: String)
    ensures
        r@ == base64_encoding(key@),
        decoded_secret(r@) == Ok::<Seq<u8>, Seq<char>>(key@),
{
    proof {
        law_base64_round_trip(key@);
    }
    base64_encode(key)
}

/// A fresh random secret: the base64 text of 32 bytes.
pub fn new_shared_secret() -> (r: String)
    ensures
        decoded_secret(r@) is Ok,
        r@ == base64_encoding(decoded_secret(r@)->Ok_0),
{
    let key: [u8; 32] = random_bytes();
    secret_text(&key)
}

/// A fresh random identity secret: the base64 text of 32 bytes.
pub fn new_identity_secret() -> (r: String)
    ensures
        decoded_secret(r@) is Ok,
        r@ == base64_encoding(decoded_secret(r@)->Ok_0),
{
    new_shared_secret()
}

/// The key that a secret's text stands for.
pub fn decode_secret(secret: &str) -> (r: AppResult<Vec<u8>>)
    ensures
        outcome(r) == decoded_secret(secret@),
{
    let decoded = base64_decode(secret)?;
    if decoded.len() == 32 {
        Ok(decoded)
    } else {
        Err("Shared secret has an invalid length.".to_string())
    }
}

/// The key that a secret's text stands for, as an array.
pub fn secret_array(secret: &str) -> (r: AppResult<[u8; 32]>)
    ensures
        outcome(r) == decoded_secret(secret@),
{
    let decoded = decode_secret(secret)?;
    Ok(to_array(&decoded))
}

/// The bytes that a public key's text stands for, as an array.
pub fn public_key_array(public_key: &str) -> (r: AppResult<[u8; 32]>)
    ensures
        outcome(r) == decoded_public_key(public_key@),
{
    let decoded = base64_decode(public_key)?;
    if decoded.len() == 32 {
        Ok(to_array(&decoded))
    } else {
        Err("Public key has an invalid length.".to_string())
    }
}

/// The public key, in base64, of an identity.
pub fn derive_public_key(identity_secret: &str) -> (r: AppResult<String>)
    ensures
        outcome(r) == derived_public_key(identity_secret@),
{
    let secret = secret_array(identity_secret)?;
    let public = x25519_public_key(&secret);
    Ok(base64_encode(&public))
}

/// The secret, in base64, that an identity shares with the owner of a public
/// key. Both sides arrive at the same one.
pub fn derive_shared_secret(identity_secret: &str, peer_public_key: &str) -> (r: AppResult<String>)
    ensures
        outcome(r) == derived_shared_secret(identity_secret@, peer_public_key@),
        r matches Ok(secret) ==> is_agreed(identity_secret@, peer_public_key@, secret@),
{
    let secret = secret_array(identity_secret)?;
    let public = public_key_array(peer_public_key)?;
    let shared = x25519_diffie_hellman(&secret, &public);
    let digest = sha256_digest(&shared);
    let text = base64_encode(&digest);
    proof {
        law_base64_round_trip(x25519_public(secret@)@);
        assert forall|other: Seq<char>|
            #![trigger derived_public_key(other)]
            derived_public_key(other) == Ok::<Seq<char>, Seq<char>>(
                peer_public_key@,
            ) implies derived_shared_secret(other, derived_public_key(identity_secret@)->Ok_0)
            == Ok::<Seq<char>, Seq<char>>(text@) by {
            let key = decoded_secret(other)->Ok_0;
            law_base64_round_trip(x25519_public(key)@);
            assert(public@ == x25519_public(key)@);
        }
    }
    Ok(text)
}

/// Whatever two devices come to share is a usable key: its text stands for 32
/// bytes.
pub proof fn law_shared_secret_is_a_key(identity_secret: Seq<char>, peer_public_key: Seq<char>)
    requires
        derived_shared_secret(identity_secret, peer_public_key) is Ok,
    ensures
        decoded_secret(derived_shared_secret(identity_secret, peer_public_key)->Ok_0) is Ok,
{
    let secret = decoded_secret(identity_secret)->Ok_0;
    let public = decoded_public_key(peer_public_key)->Ok_0;
    law_base64_round_trip(sha256(x25519_shared(secret, public)@)@);
}

/// The public key of every usable identity is one that a peer can derive a
/// shared secret from.
pub proof fn law_public_key_is_accepted(identity_secret: Seq<char>)
    requires
        decoded_secret(identity_secret) is Ok,
    ensures
        derived_public_key(identity_secret) is Ok,
        decoded_public_key(derived_public_key(identity_secret)->Ok_0) == Ok::<Seq<u8>, Seq<char>>(
            x25519_public(decoded_secret(identity_secret)->Ok_0)@,
        ),
{
    law_base64_round_trip(x25519_public(decoded_secret(identity_secret)->Ok_0)@);
}

/// The text of a key stands for that key, and for no other: decoding it gives its bytes
/// back.
pub proof fn law_secret_text_is_read_back(
    key: &[u8; 32],
    text: String,
    secret: &str,
    bytes: AppResult<Vec<u8>>,
    array: AppResult<[u8; 32]>,
)
    requires
        call_ensures(secret_text, (key,), text),
        secret@ == text@,
        call_ensures(decode_secret, (secret,), bytes),
        call_ensures(secret_array, (secret,), array),
    ensures
        bytes is Ok && bytes->Ok_0@ == key@,
        array is Ok && array->Ok_0@ == key@,
{
}

/// A text stands for a secret, or for a public key, exactly if it is the base64 text of
/// 32 bytes, and then for those bytes.
pub proof fn law_keys_are_32_bytes(
    text: &str,
    decoded: Result<Vec<u8>, String>,
    secret: AppResult<Vec<u8>>,
    array: AppResult<[u8; 32]>,
    public: AppResult<[u8; 32]>,
)
    requires
        call_ensures(base64_decode, (text,), decoded),
        call_ensures(decode_secret, (text,), secret),
        call_ensures(secret_array, (text,), array),
        call_ensures(public_key_array, (text,), public),
    ensures
        secret is Ok <==> decoded is Ok && decoded->Ok_0@.len() == 32,
        array is Ok <==> secret is Ok,
        public is Ok <==> secret is Ok,
        secret is Ok ==> {
            &&& secret->Ok_0@ == decoded->Ok_0@
            &&& array->Ok_0@ == decoded->Ok_0@
            &&& public->Ok_0@ == decoded->Ok_0@
        },
{
}

/// Fresh secrets are usable: each stands for 32 bytes.
pub proof fn law_fresh_secrets_are_usable(
    shared: String,
    identity: String,
    first: &str,
    second: &str,
    one: AppResult<Vec<u8>>,
    other: AppResult<Vec<u8>>,
)
    requires
        call_ensures(new_shared_secret, (), shared),
        call_ensures(new_identity_secret, (), identity),
        first@ == shared@,
        second@ == identity@,
        call_ensures(decode_secret, (first,), one),
        call_ensures(decode_secret, (second,), other),
    ensures
        one is Ok && one->Ok_0@.len() == 32,
        other is Ok && other->Ok_0@.len() == 32,
{
}

/// The public key of an identity is the base64 text of the X25519 public key of its
/// secret.
pub proof fn law_derive_public_key(
    identity_secret: &str,
    secret: AppResult<Vec<u8>>,
    r: AppResult<String>,
)
    requires
        call_ensures(derive_public_key, (identity_secret,), r),
        call_ensures(decode_secret, (identity_secret,), secret),
    ensures
        r is Ok <==> secret is Ok,
        r is Ok ==> base64_decoding(r->Ok_0@) == Ok::<Seq<u8>, Seq<char>>(
            x25519_public(secret->Ok_0@)@,
        ),
{
    if r is Ok {
        law_base64_round_trip(x25519_public(secret->Ok_0@)@);
    }
}

/// The secret that two devices share is the base64 text of the SHA-256 digest of what
/// X25519 makes of the one's secret and the other's public key. It can be derived exactly
/// if both can be used.
pub proof fn law_derive_shared_secret(
    identity_secret: &str,
    peer_public_key: &str,
    secret: AppResult<Vec<u8>>,
    public: AppResult<[u8; 32]>,
    r: AppResult<String>,
)
    requires
        call_ensures(derive_shared_secret, (identity_secret, peer_public_key), r),
        call_ensures(decode_secret, (identity_secret,), secret),
        call_ensures(public_key_array, (peer_public_key,), public),
    ensures
        r is Ok <==> secret is Ok && public is Ok,
        r is Ok ==> base64_decoding(r->Ok_0@) == Ok::<Seq<u8>, Seq<char>>(
            sha256(x25519_shared(secret->Ok_0@, public->Ok_0@)@)@,
        ),
{
    if r is Ok {
        law_base64_round_trip(sha256(x25519_shared(secret->Ok_0@, public->Ok_0@)@)@);
    }
}

/// Two devices that know each other's public keys derive one secret, each from its own
/// identity and the other's key.
pub proof fn law_both_sides_derive_one_secret(
    a: &str,
    b: &str,
    a_key: AppResult<String>,
    b_key: AppResult<String>,
    a_public: &str,
    b_public: &str,
    a_shared: AppResult<String>,
    b_shared: AppResult<String>,
)
    requires
        call_ensures(derive_public_key, (a,), a_key),
        call_ensures(derive_public_key, (b,), b_key),
        a_key is Ok && b_key is Ok,
        a_public@ == a_key->Ok_0@,
        b_public@ == b_key->Ok_0@,
        call_ensures(derive_shared_secret, (a, b_public), a_shared),
        call_ensures(derive_shared_secret, (b, a_public), b_shared),
    ensures
        a_shared is Ok && b_shared is Ok,
        a_shared->Ok_0@ == b_shared->Ok_0@,
{
    law_public_key_is_accepted(a@);
    law_public_key_is_accepted(b@);
    assert(derived_public_key(b@) == Ok::<Seq<char>, Seq<char>>(b_public@));
}

} // verus!
