use vstd::prelude::*;

verus! {

use crate::wire::{push_bytes, push_lit, copy_range};
use vstd::string::StringSliceAdditionalSpecFns;

/// Why the pairing handshake failed: the caller's secret was not 64 hex
/// digits, the peer's reply was shorter than a public key or too large for
/// the cipher, or a crypto primitive refused its input.
#[derive(Clone, Copy, PartialEq, Eq, Structural, Debug)]
pub enum PairingError {
    BadSecret,
    ShortResponse,
    OversizedResponse,
    CryptoFailure,
}

/// The most bytes handed to one cipher update: OpenSSL takes the length as a
/// C int, so anything at or beyond 2^31 (less a block of headroom) is
/// refused before the call.
pub const MAX_CIPHER_INPUT: usize = 0x7FFF_FFF0;

/// An ASCII hexadecimal digit.
pub open spec fn is_hex_digit(b: u8) -> bool {
    (48 <= b && b <= 57) || (97 <= b && b <= 102) || (65 <= b && b <= 70)
}

/// Every byte a hexadecimal digit.
pub open spec fn all_hex(s: Seq<u8>) -> bool {
    forall|i: int| 0 <= i < s.len() ==> is_hex_digit(#[trigger] s[i])
}

/// The value of one hexadecimal digit.
pub open spec fn hex_val(b: u8) -> int {
    if 48 <= b && b <= 57 {
        b - 48
    } else if 97 <= b && b <= 102 {
        b - 87
    } else if 65 <= b && b <= 70 {
        b - 55
    } else {
        0
    }
}

/// The bytes a hex string denotes: two digits per byte, high nibble first.
pub open spec fn spec_hex_decode(s: Seq<u8>) -> Seq<u8> {
    Seq::new((s.len() / 2) as nat, |i: int| (hex_val(s[2 * i]) * 16 + hex_val(s[2 * i + 1])) as u8)
}

/// The value of one hex digit byte, if it is one.
fn hex_digit(b: u8) -> (r: Option<u8>)
    ensures
        r is Some <==> is_hex_digit(b),
        r matches Some(x) ==> x == hex_val(b),
{
    if b >= 48 && b <= 57 {
        Some(b - 48)
    } else if b >= 97 && b <= 102 {
        Some(b - 87)
    } else if b >= 65 && b <= 70 {
        Some(b - 55)
    } else {
        None
    }
}

/// Decodes a hex string: succeeds exactly on an even number of hex digits.
pub fn hex_decode(s: &Vec<u8>) -> (r: Option<Vec<u8>>)
    ensures
        r is Some <==> (s@.len() % 2 == 0 && all_hex(s@)),
        r matches Some(b) ==> b@ == spec_hex_decode(s@),
{
    let n = s.len();
    if n % 2 != 0 {
        return None;
    }
    let mut out: Vec<u8> = Vec::new();
    let mut i: usize = 0;
    while i < n
        invariant
            i <= n,
            i % 2 == 0,
            n % 2 == 0,
            n == s@.len(),
            out@.len() == i / 2,
            forall|j: int| 0 <= j < i ==> is_hex_digit(#[trigger] s@[j]),
            forall|j: int| 0 <= j < i / 2 ==> out@[j] == spec_hex_decode(s@)[j],
        decreases n - i,
    {
        let hi = match hex_digit(s[i]) {
            Some(x) => x,
            None => {
                return None;
            },
        };
        let lo = match hex_digit(s[i + 1]) {
            Some(x) => x,
            None => {
                return None;
            },
        };
        out.push(hi * 16 + lo);
        i = i + 2;
    }
    proof {
        assert(out@ =~= spec_hex_decode(s@));
    }
    Some(out)
}

/// Relies on rand::random: 32 bytes drawn from the thread-local generator.
/// Nothing is assumed of their values.
#[verifier::external_body]
fn random_32() -> (r: Vec<u8>)
    ensures
        r@.len() == 32,
{
    rand::random::<[u8; 32]>().to_vec()
}

/// The SHA-512 digest of a byte string.
pub uninterp spec fn sha512_of(data: Seq<u8>) -> Seq<u8>;

/// Relies on openssl::sha::sha512: the 64-byte SHA-512 digest, a function of
/// the input alone.
#[verifier::external_body]
fn sha512(data: &Vec<u8>) -> (r: Vec<u8>)
    ensures
        r@ == sha512_of(data@),
        r@.len() == 64,
{
    openssl::sha::sha512(data.as_slice()).to_vec()
}

/// The X25519 public key of a 32-byte secret.
pub uninterp spec fn x25519_public_of(secret: Seq<u8>) -> Seq<u8>;

/// Relies on openssl::pkey::PKey::private_key_from_raw_bytes with Id::X25519
/// and PKeyRef::raw_public_key: the 32-byte public key, a function of the
/// secret alone. Every 32-byte string is an accepted raw X25519 secret
/// (clamped, not validated), so with the required length the call succeeds;
/// only an allocation failure inside the library could be reported, an
/// environmental fault left aside like out-of-memory elsewhere.
#[verifier::external_body]
fn x25519_public(secret: &Vec<u8>) -> (r: Option<Vec<u8>>)
    requires
        secret@.len() == 32,
    ensures
        r is Some,
        r matches Some(p) ==> p@ == x25519_public_of(secret@) && p@.len() == 32,
{
    let key = openssl::pkey::PKey::private_key_from_raw_bytes(
        secret.as_slice(),
        openssl::pkey::Id::X25519,
    ).ok()?;
    key.raw_public_key().ok()
}

/// The X25519 shared secret of a 32-byte secret and a peer public key.
pub uninterp spec fn x25519_shared_of(secret: Seq<u8>, peer_public: Seq<u8>) -> Seq<u8>;

/// Whether the X25519 derivation of these two keys succeeds: it fails
/// exactly on the peer points whose shared secret is all zero (the low-order
/// points), a deterministic property of the key bytes.
pub uninterp spec fn x25519_shared_ok(secret: Seq<u8>, peer_public: Seq<u8>) -> bool;

/// Relies on openssl::derive::Deriver over PKey X25519 keys
/// (private_key_from_raw_bytes, public_key_from_raw_bytes, set_peer,
/// derive_to_vec): the 32-byte Diffie-Hellman shared secret, a function of
/// the two keys alone. Whether the derive succeeds is likewise a function of
/// the two keys, named `x25519_shared_ok`.
#[verifier::external_body]
fn x25519_shared(secret: &Vec<u8>, peer_public: &Vec<u8>) -> (r: Option<Vec<u8>>)
    requires
        secret@.len() == 32,
        peer_public@.len() == 32,
    ensures
        r is Some <==> x25519_shared_ok(secret@, peer_public@),
        r matches Some(sh) ==> sh@ == x25519_shared_of(secret@, peer_public@) && sh@.len() == 32,
{
    let id = openssl::pkey::Id::X25519;
    let key = openssl::pkey::PKey::private_key_from_raw_bytes(secret.as_slice(), id).ok()?;
    let peer = openssl::pkey::PKey::public_key_from_raw_bytes(peer_public.as_slice(), id).ok()?;
    let mut deriver = openssl::derive::Deriver::new(&key).ok()?;
    deriver.set_peer(&peer).ok()?;
    deriver.derive_to_vec().ok()
}

/// The Ed25519 public key of a 32-byte seed.
pub uninterp spec fn ed25519_public_of(seed: Seq<u8>) -> Seq<u8>;

/// Relies on openssl::pkey::PKey::private_key_from_raw_bytes with
/// Id::ED25519 and PKeyRef::raw_public_key: the 32-byte public key, a
/// function of the seed alone. Every 32-byte string is a valid Ed25519 seed,
/// so with the required length the call succeeds (allocation failure aside).
#[verifier::external_body]
fn ed25519_public(seed: &Vec<u8>) -> (r: Option<Vec<u8>>)
    requires
        seed@.len() == 32,
    ensures
        r is Some,
        r matches Some(p) ==> p@ == ed25519_public_of(seed@) && p@.len() == 32,
{
    let key = openssl::pkey::PKey::private_key_from_raw_bytes(
        seed.as_slice(),
        openssl::pkey::Id::ED25519,
    ).ok()?;
    key.raw_public_key().ok()
}

/// The Ed25519 signature of a message under a 32-byte seed.
pub uninterp spec fn ed25519_signature_of(seed: Seq<u8>, message: Seq<u8>) -> Seq<u8>;

/// Relies on openssl::sign::Signer::new_without_digest over an Ed25519 PKey
/// and sign_oneshot_to_vec: the 64-byte signature; Ed25519 signing is
/// deterministic, a function of seed and message alone, and accepts every
/// valid key and message, so with the required seed length the call succeeds
/// (allocation failure aside).
#[verifier::external_body]
fn ed25519_sign(seed: &Vec<u8>, message: &Vec<u8>) -> (r: Option<Vec<u8>>)
    requires
        seed@.len() == 32,
    ensures
        r is Some,
        r matches Some(sig) ==> sig@ == ed25519_signature_of(seed@, message@) && sig@.len() == 64,
{
    let key = openssl::pkey::PKey::private_key_from_raw_bytes(
        seed.as_slice(),
        openssl::pkey::Id::ED25519,
    ).ok()?;
    let mut signer = openssl::sign::Signer::new_without_digest(&key).ok()?;
    signer.sign_oneshot_to_vec(message.as_slice()).ok()
}

/// The AES-128-CTR encryption of `data` under `key` and `iv` after the
/// keystream has first been advanced over `skip`.
pub uninterp spec fn aes_ctr_of(key: Seq<u8>, iv: Seq<u8>, skip: Seq<u8>, data: Seq<u8>) -> Seq<
    u8,
>;

/// Relies on openssl::symm::Crypter with Cipher::aes_128_ctr: a stream
/// cipher whose keystream is a function of key and iv; encrypting `skip`
/// first advances it, and the ciphertext of `data` is as long as `data`.
/// Crypter::update takes each input's length as a C int and panics beyond
/// it, so both inputs must stay below `MAX_CIPHER_INPUT`. The cipher accepts
/// every 16-byte key and IV and every input under that bound, and a stream
/// cipher writes exactly the input length, so under the `requires` the call
/// succeeds (allocation failure aside).
#[verifier::external_body]
fn aes_128_ctr_after(key: &Vec<u8>, iv: &Vec<u8>, skip: &Vec<u8>, data: &Vec<u8>) -> (r: Option<
    Vec<u8>,
>)
    requires
        skip@.len() < MAX_CIPHER_INPUT,
        data@.len() < MAX_CIPHER_INPUT,
        key@.len() == 16,
        iv@.len() == 16,
    ensures
        r is Some,
        r matches Some(c) ==> c@ == aes_ctr_of(key@, iv@, skip@, data@) && c@.len() == data@.len(),
{
    let cipher = openssl::symm::Cipher::aes_128_ctr();
    let mode = openssl::symm::Mode::Encrypt;
    let mut ctx = openssl::symm::Crypter::new(cipher, mode, key.as_slice(), Some(iv)).ok()?;
    let mut sink = vec![0u8; skip.len() + 16];
    ctx.update(skip.as_slice(), &mut sink).ok()?;
    let mut out = vec![0u8; data.len() + 16];
    let n = ctx.update(data.as_slice(), &mut out).ok()?;
    if n != data.len() {
        return None;
    }
    out.truncate(n);
    Some(out)
}

/// What the first pair-verify step established: the ephemeral X25519 pair
/// and the Ed25519 identity derived from the caller's secret.
pub struct PairVerifyState {
    pub verify_secret: Vec<u8>,
    pub verify_public: Vec<u8>,
    pub auth_seed: Vec<u8>,
    pub auth_public: Vec<u8>,
}

/// The Ed25519 seed of a pairing secret: the first half of its SHA-512
/// digest.
pub open spec fn spec_auth_seed(secret: Seq<u8>) -> Seq<u8> {
    sha512_of(secret).subrange(0, 32)
}

/// The first pair-verify message: a flag word, then the ephemeral and
/// identity public keys.
pub open spec fn spec_step1_body(verify_public: Seq<u8>, auth_public: Seq<u8>) -> Seq<u8> {
    seq![1u8, 0u8, 0u8, 0u8] + verify_public + auth_public
}

/// What is signed in the second step: own ephemeral key, then the peer's.
pub open spec fn spec_signing_message(verify_public: Seq<u8>, atv_public: Seq<u8>) -> Seq<u8> {
    verify_public + atv_public
}

/// The AES key of a shared secret: the first 16 digest bytes of the tagged
/// secret.
pub open spec fn spec_aes_key(shared: Seq<u8>) -> Seq<u8> {
    sha512_of("Pair-Verify-AES-Key".spec_bytes() + shared).subrange(0, 16)
}

/// The AES IV of a shared secret, tagged likewise.
pub open spec fn spec_aes_iv(shared: Seq<u8>) -> Seq<u8> {
    sha512_of("Pair-Verify-AES-IV".spec_bytes() + shared).subrange(0, 16)
}

/// The second pair-verify message: four zero bytes, then the encrypted
/// signature.
pub open spec fn spec_step2_body(ciphertext: Seq<u8>) -> Seq<u8> {
    seq![0u8, 0u8, 0u8, 0u8] + ciphertext
}

/// The sizes the second step needs of a first-step state.
pub open spec fn state_sized(st: PairVerifyState) -> bool {
    &&& st.verify_secret@.len() == 32
    &&& st.verify_public@.len() == 32
    &&& st.auth_seed@.len() == 32
    &&& st.auth_public@.len() == 32
}

/// Starts the pair-verify handshake: derives the Ed25519 identity from the
/// hex secret, draws a fresh X25519 key, and assembles the first message.
pub fn pair_verify_step1(secret_hex: &Vec<u8>) -> (r: Result<(PairVerifyState, Vec<u8>),
    PairingError>)
    ensures
        r is Ok <==> (secret_hex@.len() == 64 && all_hex(secret_hex@)),
        (secret_hex@.len() != 64 || !all_hex(secret_hex@)) <==> (r matches Err(e) && e
            == PairingError::BadSecret),
        r matches Ok(sb) ==> {
            let st = sb.0;
            &&& state_sized(st)
            &&& st.auth_seed@ == spec_auth_seed(spec_hex_decode(secret_hex@))
            &&& st.auth_public@ == ed25519_public_of(st.auth_seed@)
            &&& st.verify_public@ == x25519_public_of(st.verify_secret@)
            &&& sb.1@ == spec_step1_body(st.verify_public@, st.auth_public@)
        },
{
    if secret_hex.len() != 64 {
        return Err(PairingError::BadSecret);
    }
    let secret = match hex_decode(secret_hex) {
        Some(s) => s,
        None => {
            return Err(PairingError::BadSecret);
        },
    };
    let digest = sha512(&secret);
    let auth_seed = copy_range(&digest, 0, 32);
    let auth_public = match ed25519_public(&auth_seed) {
        Some(p) => p,
        None => {
            return Err(PairingError::CryptoFailure);
        },
    };
    let verify_secret = random_32();
    let verify_public = match x25519_public(&verify_secret) {
        Some(p) => p,
        None => {
            return Err(PairingError::CryptoFailure);
        },
    };
    let mut body: Vec<u8> = Vec::new();
    body.push(1u8);
    body.push(0u8);
    body.push(0u8);
    body.push(0u8);
    push_bytes(&mut body, verify_public.as_slice());
    push_bytes(&mut body, auth_public.as_slice());
    proof {
        assert(body@ =~= spec_step1_body(verify_public@, auth_public@));
    }
    Ok((PairVerifyState { verify_secret, verify_public, auth_seed, auth_public }, body))
}

/// Finishes the handshake from the peer's reply `atv_pub (32) || atv_data`:
/// agrees on a shared secret, derives the AES key and IV from it, signs both
/// ephemeral keys, encrypts the signature with the keystream advanced over
/// `atv_data`, and assembles the second message.
pub fn pair_verify_step2(st: &PairVerifyState, response: &Vec<u8>) -> (r: Result<Vec<u8>,
    PairingError>)
    requires
        state_sized(*st),
    ensures
        r is Ok <==> (32 <= response@.len() < 32 + MAX_CIPHER_INPUT && x25519_shared_ok(
            st.verify_secret@,
            response@.subrange(0, 32),
        )),
        (response@.len() < 32) <==> (r matches Err(e) && e == PairingError::ShortResponse),
        (response@.len() >= 32 + MAX_CIPHER_INPUT) <==> (r matches Err(e) && e
            == PairingError::OversizedResponse),
        (32 <= response@.len() < 32 + MAX_CIPHER_INPUT && !x25519_shared_ok(
            st.verify_secret@,
            response@.subrange(0, 32),
        )) <==> (r matches Err(e) && e == PairingError::CryptoFailure),
        r matches Ok(b) ==> b@.len() == 68,
        r matches Ok(b) ==> {
            let atv_public = response@.subrange(0, 32);
            let atv_data = response@.subrange(32, response@.len() as int);
            let shared = x25519_shared_of(st.verify_secret@, atv_public);
            let signature = ed25519_signature_of(
                st.auth_seed@,
                spec_signing_message(st.verify_public@, atv_public),
            );
            b@ == spec_step2_body(
                aes_ctr_of(spec_aes_key(shared), spec_aes_iv(shared), atv_data, signature),
            )
        },
{
    let n = response.len();
    if n < 32 {
        return Err(PairingError::ShortResponse);
    }
    if n - 32 >= MAX_CIPHER_INPUT {
        return Err(PairingError::OversizedResponse);
    }
    let atv_public = copy_range(response, 0, 32);
    let atv_data = copy_range(response, 32, n);
    let shared = match x25519_shared(&st.verify_secret, &atv_public) {
        Some(s) => s,
        None => {
            return Err(PairingError::CryptoFailure);
        },
    };
    let mut key_input: Vec<u8> = Vec::new();
    push_lit(&mut key_input, "Pair-Verify-AES-Key");
    push_bytes(&mut key_input, shared.as_slice());
    let key_digest = sha512(&key_input);
    let aes_key = copy_range(&key_digest, 0, 16);
    let mut iv_input: Vec<u8> = Vec::new();
    push_lit(&mut iv_input, "Pair-Verify-AES-IV");
    push_bytes(&mut iv_input, shared.as_slice());
    let iv_digest = sha512(&iv_input);
    let aes_iv = copy_range(&iv_digest, 0, 16);
    let mut message: Vec<u8> = Vec::new();
    push_bytes(&mut message, st.verify_public.as_slice());
    push_bytes(&mut message, atv_public.as_slice());
    proof {
        assert(message@ =~= spec_signing_message(st.verify_public@, atv_public@));
    }
    let signature = match ed25519_sign(&st.auth_seed, &message) {
        Some(s) => s,
        None => {
            return Err(PairingError::CryptoFailure);
        },
    };
    let ciphertext = match aes_128_ctr_after(&aes_key, &aes_iv, &atv_data, &signature) {
        Some(c) => c,
        None => {
            return Err(PairingError::CryptoFailure);
        },
    };
    let mut body: Vec<u8> = Vec::new();
    body.push(0u8);
    body.push(0u8);
    body.push(0u8);
    body.push(0u8);
    push_bytes(&mut body, ciphertext.as_slice());
    proof {
        assert(body@ =~= spec_step2_body(ciphertext@));
    }
    Ok(body)
}

/// The auth-setup message: a flag byte, then a fresh X25519 public key.
pub open spec fn spec_auth_setup_body(public_key: Seq<u8>) -> Seq<u8> {
    seq![1u8] + public_key
}

/// Draws a fresh X25519 key and assembles the auth-setup message.
pub fn auth_setup_body() -> (r: Result<Vec<u8>, PairingError>)
    ensures
        r is Ok,
        r matches Ok(b) ==> b@.len() == 33,
        r matches Ok(b) ==> exists|secret: Seq<u8>|
            secret.len() == 32 && b@ == spec_auth_setup_body(#[trigger] x25519_public_of(secret)),
{
    let secret = random_32();
    let public_key = match x25519_public(&secret) {
        Some(p) => p,
        None => {
            return Err(PairingError::CryptoFailure);
        },
    };
    let mut body: Vec<u8> = Vec::new();
    body.push(1u8);
    push_bytes(&mut body, public_key.as_slice());
    proof {
        assert(body@ =~= spec_auth_setup_body(x25519_public_of(secret@)));
        assert(secret@.len() == 32 && body@ == spec_auth_setup_body(x25519_public_of(secret@)));
    }
    Ok(body)
}

} // verus!
