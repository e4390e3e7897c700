//! The keys of Initial packets, and the primitives that they are made and
//! used with.

use vstd::prelude::*;

verus! {

/// What HKDF with SHA-256 gives in one of its two modes: extraction of a
/// key from `key` and `salt`, or expansion of `key` with `info` to `len`
/// bytes.
pub uninterp spec fn hkdf_sha256_output(
    key: Seq<u8>,
    salt: Option<Seq<u8>>,
    info: Option<Seq<u8>>,
    extract: bool,
    len: nat,
) -> Seq<u8>;

/// What AES with a key of 128 bits gives for `data` in ECB mode, padding
/// included.
pub uninterp spec fn aes_128_ecb_output(key: Seq<u8>, data: Seq<u8>) -> Seq<u8>;

/// The plaintext that AES-128-GCM gives for a ciphertext and its tag, or
/// `None` where the tag does not fit.
pub uninterp spec fn aes_128_gcm_plaintext(
    key: Seq<u8>,
    nonce: Seq<u8>,
    aad: Seq<u8>,
    ciphertext: Seq<u8>,
    tag: Seq<u8>,
) -> Option<Seq<u8>>;

/// The bytes behind an optional slice.
pub open spec fn opt_bytes(o: Option<&[u8]>) -> Option<Seq<u8>> {
    match o {
        Some(s) => Some(s@),
        None => None,
    }
}

/// Calls `openssl::kdf::hkdf` with SHA-256, in extract-only or expand-only
/// mode, for `len` bytes of output, which must be few enough to be set
/// aside without fail. Where the call succeeds, the output is the one
/// named; it may fail, and nothing is said of when.
#[verifier::external_body]
fn hkdf_sha256(key: &[u8], salt: Option<&[u8]>, info: Option<&[u8]>, extract: bool, len: usize)
    -> (r: Option<Vec<u8>>)
    requires
        len <= 0xffff,
    ensures
        r matches Some(v) ==> v@.len() == len && v@ == hkdf_sha256_output(
            key@,
            opt_bytes(salt),
            opt_bytes(info),
            extract,
            len as nat,
        ),
{
    let mode = if extract {
        openssl::kdf::HkdfMode::ExtractOnly
    } else {
        openssl::kdf::HkdfMode::ExpandOnly
    };
    let mut out = vec![0u8; len];
    match openssl::kdf::hkdf(openssl::md::Md::sha256(), key, salt, info, mode, None, &mut out) {
        Ok(()) => Some(out),
        Err(_) => None,
    }
}

/// Length of the keys of AES-128, and of one block of it.
pub const AES_128_KEY_SIZE: usize = 16;

/// Length of the nonce of AES-128-GCM.
pub const GCM_NONCE_SIZE: usize = 12;

/// Length of the tag of AES-128-GCM.
pub const GCM_TAG_SIZE: usize = 16;

/// The most bytes that the cryptographic library takes in one call.
pub const MAX_CIPHER_INPUT: usize = 0x7fff_ffff;

/// Calls `openssl::symm::encrypt` with AES-128 in ECB mode, for a key of
/// 16 bytes and one block of data. Where the call succeeds, the output is
/// the one named; it may fail, and nothing is said of when.
#[verifier::external_body]
fn aes_128_ecb(key: &[u8], data: &[u8]) -> (r: Option<Vec<u8>>)
    requires
        key@.len() == AES_128_KEY_SIZE,
        data@.len() == AES_128_KEY_SIZE,
    ensures
        r matches Some(v) ==> v@ == aes_128_ecb_output(key@, data@),
{
    match openssl::symm::encrypt(openssl::symm::Cipher::aes_128_ecb(), key, None, data) {
        Ok(v) => Some(v),
        Err(_) => None,
    }
}

/// Calls `openssl::symm::decrypt_aead` with AES-128-GCM, for a key of 16
/// bytes, a nonce of 12 and a tag of 16, and for data that the library
/// takes in one call. Where the call succeeds, the tag fits and the output
/// is the plaintext named; it fails where the tag does not fit, and may
/// fail otherwise.
#[verifier::external_body]
fn aes_128_gcm_open(key: &[u8], nonce: &[u8], aad: &[u8], ciphertext: &[u8], tag: &[u8]) -> (r:
    Option<Vec<u8>>)
    requires
        key@.len() == AES_128_KEY_SIZE,
        nonce@.len() == GCM_NONCE_SIZE,
        tag@.len() == GCM_TAG_SIZE,
        aad@.len() <= MAX_CIPHER_INPUT,
        ciphertext@.len() <= MAX_CIPHER_INPUT,
    ensures
        r matches Some(v) ==> aes_128_gcm_plaintext(key@, nonce@, aad@, ciphertext@, tag@) == Some(
            v@,
        ),
{
    let cipher = openssl::symm::Cipher::aes_128_gcm();
    match openssl::symm::decrypt_aead(cipher, key, Some(nonce), aad, ciphertext, tag) {
        Ok(v) => Some(v),
        Err(_) => None,
    }
}

/// Whether key, nonce, tag and data have the lengths with which a payload
/// can be opened.
pub open spec fn openable(key: Seq<u8>, nonce: Seq<u8>, aad: Seq<u8>, ciphertext: Seq<u8>, tag: Seq<u8>)
    -> bool {
    &&& key.len() == AES_128_KEY_SIZE
    &&& nonce.len() == GCM_NONCE_SIZE
    &&& tag.len() == GCM_TAG_SIZE
    &&& aad.len() <= MAX_CIPHER_INPUT
    &&& ciphertext.len() <= MAX_CIPHER_INPUT
}

/// Opens a protected payload. `None` where a length is not what it must
/// be, where the tag does not fit, and where the cryptographic library
/// fails.
pub fn open_payload(key: &[u8], nonce: &[u8], aad: &[u8], ciphertext: &[u8], tag: &[u8]) -> (r:
    Option<Vec<u8>>)
    ensures
        r matches Some(v) ==> aes_128_gcm_plaintext(key@, nonce@, aad@, ciphertext@, tag@) == Some(
            v@,
        ),
        !openable(key@, nonce@, aad@, ciphertext@, tag@) ==> r is None,
{
    if key.len() != AES_128_KEY_SIZE || nonce.len() != GCM_NONCE_SIZE || tag.len() != GCM_TAG_SIZE
        || aad.len() > MAX_CIPHER_INPUT || ciphertext.len() > MAX_CIPHER_INPUT {
        return None;
    }
    aes_128_gcm_open(key, nonce, aad, ciphertext, tag)
}

/// The salt from which the keys of Initial packets of version 1 are made.
pub open spec fn initial_salt() -> Seq<u8> {
    seq![
        0x38u8, 0x76u8, 0x2cu8, 0xf7u8, 0xf5u8, 0x59u8, 0x34u8, 0xb3u8, 0x4du8, 0x17u8,
        0x9au8, 0xe6u8, 0xa4u8, 0xc8u8, 0x0cu8, 0xadu8, 0xccu8, 0xbbu8, 0x7fu8, 0x0au8,
    ]
}

/// The bytes `tls13 `, which stand before every label.
pub open spec fn label_prefix() -> Seq<u8> {
    seq![0x74u8, 0x6cu8, 0x73u8, 0x31u8, 0x33u8, 0x20u8]
}

/// The label `client in`.
pub open spec fn label_client_in() -> Seq<u8> {
    seq![0x63u8, 0x6cu8, 0x69u8, 0x65u8, 0x6eu8, 0x74u8, 0x20u8, 0x69u8, 0x6eu8]
}

/// The label `quic key`.
pub open spec fn label_quic_key() -> Seq<u8> {
    seq![0x71u8, 0x75u8, 0x69u8, 0x63u8, 0x20u8, 0x6bu8, 0x65u8, 0x79u8]
}

/// The label `quic iv`.
pub open spec fn label_quic_iv() -> Seq<u8> {
    seq![0x71u8, 0x75u8, 0x69u8, 0x63u8, 0x20u8, 0x69u8, 0x76u8]
}

/// The label `quic hp`.
pub open spec fn label_quic_hp() -> Seq<u8> {
    seq![0x71u8, 0x75u8, 0x69u8, 0x63u8, 0x20u8, 0x68u8, 0x70u8]
}

/// What a label is expanded with: the length of the output in two bytes,
/// the prefixed label behind one byte of length, and an empty context.
pub open spec fn label_info(label: Seq<u8>, len: nat) -> Seq<u8> {
    seq![(len / 256) as u8, (len % 256) as u8, (6 + label.len()) as u8] + label_prefix() + label
        + seq![0u8]
}

/// The secret that `label` leads to from `secret`, `len` bytes long.
pub open spec fn expand_label(secret: Seq<u8>, label: Seq<u8>, len: nat) -> Seq<u8> {
    hkdf_sha256_output(secret, None, Some(label_info(label, len)), false, len)
}

/// The secret of the client for Initial packets to the connection id
/// `dcid`.
pub open spec fn client_initial_secret(dcid: Seq<u8>) -> Seq<u8> {
    expand_label(
        hkdf_sha256_output(dcid, Some(initial_salt()), None, true, 32),
        label_client_in(),
        32,
    )
}

/// The keys that protect the Initial packets of a client.
#[derive(Debug)]
pub struct InitialKeys {
    /// The key of the packet protection.
    pub key: Vec<u8>,
    /// What the nonce is made from.
    pub iv: Vec<u8>,
    /// The key of the header protection.
    pub hp: Vec<u8>,
}

/// Keys as values.
pub ghost struct InitialKeysView {
    pub key: Seq<u8>,
    pub iv: Seq<u8>,
    pub hp: Seq<u8>,
}

impl View for InitialKeys {
    type V = InitialKeysView;

    open spec fn view(&self) -> InitialKeysView {
        InitialKeysView { key: self.key@, iv: self.iv@, hp: self.hp@ }
    }
}

/// The keys of the client for Initial packets to the connection id `dcid`.
pub open spec fn client_initial_keys(dcid: Seq<u8>) -> InitialKeysView {
    let secret = client_initial_secret(dcid);
    InitialKeysView {
        key: expand_label(secret, label_quic_key(), 16),
        iv: expand_label(secret, label_quic_iv(), 12),
        hp: expand_label(secret, label_quic_hp(), 16),
    }
}

/// Expands `secret` with a label.
fn hkdf_expand_label(secret: &[u8], label: &[u8], len: usize) -> (r: Option<Vec<u8>>)
    requires
        label@.len() <= 200,
        len <= 0xffff,
    ensures
        r matches Some(v) ==> v@ == expand_label(secret@, label@, len as nat) && v@.len() == len,
{
    let info = match hkdf_label(label, len as u16) {
        Some(info) => info,
        None => {
            return None;
        },
    };
    hkdf_sha256(secret, None, Some(info.as_slice()), false, len)
}

/// Derives the keys of the client for Initial packets to `dcid`. `None`
/// where the cryptographic library fails.
pub fn derive_client_initial_keys(dcid: &[u8]) -> (r: Option<InitialKeys>)
    ensures
        r matches Some(keys) ==> keys@ == client_initial_keys(dcid@) && keys.key@.len() == 16
            && keys.iv@.len() == 12 && keys.hp@.len() == 16,
{
    let salt: [u8; 20] = [
        0x38, 0x76, 0x2c, 0xf7, 0xf5, 0x59, 0x34, 0xb3, 0x4d, 0x17, 0x9a, 0xe6, 0xa4, 0xc8,
        0x0c, 0xad, 0xcc, 0xbb, 0x7f, 0x0a,
    ];
    let client_in: [u8; 9] = [0x63, 0x6c, 0x69, 0x65, 0x6e, 0x74, 0x20, 0x69, 0x6e];
    let quic_key: [u8; 8] = [0x71, 0x75, 0x69, 0x63, 0x20, 0x6b, 0x65, 0x79];
    let quic_iv: [u8; 7] = [0x71, 0x75, 0x69, 0x63, 0x20, 0x69, 0x76];
    let quic_hp: [u8; 7] = [0x71, 0x75, 0x69, 0x63, 0x20, 0x68, 0x70];
    assert(salt@ =~= initial_salt());
    assert(client_in@ =~= label_client_in());
    assert(quic_key@ =~= label_quic_key());
    assert(quic_iv@ =~= label_quic_iv());
    assert(quic_hp@ =~= label_quic_hp());
    let initial = match hkdf_sha256(dcid, Some(salt.as_slice()), None, true, 32) {
        Some(v) => v,
        None => {
            return None;
        },
    };
    let secret = match hkdf_expand_label(initial.as_slice(), client_in.as_slice(), 32) {
        Some(v) => v,
        None => {
            return None;
        },
    };
    let key = match hkdf_expand_label(secret.as_slice(), quic_key.as_slice(), 16) {
        Some(v) => v,
        None => {
            return None;
        },
    };
    let iv = match hkdf_expand_label(secret.as_slice(), quic_iv.as_slice(), 12) {
        Some(v) => v,
        None => {
            return None;
        },
    };
    let hp = match hkdf_expand_label(secret.as_slice(), quic_hp.as_slice(), 16) {
        Some(v) => v,
        None => {
            return None;
        },
    };
    Some(InitialKeys { key, iv, hp })
}

/// The five bytes that the protection of a header is made of: the start
/// of what AES gives for the sample under the header protection key.
pub open spec fn header_mask(hp: Seq<u8>, sample: Seq<u8>) -> Seq<u8> {
    aes_128_ecb_output(hp, sample).take(5)
}

/// Computes the mask of a header from a sample of the packet. `None`
/// where key or sample is not 16 bytes long, and where the cryptographic
/// library fails or gives fewer than five bytes.
pub fn header_protection_mask(hp: &[u8], sample: &[u8]) -> (r: Option<Vec<u8>>)
    ensures
        r matches Some(m) ==> m@ == header_mask(hp@, sample@) && m@.len() == 5 && mask_of(
            aes_128_ecb_output(hp@, sample@),
        ) == Some(m@),
        hp@.len() != AES_128_KEY_SIZE || sample@.len() != AES_128_KEY_SIZE ==> r is None,
{
    if hp.len() != AES_128_KEY_SIZE || sample.len() != AES_128_KEY_SIZE {
        return None;
    }
    match aes_128_ecb(hp, sample) {
        Some(out) => mask_from_output(out.as_slice()),
        None => None,
    }
}

/// The longest label that fits behind its byte of length, with the prefix
/// before it.
pub const MAX_LABEL_SIZE: usize = 249;

/// Writes what a label is expanded with, for an output of `len` bytes.
/// `None` for a label that is too long to be written.
pub fn hkdf_label(label: &[u8], len: u16) -> (r: Option<Vec<u8>>)
    ensures
        label@.len() <= MAX_LABEL_SIZE ==> (r matches Some(info) && info@ == label_info(
            label@,
            len as nat,
        )),
        label@.len() > MAX_LABEL_SIZE ==> r is None,
{
    if label.len() > MAX_LABEL_SIZE {
        return None;
    }
    let mut info: Vec<u8> = Vec::new();
    info.push((len / 256) as u8);
    info.push((len % 256) as u8);
    info.push((6 + label.len()) as u8);
    info.push(0x74);
    info.push(0x6c);
    info.push(0x73);
    info.push(0x31);
    info.push(0x33);
    info.push(0x20);
    info.extend_from_slice(label);
    info.push(0);
    assert(info@ =~= label_info(label@, len as nat));
    Some(info)
}

/// The mask that an output of AES gives: its first five bytes, if it has
/// five.
pub open spec fn mask_of(output: Seq<u8>) -> Option<Seq<u8>> {
    if output.len() >= 5 {
        Some(output.take(5))
    } else {
        None
    }
}

/// Takes the mask of a header from what AES gave for the sample.
pub fn mask_from_output(output: &[u8]) -> (r: Option<Vec<u8>>)
    ensures
        match mask_of(output@) {
            Some(m) => r matches Some(v) && v@ == m,
            None => r is None,
        },
{
    if output.len() < 5 {
        return None;
    }
    let mask = vstd::slice::slice_to_vec(vstd::slice::slice_subrange(output, 0, 5));
    assert(mask@ == output@.take(5));
    Some(mask)
}

} // verus!
