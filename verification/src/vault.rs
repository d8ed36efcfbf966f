//! A profile's secrets (the AI provider keys and the database key) sealed under its password.
//!
//! `vault.json` sits in the profile's folder; its presence is what "the profile has a password"
//! means. The password never opens the keys directly: Argon2id turns it into a key-encryption
//! key that seals a random data key, and the data key seals the keys. Changing the password
//! therefore re-seals 32 bytes, and "remember on this device" stores the data key, never the
//! password.
//!
//! The file is a value here, and so are the provider keys, held as the JSON text they are
//! sealed as. What is sealed under which key and for which purpose is decided and checked here;
//! reading and writing the file and the keychain is the host's.

use vstd::prelude::*;
use vstd::utf8::encode_utf8;
use crate::error::UiError;
use crate::paths::{join, joined_path};
use crate::text::{chars_of, concat, owned};
use chacha20poly1305::aead::{Aead, AeadCore, KeyInit};
use chacha20poly1305::aead::rand_core::RngCore;
use base64::Engine;

verus! {

/// The vault's file, in the profile's folder.
pub const FILE: &'static str = "vault.json";

/// The file layout this build reads and writes.
pub const VERSION: u32 = 1;

/// Keychain service of the remembered data keys; the account is `profile:<id>`.
pub const SERVICE: &'static str = "app.stonqs.desktop.ai";

/// Shortest password accepted, in characters. NIST SP 800-63B asks for at least eight characters
/// and nothing else: no composition rules, which only make passwords harder to remember.
pub const MIN_PASSWORD: usize = 8;

/// How hard Argon2id works for a new vault: memory in KiB, passes, lanes.
pub struct Cost {
    pub m_kib: u32,
    pub t: u32,
    pub p: u32,
}

impl Cost {
    /// 64 MiB, three passes, one lane: above OWASP's floor (19 MiB, two passes) and still well
    /// under a second on a phone. Stored per vault, so a later build can raise it without
    /// breaking the old files.
    pub fn standard() -> (c: Cost)
        ensures
            c.m_kib == 65536 && c.t == 3 && c.p == 1,
    {
        Cost { m_kib: 64 * 1024, t: 3, p: 1 }
    }
}

/// The Argon2id settings a vault was sealed with; the salt is base64.
pub struct Kdf {
    pub m_kib: u32,
    pub t: u32,
    pub p: u32,
    pub salt: String,
}

/// A sealed value: the nonce and the ciphertext with its tag, both base64.
pub struct Sealed {
    pub nonce: String,
    pub data: String,
}

/// What `vault.json` holds.
pub struct VaultFile {
    pub version: u32,
    pub kdf: Kdf,
    /// The data key, sealed with the key derived from the password.
    pub data_key: Sealed,
    /// The provider keys as JSON `{provider: key}`, sealed with the data key.
    pub keys: Sealed,
    /// The database's key, sealed with the data key. Absent in a vault made before the
    /// database was encrypted.
    pub db_key: Option<Sealed>,
}

// ---------------------------------------------------------------------------------------------
// What the outside crates compute.

/// `base64`'s standard alphabet, with padding, as it writes these bytes.
pub uninterp spec fn base64_text(bytes: Seq<u8>) -> Seq<char>;

/// What `base64`'s standard engine reads out of a text, when it is valid base64.
pub uninterp spec fn base64_bytes(text: Seq<char>) -> Option<Seq<u8>>;

/// The 32-byte key Argon2id (version 0x13) derives from a password and a salt at these costs.
pub uninterp spec fn argon2id_key(m_kib: int, t: int, p: int, salt: Seq<u8>, password: Seq<u8>) -> Seq<u8>;

/// XChaCha20-Poly1305's ciphertext and tag for a message under a key, a nonce and associated
/// data.
pub uninterp spec fn sealed_bytes(key: Seq<u8>, nonce: Seq<u8>, plain: Seq<u8>, aad: Seq<u8>) -> Seq<u8>;

/// What XChaCha20-Poly1305 decrypts out of a ciphertext and tag, when it authenticates.
pub uninterp spec fn opened_bytes(key: Seq<u8>, nonce: Seq<u8>, data: Seq<u8>, aad: Seq<u8>) -> Option<Seq<u8>>;

/// How long a message XChaCha20-Poly1305 seals: under 2^32 - 1 blocks of 64 bytes.
pub open spec fn sealable(plain: Seq<u8>) -> bool {
    plain.len() / 64 < 0xFFFF_FFFF
}

/// When Argon2id accepts its inputs: at least eight KiB per lane, one pass, one to 2^24 - 1
/// lanes, a salt of at least eight bytes, and lengths that fit in 32 bits.
pub open spec fn argon2_accepts(m_kib: int, t: int, p: int, salt_len: int, password_len: int) -> bool {
    &&& 8 <= m_kib
    &&& p * 8 <= m_kib
    &&& 1 <= t
    &&& 1 <= p <= 0xFF_FFFF
    &&& 8 <= salt_len <= 0xFFFF_FFFF
    &&& password_len <= 0xFFFF_FFFF
}

/// `STANDARD.encode(bytes)`. What it writes, the same engine's `decode` reads back.
#[verifier::external_body]
fn b64_encode(bytes: &[u8]) -> (s: String)
    ensures
        s@ == base64_text(bytes@),
        base64_bytes(s@) == Some(bytes@),
{
    base64::engine::general_purpose::STANDARD.encode(bytes)
}

/// `STANDARD.decode(text)`, its error as the error's text. What `encode` wrote, `decode` reads
/// back.
#[verifier::external_body]
fn b64_decode(text: &str) -> (decoded: Result<Vec<u8>, String>)
    ensures
        match decoded {
            Ok(b) => base64_bytes(text@) == Some(b@),
            Err(_) => base64_bytes(text@) is None,
        },
        forall|b: Seq<u8>| text@ == #[trigger] base64_text(b) ==> decoded is Ok && decoded->Ok_0@ == b,
{
    base64::engine::general_purpose::STANDARD.decode(text).map_err(|e| e.to_string())
}

/// Whether Argon2 takes these costs for a 32-byte key: eight KiB per lane at least (and eight
/// in all), one pass, one to 2^24 - 1 lanes.
pub open spec fn argon2_params_valid(m_kib: int, t: int, p: int) -> bool {
    &&& 8 <= m_kib
    &&& p * 8 <= m_kib
    &&& 1 <= t
    &&& 1 <= p <= 0xFF_FFFF
}

/// `Params::new(m_kib, t, p, Some(32))`, called only to learn whether it takes the costs; its
/// error as the error's text. It multiplies `p` by eight before it checks it, which overflows
/// (and panics in a debug build) for a `p` beyond 2^29 - 1 once `m_kib` is at least eight;
/// those inputs are excluded.
#[verifier::external_body]
fn argon2_params(m_kib: u32, t: u32, p: u32) -> (r: Result<(), String>)
    requires
        m_kib < 8 || p <= 0x1FFF_FFFF,
    ensures
        r is Ok <==> argon2_params_valid(m_kib as int, t as int, p as int),
{
    argon2::Params::new(m_kib, t, p, Some(32)).map(|_| ()).map_err(|e| e.to_string())
}

/// `Params::new(m_kib, t, p, Some(32))` and `Argon2::new(Argon2id, V0x13, params)
/// .hash_password_into(password, salt, ..)` into 32 bytes, the error as its text. `Params::new`
/// multiplies `p` by eight before it checks it, which overflows (and panics in a debug build)
/// for a `p` beyond 2^29 - 1 once `m_kib` is at least eight; those inputs are excluded. That
/// the memory asked for can be had is assumed.
#[verifier::external_body]
fn argon2id(m_kib: u32, t: u32, p: u32, salt: &[u8], password: &[u8]) -> (r: Result<[u8; 32], String>)
    requires
        m_kib < 8 || p <= 0x1FFF_FFFF,
    ensures
        r is Ok <==> argon2_accepts(m_kib as int, t as int, p as int, salt@.len() as int, password@.len() as int),
        r matches Ok(k) ==> k@ == argon2id_key(m_kib as int, t as int, p as int, salt@, password@),
{
    let params = argon2::Params::new(m_kib, t, p, Some(32)).map_err(|e| e.to_string())?;
    let mut out = [0u8; 32];
    argon2::Argon2::new(argon2::Algorithm::Argon2id, argon2::Version::V0x13, params)
        .hash_password_into(password, salt, &mut out)
        .map_err(|e| e.to_string())?;
    Ok(out)
}

/// `XChaCha20Poly1305::new(key).encrypt(nonce, Payload { msg: plain, aad })`: the ciphertext
/// followed by its 16-byte tag. It refuses only a message too long to seal.
#[verifier::external_body]
fn xchacha_seal(key: &[u8; 32], nonce: &[u8; 24], plain: &[u8], aad: &[u8]) -> (r: Option<Vec<u8>>)
    ensures
        r is Some <==> sealable(plain@),
        r matches Some(c) ==> c@ == sealed_bytes(key@, nonce@, plain@, aad@),
{
    let cipher = chacha20poly1305::XChaCha20Poly1305::new(key.into());
    cipher
        .encrypt(chacha20poly1305::XNonce::from_slice(nonce), chacha20poly1305::aead::Payload { msg: plain, aad })
        .ok()
}

/// `XChaCha20Poly1305::new(key).decrypt(nonce, Payload { msg: data, aad })`; `None` is a failed
/// authentication. What was sealed under the same key, nonce and associated data opens to the
/// message sealed: that is what authenticated encryption is.
#[verifier::external_body]
fn xchacha_open(key: &[u8; 32], nonce: &[u8], data: &[u8], aad: &[u8]) -> (opened: Option<Vec<u8>>)
    requires
        nonce@.len() == 24,
    ensures
        match opened {
            Some(p) => opened_bytes(key@, nonce@, data@, aad@) == Some(p@),
            None => opened_bytes(key@, nonce@, data@, aad@) is None,
        },
        forall|p: Seq<u8>|
            sealable(p) && data@ == #[trigger] sealed_bytes(key@, nonce@, p, aad@) ==> opened is Some
                && opened->0@ == p,
{
    let cipher = chacha20poly1305::XChaCha20Poly1305::new(key.into());
    cipher
        .decrypt(chacha20poly1305::XNonce::from_slice(nonce), chacha20poly1305::aead::Payload { msg: data, aad })
        .ok()
}

/// 32 bytes from the operating system's random source (`OsRng.fill_bytes`). Which bytes is
/// chance; that the source answers is assumed (`rand_core` panics when it does not).
#[verifier::external_body]
fn random_key() -> [u8; 32] {
    let mut key = [0u8; 32];
    chacha20poly1305::aead::OsRng.fill_bytes(&mut key);
    key
}

/// 16 bytes of salt from the operating system's random source, as `random_key`.
#[verifier::external_body]
fn random_salt() -> [u8; 16] {
    let mut salt = [0u8; 16];
    chacha20poly1305::aead::OsRng.fill_bytes(&mut salt);
    salt
}

/// `XChaCha20Poly1305::generate_nonce(&mut OsRng)`: 24 random bytes, as `random_key`.
#[verifier::external_body]
fn random_nonce() -> [u8; 24] {
    chacha20poly1305::XChaCha20Poly1305::generate_nonce(&mut chacha20poly1305::aead::OsRng).into()
}

// ---------------------------------------------------------------------------------------------
// Sealing, opening, deriving.

/// The associated data of a sealed value: it binds the ciphertext to its purpose and its
/// profile, so a sealed blob copied into another field or another profile's vault does not open
/// there.
pub open spec fn aad_text(purpose: Seq<char>, profile: Seq<char>) -> Seq<char> {
    "stonqs/vault/v1/"@ + purpose + "/"@ + profile
}

pub open spec fn aad_bytes(purpose: Seq<char>, profile: Seq<char>) -> Seq<u8> {
    encode_utf8(aad_text(purpose, profile))
}

pub fn aad(purpose: &str, profile: &str) -> (b: Vec<u8>)
    ensures
        b@ == aad_bytes(purpose@, profile@),
{
    let head = concat("stonqs/vault/v1/", purpose);
    let slash = concat(head.as_str(), "/");
    let text = concat(slash.as_str(), profile);
    text.as_str().as_bytes_vec()
}

/// Whether `s` holds `plain` sealed under `key` for `aad`, under some nonce.
pub open spec fn seals(s: Sealed, key: Seq<u8>, plain: Seq<u8>, aad: Seq<u8>) -> bool {
    &&& sealable(plain)
    &&& exists|n: Seq<u8>|
        n.len() == 24 && s.nonce@ == #[trigger] base64_text(n) && s.data@ == base64_text(
            sealed_bytes(key, n, plain, aad),
        )
}

/// What opening a sealed value gives: `None` when a field is not base64, the nonce is not 24
/// bytes, or the ciphertext does not authenticate.
pub open spec fn opens_to(s: Sealed, key: Seq<u8>, aad: Seq<u8>) -> Option<Seq<u8>> {
    match (base64_bytes(s.nonce@), base64_bytes(s.data@)) {
        (Some(n), Some(d)) => if n.len() == 24 {
            opened_bytes(key, n, d, aad)
        } else {
            None
        },
        _ => None,
    }
}

/// Seals `plain` under `key` for `aad`, with a fresh random nonce.
fn seal(key: &[u8; 32], plain: &[u8], aad: &[u8]) -> (r: Result<Sealed, UiError>)
    ensures
        r is Ok <==> sealable(plain@),
        r matches Ok(s) ==> seals(s, key@, plain@, aad@),
        r matches Err(e) ==> e is Internal,
{
    let nonce = random_nonce();
    match xchacha_seal(key, &nonce, plain, aad) {
        Some(data) => {
            let s = Sealed { nonce: b64_encode(&nonce), data: b64_encode(data.as_slice()) };
            assert(s.nonce@ == base64_text(nonce@));
            Ok(s)
        },
        None => Err(UiError::internal(owned("sealing failed"))),
    }
}

/// `None` is a failed authentication: a wrong key or a tampered file; both mean "not this key".
fn open(key: &[u8; 32], sealed: &Sealed, aad: &[u8]) -> (r: Option<Vec<u8>>)
    ensures
        match r {
            Some(p) => opens_to(*sealed, key@, aad@) == Some(p@),
            None => opens_to(*sealed, key@, aad@) is None,
        },
        forall|p: Seq<u8>| seals(*sealed, key@, p, aad@) ==> r is Some && r->0@ == p,
{
    let nonce = match b64_decode(sealed.nonce.as_str()) {
        Ok(n) => n,
        Err(_) => return None,
    };
    let data = match b64_decode(sealed.data.as_str()) {
        Ok(d) => d,
        Err(_) => return None,
    };
    if nonce.len() != 24 {
        return None;
    }
    let r = xchacha_open(key, nonce.as_slice(), data.as_slice(), aad);
    proof {
        assert forall|p: Seq<u8>| seals(*sealed, key@, p, aad@) implies r is Some && r->0@ == p by {
            let n = choose|n: Seq<u8>|
                n.len() == 24 && sealed.nonce@ == #[trigger] base64_text(n) && sealed.data@ == base64_text(
                    sealed_bytes(key@, n, p, aad@),
                );
            assert(nonce@ == n);
            assert(data@ == sealed_bytes(key@, n, p, aad@));
        }
    }
    r
}

/// The key a kdf and a password derive, when Argon2id takes them.
pub open spec fn kdf_key(kdf: Kdf, password: Seq<char>) -> Option<Seq<u8>> {
    match base64_bytes(kdf.salt@) {
        Some(salt) => if argon2_accepts(
            kdf.m_kib as int,
            kdf.t as int,
            kdf.p as int,
            salt.len() as int,
            encode_utf8(password).len() as int,
        ) {
            Some(argon2id_key(kdf.m_kib as int, kdf.t as int, kdf.p as int, salt, encode_utf8(password)))
        } else {
            None
        },
        None => None,
    }
}

/// The key the password derives under these settings. A lane count so large that Argon2's own
/// parameter check would overflow multiplying it by eight is refused here, as that check refuses
/// every count above 2^24 - 1 in the end.
fn derive(kdf: &Kdf, password: &str) -> (r: Result<[u8; 32], UiError>)
    ensures
        r is Ok <==> kdf_key(*kdf, password@) is Some,
        r matches Ok(k) ==> kdf_key(*kdf, password@) == Some(k@),
        r matches Err(e) ==> e is Internal,
{
    if kdf.m_kib >= 8 && kdf.p > 0x1FFF_FFFF {
        return Err(UiError::internal(owned("too many threads")));
    }
    match argon2_params(kdf.m_kib, kdf.t, kdf.p) {
        Ok(()) => {},
        Err(text) => return Err(UiError::internal(text)),
    }
    let salt = match b64_decode(kdf.salt.as_str()) {
        Ok(s) => s,
        Err(text) => return Err(UiError::internal(text)),
    };
    let bytes = password.as_bytes();
    match argon2id(kdf.m_kib, kdf.t, kdf.p, salt.as_slice(), bytes) {
        Ok(k) => Ok(k),
        Err(text) => Err(UiError::internal(text)),
    }
}

/// The first 32 bytes as a key, when there are exactly 32.
fn to_key(bytes: &Vec<u8>) -> (r: Result<[u8; 32], UiError>)
    ensures
        r is Ok <==> bytes@.len() == 32,
        r matches Ok(k) ==> k@ == bytes@,
        r matches Err(e) ==> e is Internal,
{
    if bytes.len() != 32 {
        return Err(UiError::internal(owned("a data key is 32 bytes")));
    }
    let mut key = [0u8; 32];
    let mut i: usize = 0;
    while i < 32
        invariant
            bytes@.len() == 32,
            i <= 32,
            forall|j: int| 0 <= j < i ==> key@[j] == bytes@[j],
        decreases 32 - i,
    {
        key.set(i, bytes[i]);
        i = i + 1;
    }
    assert(key@ =~= bytes@);
    Ok(key)
}

pub open spec fn short_password_message() -> Seq<char> {
    "the password is shorter than eight characters"@
}

/// At least `MIN_PASSWORD` characters; nothing else is asked of a password.
pub fn check_password(password: &str) -> (r: Result<(), UiError>)
    ensures
        r is Ok <==> password@.len() >= MIN_PASSWORD,
        r matches Err(e) ==> e is Invalid && e.message_of() == short_password_message(),
{
    if password.unicode_len() < MIN_PASSWORD {
        return Err(UiError::invalid(owned("the password is shorter than eight characters")));
    }
    Ok(())
}

pub open spec fn no_vault_message() -> Seq<char> {
    "the profile has no password"@
}

/// What reading a vault that is not there answers: the profile has no password.
pub fn no_vault() -> (e: UiError)
    ensures
        e is PasswordRequired && e.message_of() == no_vault_message(),
{
    UiError::PasswordRequired { message: owned("the profile has no password") }
}

pub open spec fn wrong_password_message() -> Seq<char> {
    "the password does not open this profile"@
}

/// A wrong password is its own error, never a generic failure: the user's next step is to type
/// it again.
pub fn wrong_password() -> (e: UiError)
    ensures
        e is WrongPassword && e.message_of() == wrong_password_message(),
{
    UiError::WrongPassword { message: owned("the password does not open this profile") }
}


// ---------------------------------------------------------------------------------------------
// The vault.

impl Kdf {
    pub fn copy(&self) -> (k: Kdf)
        ensures
            k == *self,
    {
        Kdf { m_kib: self.m_kib, t: self.t, p: self.p, salt: self.salt.clone() }
    }
}

impl Sealed {
    pub fn copy(&self) -> (s: Sealed)
        ensures
            s == *self,
    {
        Sealed { nonce: self.nonce.clone(), data: self.data.clone() }
    }
}

fn copy_sealed(s: &Option<Sealed>) -> (r: Option<Sealed>)
    ensures
        r == *s,
{
    match s {
        Some(x) => Some(x.copy()),
        None => None,
    }
}

/// Where a profile's vault is.
pub fn vault_path(folder: &str) -> (p: String)
    ensures
        p@ == joined_path(folder@, FILE@),
{
    join(folder, FILE)
}

/// Where the vault is written before it is renamed over the old one: a torn vault would lose
/// every key at once.
pub fn vault_temp_path(folder: &str) -> (p: String)
    ensures
        p@ == joined_path(folder@, FILE@ + ".tmp"@),
{
    let name = concat(FILE, ".tmp");
    join(folder, name.as_str())
}

/// The keychain account a profile's remembered data key is kept under.
pub fn account_for(profile: &str) -> (a: String)
    ensures
        a@ == "profile:"@ + profile@,
{
    concat("profile:", profile)
}

pub open spec fn purpose_data_key() -> Seq<char> {
    "data_key"@
}

pub open spec fn purpose_keys() -> Seq<char> {
    "keys"@
}

pub open spec fn purpose_db_key() -> Seq<char> {
    "db_key"@
}

/// The provider keys and the database key the data key opens in a file: `Err(true)` is a key
/// that does not open them, `Err(false)` any other failure.
pub open spec fn keys_result(f: VaultFile, profile: Seq<char>, data_key: Seq<u8>) -> Result<
    (Seq<u8>, Option<Seq<u8>>),
    bool,
> {
    match opens_to(f.keys, data_key, aad_bytes(purpose_keys(), profile)) {
        None => Err(true),
        Some(keys) => match f.db_key {
            None => Ok((keys, None)),
            Some(s) => match opens_to(s, data_key, aad_bytes(purpose_db_key(), profile)) {
                None => Err(true),
                Some(b) => if b.len() == 32 {
                    Ok((keys, Some(b)))
                } else {
                    Err(false)
                },
            },
        },
    }
}

/// What a password opens in a file: the data key, the provider keys and the database key.
pub open spec fn unlock_result(f: VaultFile, profile: Seq<char>, password: Seq<char>) -> Result<
    (Seq<u8>, Seq<u8>, Option<Seq<u8>>),
    bool,
> {
    if f.version != VERSION {
        Err(false)
    } else {
        match kdf_key(f.kdf, password) {
            None => Err(false),
            Some(kek) => match opens_to(f.data_key, kek, aad_bytes(purpose_data_key(), profile)) {
                None => Err(true),
                Some(b) => if b.len() != 32 {
                    Err(false)
                } else {
                    match keys_result(f, profile, b) {
                        Ok((keys, db)) => Ok((b, keys, db)),
                        Err(wrong) => Err(wrong),
                    }
                },
            },
        }
    }
}

/// The provider keys and the database key are sealed in the file under this data key.
pub open spec fn holds_keys(
    f: VaultFile,
    profile: Seq<char>,
    data_key: Seq<u8>,
    keys: Seq<u8>,
    db_key: Option<Seq<u8>>,
) -> bool {
    &&& f.version == VERSION
    &&& seals(f.keys, data_key, keys, aad_bytes(purpose_keys(), profile))
    &&& match db_key {
        Some(k) => k.len() == 32 && (f.db_key matches Some(s) && seals(
            s,
            data_key,
            k,
            aad_bytes(purpose_db_key(), profile),
        )),
        None => f.db_key is None,
    }
}

/// The data key is sealed in the file under the key this password derives.
pub open spec fn holds_data_key(f: VaultFile, profile: Seq<char>, password: Seq<char>, data_key: Seq<u8>) -> bool {
    &&& data_key.len() == 32
    &&& kdf_key(f.kdf, password) matches Some(kek) && seals(
        f.data_key,
        kek,
        data_key,
        aad_bytes(purpose_data_key(), profile),
    )
}

/// Everything the vault keeps, sealed as it should be under this password.
pub open spec fn vault_holds(
    f: VaultFile,
    profile: Seq<char>,
    password: Seq<char>,
    data_key: Seq<u8>,
    keys: Seq<u8>,
    db_key: Option<Seq<u8>>,
) -> bool {
    holds_data_key(f, profile, password, data_key) && holds_keys(f, profile, data_key, keys, db_key)
}

/// An open vault: the data key and what it sealed, in memory until the profile is locked or
/// left. The provider keys are the JSON text they are sealed as.
pub struct Unlocked {
    profile: String,
    data_key: [u8; 32],
    keys: Vec<u8>,
    db_key: Option<[u8; 32]>,
}

pub open spec fn key_view(k: Option<[u8; 32]>) -> Option<Seq<u8>> {
    match k {
        Some(a) => Some(a@),
        None => None,
    }
}

impl Unlocked {
    pub closed spec fn profile_id(&self) -> Seq<char> {
        self.profile@
    }

    pub closed spec fn data_key_bytes(&self) -> Seq<u8> {
        self.data_key@
    }

    pub closed spec fn keys_json(&self) -> Seq<u8> {
        self.keys@
    }

    pub closed spec fn db_key_bytes(&self) -> Option<Seq<u8>> {
        key_view(self.db_key)
    }

    /// The provider keys, as the JSON text `{provider: key}` they are sealed as.
    pub fn keys(&self) -> (k: &Vec<u8>)
        ensures
            k@ == self.keys_json(),
    {
        &self.keys
    }

    pub fn db_key(&self) -> (k: Option<[u8; 32]>)
        ensures
            key_view(k) == self.db_key_bytes(),
    {
        self.db_key
    }

    pub fn profile(&self) -> (p: &str)
        ensures
            p@ == self.profile_id(),
    {
        self.profile.as_str()
    }

    /// The file with the provider keys replaced by `next`, sealed under the data key. The host
    /// writes it, and only then gives the keys to `keys_written`: memory follows only once the
    /// file has taken the change.
    pub fn keys_file(&self, next: &[u8], file: &VaultFile) -> (r: Result<VaultFile, UiError>)
        ensures
            r is Ok <==> sealable(next@),
            r matches Ok(f) ==> {
                &&& f.version == file.version
                &&& f.kdf == file.kdf
                &&& f.data_key == file.data_key
                &&& f.db_key == file.db_key
                &&& seals(f.keys, self.data_key_bytes(), next@, aad_bytes(purpose_keys(), self.profile_id()))
            },
            forall|pw: Seq<char>, k: Seq<u8>, db: Option<Seq<u8>>|
                #[trigger] vault_holds(*file, self.profile_id(), pw, self.data_key_bytes(), k, db) && r is Ok
                    ==> vault_holds(r->Ok_0, self.profile_id(), pw, self.data_key_bytes(), next@, db),
            r matches Err(e) ==> e is Internal,
    {
        let purpose = aad("keys", self.profile.as_str());
        let sealed = match seal(&self.data_key, next, purpose.as_slice()) {
            Ok(s) => s,
            Err(e) => return Err(e),
        };
        Ok(VaultFile {
            version: file.version,
            kdf: file.kdf.copy(),
            data_key: file.data_key.copy(),
            keys: sealed,
            db_key: copy_sealed(&file.db_key),
        })
    }

    /// The file has taken these keys; memory follows.
    pub fn keys_written(&mut self, next: Vec<u8>)
        ensures
            final(self).keys_json() == next@,
            final(self).profile_id() == old(self).profile_id(),
            final(self).data_key_bytes() == old(self).data_key_bytes(),
            final(self).db_key_bytes() == old(self).db_key_bytes(),
    {
        self.keys = next;
    }

    /// A database key for a vault made before the database was encrypted, and the file with it
    /// sealed in. The host writes the file, and only then gives the key to `db_key_written`.
    pub fn fresh_db_key(&self, file: &VaultFile) -> (r: Result<([u8; 32], VaultFile), UiError>)
        ensures
            r is Ok,
            r matches Ok((k, f)) ==> {
                &&& f.version == file.version
                &&& f.kdf == file.kdf
                &&& f.data_key == file.data_key
                &&& f.keys == file.keys
                &&& f.db_key matches Some(s) && seals(
                    s,
                    self.data_key_bytes(),
                    k@,
                    aad_bytes(purpose_db_key(), self.profile_id()),
                )
            },
            forall|pw: Seq<char>, keys: Seq<u8>|
                #[trigger] vault_holds(*file, self.profile_id(), pw, self.data_key_bytes(), keys, None) && r is Ok
                    ==> vault_holds(
                    r->Ok_0.1,
                    self.profile_id(),
                    pw,
                    self.data_key_bytes(),
                    keys,
                    Some(r->Ok_0.0@),
                ),
            r matches Err(e) ==> e is Internal,
    {
        let key = random_key();
        let purpose = aad("db_key", self.profile.as_str());
        let sealed = match seal(&self.data_key, &key, purpose.as_slice()) {
            Ok(s) => s,
            Err(e) => return Err(e),
        };
        let f = VaultFile {
            version: file.version,
            kdf: file.kdf.copy(),
            data_key: file.data_key.copy(),
            keys: file.keys.copy(),
            db_key: Some(sealed),
        };
        Ok((key, f))
    }

    /// The file has taken this database key; memory follows.
    pub fn db_key_written(&mut self, key: [u8; 32])
        ensures
            final(self).db_key_bytes() == Some(key@),
            final(self).profile_id() == old(self).profile_id(),
            final(self).data_key_bytes() == old(self).data_key_bytes(),
            final(self).keys_json() == old(self).keys_json(),
    {
        self.db_key = Some(key);
    }

    /// Re-seals the data key under a new password, in a fresh salt at `cost`. The current
    /// password is asked again even though the vault is open: an unlocked, unattended app must
    /// not be enough to take it over. What else the file seals is left as it was, so the same
    /// keys open with the new password, and a device that remembered the data key keeps working.
    pub fn change_password(&self, file: &VaultFile, current: &str, new: &str, cost: &Cost) -> (r: Result<VaultFile, UiError>)
        ensures
            r is Ok <==> new@.len() >= MIN_PASSWORD && unlock_result(*file, self.profile_id(), current@) is Ok
                && argon2_accepts(
                cost.m_kib as int,
                cost.t as int,
                cost.p as int,
                16,
                encode_utf8(new@).len() as int,
            ),
            r matches Ok(f) ==> {
                &&& new@.len() >= MIN_PASSWORD
                &&& unlock_result(*file, self.profile_id(), current@) is Ok
                &&& f.version == file.version
                &&& f.keys == file.keys
                &&& f.db_key == file.db_key
                &&& f.kdf.m_kib == cost.m_kib && f.kdf.t == cost.t && f.kdf.p == cost.p
                &&& holds_data_key(f, self.profile_id(), new@, self.data_key_bytes())
            },
            forall|k: Seq<u8>, db: Option<Seq<u8>>|
                #[trigger] holds_keys(*file, self.profile_id(), self.data_key_bytes(), k, db) && r is Ok
                    ==> vault_holds(r->Ok_0, self.profile_id(), new@, self.data_key_bytes(), k, db),
            r matches Err(e) ==> if new@.len() < MIN_PASSWORD {
                e is Invalid && e.message_of() == short_password_message()
            } else if unlock_result(*file, self.profile_id(), current@) is Err {
                if unlock_result(*file, self.profile_id(), current@)->Err_0 {
                    e is WrongPassword && e.message_of() == wrong_password_message()
                } else {
                    e is Internal
                }
            } else {
                e is Internal
            },
    {
        match check_password(new) {
            Ok(()) => {},
            Err(e) => return Err(e),
        }
        match unlock(file, self.profile.as_str(), current) {
            Ok(_) => {},
            Err(e) => return Err(e),
        }
        let kdf = fresh_kdf(cost);
        let sealed = match seal_data_key(&kdf, new, self.profile.as_str(), &self.data_key) {
            Ok(s) => s,
            Err(e) => return Err(e),
        };
        Ok(VaultFile {
            version: file.version,
            kdf,
            data_key: sealed,
            keys: file.keys.copy(),
            db_key: copy_sealed(&file.db_key),
        })
    }

    /// The data key as the keychain keeps it, so this device opens the profile without asking.
    pub fn remembered_text(&self) -> (s: String)
        ensures
            s@ == base64_text(self.data_key_bytes()),
    {
        b64_encode(&self.data_key)
    }
}

/// Settings for a new vault at this cost, with 16 bytes of fresh random salt.
fn fresh_kdf(cost: &Cost) -> (k: Kdf)
    ensures
        k.m_kib == cost.m_kib && k.t == cost.t && k.p == cost.p,
        base64_bytes(k.salt@) matches Some(salt) && salt.len() == 16,
{
    let salt = random_salt();
    let text = b64_encode(&salt);
    Kdf { m_kib: cost.m_kib, t: cost.t, p: cost.p, salt: text }
}

/// The data key sealed under the key the password derives.
fn seal_data_key(kdf: &Kdf, password: &str, profile: &str, data_key: &[u8; 32]) -> (r: Result<Sealed, UiError>)
    ensures
        r is Ok <==> kdf_key(*kdf, password@) is Some,
        r matches Ok(s) ==> kdf_key(*kdf, password@) matches Some(kek) && seals(
            s,
            kek,
            data_key@,
            aad_bytes(purpose_data_key(), profile@),
        ),
        r matches Err(e) ==> e is Internal,
{
    let kek = match derive(kdf, password) {
        Ok(k) => k,
        Err(e) => return Err(e),
    };
    let purpose = aad("data_key", profile);
    seal(&kek, data_key, purpose.as_slice())
}

/// Opens the provider keys and the database key with a data key.
fn open_keys(profile: &str, data_key: [u8; 32], file: &VaultFile) -> (r: Result<Unlocked, UiError>)
    ensures
        match (r, keys_result(*file, profile@, data_key@)) {
            (Ok(u), Ok((keys, db))) => u.profile_id() == profile@ && u.data_key_bytes() == data_key@
                && u.keys_json() == keys && u.db_key_bytes() == db,
            (Err(e), Err(wrong)) => if wrong {
                e is WrongPassword && e.message_of() == wrong_password_message()
            } else {
                e is Internal
            },
            _ => false,
        },
        forall|keys: Seq<u8>, db: Option<Seq<u8>>|
            #[trigger] holds_keys(*file, profile@, data_key@, keys, db) ==> opened_as(r, keys, db),
{
    let purpose = aad("keys", profile);
    let keys = match open(&data_key, &file.keys, purpose.as_slice()) {
        Some(k) => k,
        None => return Err(wrong_password()),
    };
    let db_key = match &file.db_key {
        Some(sealed) => {
            let purpose = aad("db_key", profile);
            match open(&data_key, sealed, purpose.as_slice()) {
                Some(bytes) => match to_key(&bytes) {
                    Ok(k) => Some(k),
                    Err(e) => return Err(e),
                },
                None => return Err(wrong_password()),
            }
        },
        None => None,
    };
    Ok(Unlocked { profile: owned(profile), data_key, keys, db_key })
}

/// The keys came out as they were sealed.
pub open spec fn opened_as(r: Result<Unlocked, UiError>, keys: Seq<u8>, db: Option<Seq<u8>>) -> bool {
    r is Ok && r->Ok_0.keys_json() == keys && r->Ok_0.db_key_bytes() == db
}

pub open spec fn already_protected_message() -> Seq<char> {
    "the profile already has a password"@
}

/// Gives a profile its password. `keys` are what it starts with (as JSON text): the device-wide
/// keys of a profile that had them before passwords existed, or none. `protected` says whether
/// the profile already has a vault. Returns the open vault and the file the host writes.
pub fn create(protected: bool, profile: &str, password: &str, keys: Vec<u8>, cost: &Cost) -> (r: Result<(Unlocked, VaultFile), UiError>)
    ensures
        r is Ok <==> !protected && password@.len() >= MIN_PASSWORD && argon2_accepts(
            cost.m_kib as int,
            cost.t as int,
            cost.p as int,
            16,
            encode_utf8(password@).len() as int,
        ) && sealable(keys@),
        r matches Ok((u, f)) ==> {
            &&& u.profile_id() == profile@
            &&& u.keys_json() == keys@
            &&& u.db_key_bytes() is Some
            &&& f.kdf.m_kib == cost.m_kib && f.kdf.t == cost.t && f.kdf.p == cost.p
            &&& vault_holds(f, profile@, password@, u.data_key_bytes(), keys@, u.db_key_bytes())
        },
        r matches Err(e) ==> if protected {
            e is Invalid && e.message_of() == already_protected_message()
        } else if password@.len() < MIN_PASSWORD {
            e is Invalid && e.message_of() == short_password_message()
        } else {
            e is Internal
        },
{
    if protected {
        return Err(UiError::invalid(owned("the profile already has a password")));
    }
    match check_password(password) {
        Ok(()) => {},
        Err(e) => return Err(e),
    }
    let data_key = random_key();
    let db_key = random_key();
    let kdf = fresh_kdf(cost);
    let sealed_data_key = match seal_data_key(&kdf, password, profile, &data_key) {
        Ok(s) => s,
        Err(e) => return Err(e),
    };
    let keys_purpose = aad("keys", profile);
    let sealed_keys = match seal(&data_key, keys.as_slice(), keys_purpose.as_slice()) {
        Ok(s) => s,
        Err(e) => return Err(e),
    };
    let db_purpose = aad("db_key", profile);
    let sealed_db_key = match seal(&data_key, &db_key, db_purpose.as_slice()) {
        Ok(s) => s,
        Err(e) => return Err(e),
    };
    let file = VaultFile {
        version: VERSION,
        kdf,
        data_key: sealed_data_key,
        keys: sealed_keys,
        db_key: Some(sealed_db_key),
    };
    let unlocked = Unlocked { profile: owned(profile), data_key, keys, db_key: Some(db_key) };
    Ok((unlocked, file))
}

pub open spec fn unknown_version_message(v: nat) -> Seq<char> {
    "vault version "@ + crate::text::digits(v) + " is unknown"@
}

/// Opens the vault with the password. A wrong one is `WrongPassword`, never a generic failure:
/// the user's next step is to type it again. A file of another version is not read.
pub fn unlock(file: &VaultFile, profile: &str, password: &str) -> (r: Result<Unlocked, UiError>)
    ensures
        match (r, unlock_result(*file, profile@, password@)) {
            (Ok(u), Ok((dk, keys, db))) => u.profile_id() == profile@ && u.data_key_bytes() == dk
                && u.keys_json() == keys && u.db_key_bytes() == db,
            (Err(e), Err(wrong)) => if wrong {
                e is WrongPassword && e.message_of() == wrong_password_message()
            } else if file.version != VERSION {
                e is Internal && e.message_of() == unknown_version_message(file.version as nat)
            } else {
                e is Internal
            },
            _ => false,
        },
        forall|dk: Seq<u8>, keys: Seq<u8>, db: Option<Seq<u8>>|
            #[trigger] vault_holds(*file, profile@, password@, dk, keys, db) ==> opened_as(r, keys, db)
                && r->Ok_0.data_key_bytes() == dk,
{
    if file.version != VERSION {
        let text = crate::text::number_text(file.version as u64);
        let head = concat("vault version ", text.as_str());
        return Err(UiError::internal(concat(head.as_str(), " is unknown")));
    }
    let kek = match derive(&file.kdf, password) {
        Ok(k) => k,
        Err(e) => return Err(e),
    };
    let purpose = aad("data_key", profile);
    let bytes = match open(&kek, &file.data_key, purpose.as_slice()) {
        Some(b) => b,
        None => return Err(wrong_password()),
    };
    let data_key = match to_key(&bytes) {
        Ok(k) => k,
        Err(e) => return Err(e),
    };
    open_keys(profile, data_key, file)
}

/// Opens the vault with a data key remembered on this device. A remembered key that no longer
/// opens the vault (the vault was recreated) is a wrong key, and the answer to it is the
/// password.
pub fn unlock_with(file: &VaultFile, profile: &str, data_key: [u8; 32]) -> (r: Result<Unlocked, UiError>)
    ensures
        match r {
            Ok(u) => file.version == VERSION && keys_result(*file, profile@, data_key@) == Ok::<
                (Seq<u8>, Option<Seq<u8>>),
                bool,
            >((u.keys_json(), u.db_key_bytes())) && u.profile_id() == profile@ && u.data_key_bytes()
                == data_key@,
            Err(e) => if file.version != VERSION {
                e is Internal && e.message_of() == unknown_version_message(file.version as nat)
            } else {
                keys_result(*file, profile@, data_key@) matches Err(wrong) && if wrong {
                    e is WrongPassword && e.message_of() == wrong_password_message()
                } else {
                    e is Internal
                }
            },
        },
        forall|keys: Seq<u8>, db: Option<Seq<u8>>|
            #[trigger] holds_keys(*file, profile@, data_key@, keys, db) ==> opened_as(r, keys, db),
{
    if file.version != VERSION {
        let text = crate::text::number_text(file.version as u64);
        let head = concat("vault version ", text.as_str());
        return Err(UiError::internal(concat(head.as_str(), " is unknown")));
    }
    open_keys(profile, data_key, file)
}

/// The data key this device remembers for a profile, read out of what the keychain holds.
pub fn recalled_key(encoded: &str) -> (r: Result<[u8; 32], UiError>)
    ensures
        match r {
            Ok(k) => base64_bytes(encoded@) == Some(k@),
            Err(e) => e is Internal && !(base64_bytes(encoded@) matches Some(b) && b.len() == 32),
        },
        forall|k: Seq<u8>| k.len() == 32 && encoded@ == #[trigger] base64_text(k) ==> r is Ok && r->Ok_0@ == k,
{
    let bytes = match b64_decode(encoded) {
        Ok(b) => b,
        Err(text) => return Err(UiError::internal(text)),
    };
    to_key(&bytes)
}

} // verus!
