//! Layout of an encrypted vault file:
//! `[salt length: 1 byte][salt][nonce: 24 bytes][ciphertext]`.
use vstd::prelude::*;
use vstd::slice::*;
use vstd::string::*;
use vstd::utf8::*;
use crate::codec::utf8_text;

verus! {

broadcast use encode_utf8_decode_utf8, encode_utf8_valid_utf8;

/// Length of the XChaCha20-Poly1305 nonce.
pub const NONCE_SIZE: usize = 24;

/// Bytes overwritten per write when wiping a file.
pub const WIPE_CHUNK: u64 = 4096;

/// Why a vault file could not be written or read.
#[derive(Clone, Copy, Debug, PartialEq, Eq, Structural)]
pub enum VaultError {
    /// The salt does not fit its one-byte length.
    SaltTooLong,
    /// The file is shorter than a length byte and a nonce.
    TooShort,
    /// The file is shorter than its salt length asks for.
    Truncated,
    /// The stored salt is not UTF-8 text.
    InvalidSalt,
    /// The key derivation refused the PIN or the salt.
    KeyDerivation,
    /// The derived key is not 32 bytes long.
    KeyLength,
    /// Encryption failed.
    Encryption,
    /// Decryption failed: wrong PIN or corrupted file.
    Decryption,
}

impl VaultError {
    pub fn message(&self) -> (r: &'static str)
        ensures
            r@ == (match *self {
                VaultError::SaltTooLong => "Salt too long"@,
                VaultError::TooShort => "Invalid file format"@,
                VaultError::Truncated => "Invalid file format (short)"@,
                VaultError::InvalidSalt => "Invalid salt encoding"@,
                VaultError::KeyDerivation => "Hash failed"@,
                VaultError::KeyLength => "Derived key length invalid"@,
                VaultError::Encryption => "Encryption failed"@,
                VaultError::Decryption => "Decryption failed: Incorrect PIN or corrupted file"@,
            }),
    {
        match self {
            VaultError::SaltTooLong => "Salt too long",
            VaultError::TooShort => "Invalid file format",
            VaultError::Truncated => "Invalid file format (short)",
            VaultError::InvalidSalt => "Invalid salt encoding",
            VaultError::KeyDerivation => "Hash failed",
            VaultError::KeyLength => "Derived key length invalid",
            VaultError::Encryption => "Encryption failed",
            VaultError::Decryption => "Decryption failed: Incorrect PIN or corrupted file",
        }
    }
}

/// The parts of a vault file.
#[derive(Debug)]
pub struct VaultParts {
    pub salt: Vec<u8>,
    pub nonce: Vec<u8>,
    pub ciphertext: Vec<u8>,
}

/// The bytes of a vault file.
pub open spec fn frame_spec(salt: Seq<u8>, nonce: Seq<u8>, ciphertext: Seq<u8>) -> Seq<u8> {
    seq![salt.len() as u8] + salt + nonce + ciphertext
}

/// Reading a vault file: `(salt, nonce, ciphertext)`, or the error.
pub open spec fn parse_spec(buf: Seq<u8>) -> Result<(Seq<u8>, Seq<u8>, Seq<u8>), VaultError> {
    if buf.len() < 1 + NONCE_SIZE {
        Err(VaultError::TooShort)
    } else {
        let s = buf[0] as int;
        if buf.len() < 1 + s + NONCE_SIZE {
            Err(VaultError::Truncated)
        } else {
            Ok((
                buf.subrange(1, 1 + s),
                buf.subrange(1 + s, 1 + s + NONCE_SIZE),
                buf.subrange(1 + s + NONCE_SIZE, buf.len() as int),
            ))
        }
    }
}

/// Copies `b[from..to]`.
fn copy_range(b: &[u8], from: usize, to: usize) -> (r: Vec<u8>)
    requires
        from <= to <= b@.len(),
    ensures
        r@ == b@.subrange(from as int, to as int),
{
    let mut out: Vec<u8> = Vec::new();
    let mut i = from;
    while i < to
        invariant
            from <= i <= to,
            to <= b@.len(),
            out@ == b@.subrange(from as int, i as int),
        decreases to - i,
    {
        out.push(b[i]);
        proof {
            assert(b@.subrange(from as int, i + 1) =~= b@.subrange(from as int, i as int).push(b@[i as int]));
        }
        i = i + 1;
    }
    out
}

/// Appends all of `b` to `out`.
fn append_all(out: &mut Vec<u8>, b: &[u8])
    ensures
        final(out)@ == old(out)@ + b@,
{
    let mut i: usize = 0;
    while i < b.len()
        invariant
            i <= b@.len(),
            out@ == old(out)@ + b@.subrange(0, i as int),
        decreases b@.len() - i,
    {
        out.push(b[i]);
        proof {
            assert(b@.subrange(0, i + 1) =~= b@.subrange(0, i as int).push(b@[i as int]));
        }
        i = i + 1;
    }
    proof {
        assert(b@.subrange(0, b@.len() as int) =~= b@);
    }
}

/// Lays out a vault file; a salt longer than 255 bytes is refused.
pub fn frame_vault_file(salt: &[u8], nonce: &[u8; 24], ciphertext: &[u8]) -> (r: Result<Vec<u8>, VaultError>)
    ensures
        salt@.len() > 255 ==> (r matches Err(e) && e == VaultError::SaltTooLong),
        salt@.len() <= 255 ==> (r matches Ok(v) && v@ == frame_spec(salt@, nonce@, ciphertext@)),
{
    if salt.len() > 255 {
        return Err(VaultError::SaltTooLong);
    }
    let mut out: Vec<u8> = Vec::new();
    out.push(salt.len() as u8);
    append_all(&mut out, salt);
    append_all(&mut out, nonce.as_slice());
    append_all(&mut out, ciphertext);
    proof {
        assert(out@ =~= frame_spec(salt@, nonce@, ciphertext@));
    }
    Ok(out)
}

/// Reads the parts of a vault file.
pub fn parse_vault_file(buf: &[u8]) -> (r: Result<VaultParts, VaultError>)
    ensures
        match parse_spec(buf@) {
            Ok((s, n, c)) => r matches Ok(p) && p.salt@ == s && p.nonce@ == n && p.ciphertext@ == c,
            Err(e) => r matches Err(e2) && e2 == e,
        },
{
    let len = buf.len();
    if len < 1 + NONCE_SIZE {
        return Err(VaultError::TooShort);
    }
    let s = buf[0] as usize;
    if len < 1 + s + NONCE_SIZE {
        return Err(VaultError::Truncated);
    }
    let salt = copy_range(buf, 1, 1 + s);
    let nonce = copy_range(buf, 1 + s, 1 + s + NONCE_SIZE);
    let ciphertext = copy_range(buf, 1 + s + NONCE_SIZE, len);
    Ok(VaultParts { salt, nonce, ciphertext })
}

/// Reading a laid-out vault file gives back its salt, nonce and ciphertext.
pub proof fn lemma_vault_round_trip(salt: Seq<u8>, nonce: Seq<u8>, ciphertext: Seq<u8>)
    requires
        salt.len() <= 255,
        nonce.len() == NONCE_SIZE,
    ensures
        parse_spec(frame_spec(salt, nonce, ciphertext)) == Ok::<_, VaultError>((salt, nonce, ciphertext)),
{
    let b = frame_spec(salt, nonce, ciphertext);
    let s = salt.len() as int;
    assert(b[0] as int == s);
    assert(b.subrange(1, 1 + s) =~= salt);
    assert(b.subrange(1 + s, 1 + s + NONCE_SIZE) =~= nonce);
    assert(b.subrange(1 + s + NONCE_SIZE, b.len() as int) =~= ciphertext);
}

/// The Argon2 (default parameters) hash output for a PIN and a B64 salt;
/// `None` where the salt is not valid B64 salt text or hashing fails.
pub uninterp spec fn argon2_output(pin: Seq<u8>, salt: Seq<char>) -> Option<Seq<u8>>;

/// XChaCha20-Poly1305 ciphertext of `plaintext` under `key` and `nonce`;
/// `None` where encryption fails.
pub uninterp spec fn xchacha_sealed(key: Seq<u8>, nonce: Seq<u8>, plaintext: Seq<u8>) -> Option<Seq<u8>>;

/// XChaCha20-Poly1305 plaintext of `ciphertext` under `key` and `nonce`;
/// `None` where authentication fails.
pub uninterp spec fn xchacha_opened(key: Seq<u8>, nonce: Seq<u8>, ciphertext: Seq<u8>) -> Option<Seq<u8>>;

/// Relies on `Salt::from_b64` and `Argon2::default().hash_password`: the hash
/// output bytes, which depend on the PIN and the salt alone.
#[verifier::external_body]
fn derive_key(pin: &[u8], salt: &str) -> (r: Option<Vec<u8>>)
    ensures
        match r {
            Some(k) => argon2_output(pin@, salt@) == Some(k@),
            None => argon2_output(pin@, salt@) is None,
        },
{
    let salt = match argon2::password_hash::Salt::from_b64(salt) {
        Ok(s) => s,
        Err(_) => return None,
    };
    match argon2::PasswordHasher::hash_password(&argon2::Argon2::default(), pin, salt) {
        Ok(h) => h.hash.map(|o| o.as_bytes().to_vec()),
        Err(_) => None,
    }
}

/// Relies on `XChaCha20Poly1305::encrypt`: the ciphertext is as long as the
/// plaintext, followed by a 16-byte tag (`Key::from_slice` panics on a key
/// that is not 32 bytes long).
#[verifier::external_body]
fn seal(key: &[u8], nonce: &[u8; 24], plaintext: &[u8]) -> (r: Option<Vec<u8>>)
    requires
        key@.len() == 32,
    ensures
        match r {
            Some(c) => xchacha_sealed(key@, nonce@, plaintext@) == Some(c@),
            None => xchacha_sealed(key@, nonce@, plaintext@) is None,
        },
        r matches Some(c) ==> c@.len() == plaintext@.len() + 16,
{
    let cipher = <chacha20poly1305::XChaCha20Poly1305 as chacha20poly1305::KeyInit>::new(
        chacha20poly1305::Key::from_slice(key),
    );
    chacha20poly1305::aead::Aead::encrypt(&cipher, chacha20poly1305::XNonce::from_slice(nonce), plaintext).ok()
}

/// Relies on `XChaCha20Poly1305::decrypt`: it inverts `encrypt` under the
/// same key and nonce (`XNonce::from_slice` panics on a nonce that is not 24
/// bytes long).
#[verifier::external_body]
fn open(key: &[u8], nonce: &[u8], ciphertext: &[u8]) -> (r: Option<Vec<u8>>)
    requires
        key@.len() == 32,
        nonce@.len() == 24,
    ensures
        match r {
            Some(p) => xchacha_opened(key@, nonce@, ciphertext@) == Some(p@),
            None => xchacha_opened(key@, nonce@, ciphertext@) is None,
        },
        forall|p: Seq<u8>| #[trigger] xchacha_sealed(key@, nonce@, p) == Some(ciphertext@) ==> r is Some
            && r->Some_0@ == p,
{
    let cipher = <chacha20poly1305::XChaCha20Poly1305 as chacha20poly1305::KeyInit>::new(
        chacha20poly1305::Key::from_slice(key),
    );
    chacha20poly1305::aead::Aead::decrypt(&cipher, chacha20poly1305::XNonce::from_slice(nonce), ciphertext).ok()
}

/// Relies on `SaltString::generate` with the operating system's generator:
/// a fresh random salt, in B64 text.
#[verifier::external_body]
fn fresh_salt() -> (r: String) {
    argon2::password_hash::SaltString::generate(&mut argon2::password_hash::rand_core::OsRng).as_str().to_string()
}

/// Relies on the operating system's generator (`OsRng::fill_bytes`): a fresh
/// random nonce.
#[verifier::external_body]
fn fresh_nonce() -> (r: [u8; 24]) {
    let mut n = [0u8; 24];
    rand::RngCore::fill_bytes(&mut chacha20poly1305::aead::OsRng, &mut n);
    n
}

/// Sealing a plaintext into vault file bytes, given the salt and the nonce.
pub open spec fn seal_spec(pin: Seq<u8>, salt: Seq<char>, nonce: Seq<u8>, plaintext: Seq<u8>) -> Result<
    Seq<u8>,
    VaultError,
> {
    match argon2_output(pin, salt) {
        None => Err(VaultError::KeyDerivation),
        Some(k) => if k.len() != 32 {
            Err(VaultError::KeyLength)
        } else {
            match xchacha_sealed(k, nonce, plaintext) {
                None => Err(VaultError::Encryption),
                Some(c) => if encode_utf8(salt).len() > 255 {
                    Err(VaultError::SaltTooLong)
                } else {
                    Ok(frame_spec(encode_utf8(salt), nonce, c))
                },
            }
        },
    }
}

/// Opening vault file bytes with a PIN.
pub open spec fn open_spec(pin: Seq<u8>, file: Seq<u8>) -> Result<Seq<u8>, VaultError> {
    match parse_spec(file) {
        Err(e) => Err(e),
        Ok((s, n, c)) => if !valid_utf8(s) {
            Err(VaultError::InvalidSalt)
        } else {
            match argon2_output(pin, decode_utf8(s)) {
                None => Err(VaultError::KeyDerivation),
                Some(k) => if k.len() != 32 {
                    Err(VaultError::KeyLength)
                } else {
                    match xchacha_opened(k, n, c) {
                        None => Err(VaultError::Decryption),
                        Some(p) => Ok(p),
                    }
                },
            }
        },
    }
}

/// Seals `plaintext` into vault file bytes: the key comes from the PIN and
/// the salt, and the file carries the salt and the nonce in front of the
/// ciphertext.
pub fn seal_vault(pin: &[u8], salt: &str, nonce: &[u8; 24], plaintext: &[u8]) -> (r: Result<Vec<u8>, VaultError>)
    ensures
        match seal_spec(pin@, salt@, nonce@, plaintext@) {
            Ok(b) => r matches Ok(v) && v@ == b,
            Err(e) => r matches Err(e2) && e2 == e,
        },
{
    let key = match derive_key(pin, salt) {
        None => return Err(VaultError::KeyDerivation),
        Some(k) => k,
    };
    if key.len() != 32 {
        return Err(VaultError::KeyLength);
    }
    let ciphertext = match seal(key.as_slice(), nonce, plaintext) {
        None => return Err(VaultError::Encryption),
        Some(c) => c,
    };
    frame_vault_file(salt.as_bytes(), nonce, ciphertext.as_slice())
}

/// Encrypts `plaintext` under the PIN with a fresh salt and nonce.
pub fn encrypt_vault(pin: &[u8], plaintext: &[u8]) -> (r: Result<Vec<u8>, VaultError>)
    ensures
        r matches Ok(v) ==> exists|salt: Seq<char>, nonce: Seq<u8>|
            nonce.len() == NONCE_SIZE && #[trigger] seal_spec(pin@, salt, nonce, plaintext@) == Ok::<_, VaultError>(v@),
        r matches Err(e) ==> exists|salt: Seq<char>, nonce: Seq<u8>|
            nonce.len() == NONCE_SIZE && #[trigger] seal_spec(pin@, salt, nonce, plaintext@) == Err::<Seq<u8>, _>(e),
{
    let salt = fresh_salt();
    let nonce = fresh_nonce();
    seal_vault(pin, salt.as_str(), &nonce, plaintext)
}

/// Opens vault file bytes with a PIN and returns the plaintext.
pub fn open_vault(pin: &[u8], file: &[u8]) -> (r: Result<Vec<u8>, VaultError>)
    ensures
        match open_spec(pin@, file@) {
            Ok(p) => r matches Ok(v) && v@ == p,
            Err(e) => r matches Err(e2) && e2 == e,
        },
        // a file sealed under the same PIN opens to its plaintext
        forall|salt: Seq<char>, nonce: Seq<u8>, p: Seq<u8>|
            nonce.len() == NONCE_SIZE && #[trigger] seal_spec(pin@, salt, nonce, p) == Ok::<_, VaultError>(file@)
                ==> (r matches Ok(v) && v@ == p),
{
    let parts = match parse_vault_file(file) {
        Err(e) => return Err(e),
        Ok(p) => p,
    };
    let ghost s = parts.salt@;
    let ghost n = parts.nonce@;
    let ghost c = parts.ciphertext@;
    proof {
        assert forall|salt: Seq<char>, nonce: Seq<u8>, p: Seq<u8>|
            nonce.len() == NONCE_SIZE && #[trigger] seal_spec(pin@, salt, nonce, p) == Ok::<_, VaultError>(file@)
            implies s == encode_utf8(salt) && n == nonce && xchacha_sealed(
                argon2_output(pin@, salt)->Some_0,
                nonce,
                p,
            ) == Some(c) && argon2_output(pin@, salt) is Some && argon2_output(pin@, salt)->Some_0.len() == 32 by {
            let k = argon2_output(pin@, salt)->Some_0;
            let cc = xchacha_sealed(k, nonce, p)->Some_0;
            lemma_vault_round_trip(encode_utf8(salt), nonce, cc);
        }
    }
    let salt_text = match utf8_text(parts.salt) {
        None => return Err(VaultError::InvalidSalt),
        Some(t) => t,
    };
    let key = match derive_key(pin, salt_text.as_str()) {
        None => return Err(VaultError::KeyDerivation),
        Some(k) => k,
    };
    if key.len() != 32 {
        return Err(VaultError::KeyLength);
    }
    match open(key.as_slice(), parts.nonce.as_slice(), parts.ciphertext.as_slice()) {
        None => Err(VaultError::Decryption),
        Some(p) => Ok(p),
    }
}

/// The name a file takes in the vault.
pub fn vault_file_name(name: &str) -> (r: String)
    ensures
        r@ == name@ + ".void"@,
{
    String::from_str(name).concat(".void")
}

/// Whether a file name has the vault extension: text after its last dot,
/// which is not its first character, is `void`.
pub open spec fn is_vault_name(name: Seq<char>) -> bool {
    match crate::text::last_index(name, '.') {
        Some(k) => k > 0 && name.subrange(k + 1, name.len() as int) == "void"@,
        None => false,
    }
}

/// Whether a file name is that of a vault file.
pub fn has_vault_extension(name: &str) -> (r: bool)
    ensures
        r == is_vault_name(name@),
{
    let n = name.unicode_len();
    match crate::text::find_last(name, '.') {
        None => false,
        Some(k) => {
            proof {
                crate::text::lemma_last_index_props(name@, '.');
            }
            if k == 0 {
                return false;
            }
            let ext = name.substring_char(k + 1, n);
            String::from_str(ext) == String::from_str("void")
        },
    }
}

/// How many bytes the next wiping write covers, `written` bytes of `len`
/// being done.
pub fn next_wipe_chunk(len: u64, written: u64) -> (r: u64)
    requires
        written < len,
    ensures
        r as int == (if len - written < WIPE_CHUNK { len - written } else { WIPE_CHUNK as int }),
        0 < r <= WIPE_CHUNK,
{
    let left = len - written;
    if left < WIPE_CHUNK {
        left
    } else {
        WIPE_CHUNK
    }
}

} // verus!
