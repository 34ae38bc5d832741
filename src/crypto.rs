use vstd::prelude::*;
use aes_gcm::aead::{Aead, KeyInit};

verus! {

/// Bytes of the nonce that starts every blob.
pub const NONCE_LEN: usize = 12;

/// Bytes of the authentication tag that ends every sealed payload.
pub const TAG_LEN: usize = 16;

/// Longest plaintext the cipher accepts, in bytes.
pub const MAX_PLAINTEXT: u64 = 68719476736;

/// AES-256-GCM output (ciphertext followed by its tag) for a key, a nonce and
/// a plaintext, with no associated data.
pub uninterp spec fn aes256gcm_seal(key: Seq<u8>, nonce: Seq<u8>, plaintext: Seq<u8>) -> Seq<u8>;

/// Relies on aes_gcm::Aes256Gcm's Aead::encrypt with no associated data: it
/// fails only on a plaintext longer than 2^36 bytes, and otherwise returns the
/// ciphertext followed by a 16-byte tag.
#[verifier::external_body]
fn aes256gcm_encrypt(key: &[u8; 32], nonce: &[u8], plaintext: &[u8]) -> (r: Option<Vec<u8>>)
    requires
        nonce@.len() == NONCE_LEN,
    ensures
        r is Some <==> plaintext@.len() <= MAX_PLAINTEXT,
        r matches Some(c) ==> c@ == aes256gcm_seal(key@, nonce@, plaintext@) && c@.len()
            == plaintext@.len() + TAG_LEN,
{
    let cipher = aes_gcm::Aes256Gcm::new(aes_gcm::Key::<aes_gcm::Aes256Gcm>::from_slice(key));
    cipher.encrypt(aes_gcm::Nonce::from_slice(nonce), plaintext).ok()
}

/// Whether `sealed` is the encryption of some accepted plaintext, which it
/// exceeds by one tag.
pub open spec fn is_sealed(key: Seq<u8>, nonce: Seq<u8>, sealed: Seq<u8>) -> bool {
    exists|p: Seq<u8>|
        p.len() <= MAX_PLAINTEXT && sealed.len() == p.len() + TAG_LEN && #[trigger] aes256gcm_seal(
            key,
            nonce,
            p,
        ) == sealed
}

/// Whether `p` is an accepted plaintext one tag shorter than `sealed`, and the
/// only accepted plaintext whose encryption is `sealed`.
pub open spec fn sole_plaintext(key: Seq<u8>, nonce: Seq<u8>, sealed: Seq<u8>, p: Seq<u8>) -> bool {
    &&& p.len() <= MAX_PLAINTEXT
    &&& sealed.len() == p.len() + TAG_LEN
    &&& forall|q: Seq<u8>|
        q.len() <= MAX_PLAINTEXT && #[trigger] aes256gcm_seal(key, nonce, q) == sealed ==> q == p
}

/// Relies on aes_gcm::Aes256Gcm's Aead::decrypt with no associated data: it
/// accepts exactly the outputs of encryption under the same key and nonce,
/// and returns the one plaintext that was encrypted. Inputs longer than the
/// longest plaintext plus a tag are left out: the cipher's own length check
/// lets a few of them through to plaintexts over the limit.
#[verifier::external_body]
fn aes256gcm_decrypt(key: &[u8; 32], nonce: &[u8], sealed: &[u8]) -> (r: Option<Vec<u8>>)
    requires
        nonce@.len() == NONCE_LEN,
        sealed@.len() <= MAX_PLAINTEXT + TAG_LEN,
    ensures
        r is Some <==> is_sealed(key@, nonce@, sealed@),
        r matches Some(p) ==> sole_plaintext(key@, nonce@, sealed@, p@),
{
    let cipher = aes_gcm::Aes256Gcm::new(aes_gcm::Key::<aes_gcm::Aes256Gcm>::from_slice(key));
    cipher.decrypt(aes_gcm::Nonce::from_slice(nonce), sealed).ok()
}

/// Relies on rand::random: twelve bytes from the thread-local generator, which
/// is cryptographically secure. Nothing is known of their value.
#[verifier::external_body]
fn random_nonce() -> (r: [u8; 12]) {
    rand::random::<[u8; 12]>()
}

/// Why a blob could not be produced or opened.
#[derive(Clone, Copy, Debug, PartialEq, Eq, Structural)]
pub enum CryptoError {
    /// The plaintext is longer than the cipher accepts.
    TooLong,
    /// The blob is shorter than a nonce.
    TooShort,
    /// The blob did not authenticate under the key.
    Rejected,
}

/// The blob format: the nonce, then the sealed output for that nonce.
pub open spec fn blob_of(key: Seq<u8>, nonce: Seq<u8>, plaintext: Seq<u8>) -> Seq<u8> {
    nonce + aes256gcm_seal(key, nonce, plaintext)
}

/// Whether `blob` is the blob of some plaintext the cipher accepts.
pub open spec fn is_blob_of(key: Seq<u8>, blob: Seq<u8>, plaintext: Seq<u8>) -> bool {
    blob.len() == NONCE_LEN + plaintext.len() + TAG_LEN && plaintext.len() <= MAX_PLAINTEXT
        && blob == blob_of(
        key,
        blob.take(NONCE_LEN as int),
        plaintext,
    )
}

/// A blob built from any nonce and any accepted plaintext, whose sealed part
/// is one tag longer than the plaintext (as every output of encryption is), is
/// recognised as the blob of exactly that plaintext, so opening it gives the
/// plaintext back.
pub proof fn lemma_blob_round_trip(key: Seq<u8>, nonce: Seq<u8>, plaintext: Seq<u8>)
    requires
        nonce.len() == NONCE_LEN,
        plaintext.len() <= MAX_PLAINTEXT,
        aes256gcm_seal(key, nonce, plaintext).len() == plaintext.len() + TAG_LEN,
    ensures
        is_blob_of(key, blob_of(key, nonce, plaintext), plaintext),
{
    let b = blob_of(key, nonce, plaintext);
    assert(b.take(NONCE_LEN as int) =~= nonce);
}

/// Copies `s[from..to]` into a new vector.
fn copy_range(s: &[u8], from: usize, to: usize) -> (r: Vec<u8>)
    requires
        from <= to <= s@.len(),
    ensures
        r@ == s@.subrange(from as int, to as int),
{
    let mut r: Vec<u8> = Vec::new();
    let mut i: usize = from;
    while i < to
        invariant
            from <= i <= to <= s@.len(),
            r@ == s@.subrange(from as int, i as int),
        decreases to - i,
    {
        r.push(s[i]);
        i = i + 1;
        assert(r@ =~= s@.subrange(from as int, i as int));
    }
    r
}

/// Seals `plaintext` under `key` with the given nonce into a blob.
pub fn seal_blob_with_nonce(key: &[u8; 32], nonce: &[u8; 12], plaintext: &[u8]) -> (r: Result<
    Vec<u8>,
    CryptoError,
>)
    ensures
        r is Ok <==> plaintext@.len() <= MAX_PLAINTEXT,
        r matches Err(e) ==> e == CryptoError::TooLong,
        r matches Ok(b) ==> b@ == blob_of(key@, nonce@, plaintext@) && b@.len() == NONCE_LEN
            + plaintext@.len() + TAG_LEN,
{
    let nonce_slice = nonce.as_slice();
    match aes256gcm_encrypt(key, nonce_slice, plaintext) {
        None => Err(CryptoError::TooLong),
        Some(sealed) => {
            let mut blob = copy_range(nonce_slice, 0, NONCE_LEN);
            let mut sealed = sealed;
            blob.append(&mut sealed);
            assert(blob@ =~= blob_of(key@, nonce@, plaintext@));
            Ok(blob)
        },
    }
}

/// Seals `plaintext` under `key` with a fresh random nonce.
pub fn seal_blob(key: &[u8; 32], plaintext: &[u8]) -> (r: Result<Vec<u8>, CryptoError>)
    ensures
        r is Ok <==> plaintext@.len() <= MAX_PLAINTEXT,
        r matches Err(e) ==> e == CryptoError::TooLong,
        r matches Ok(b) ==> is_blob_of(key@, b@, plaintext@) && b@.len() == NONCE_LEN
            + plaintext@.len() + TAG_LEN,
{
    let nonce = random_nonce();
    let r = seal_blob_with_nonce(key, &nonce, plaintext);
    if let Ok(b) = &r {
        assert(b@.take(NONCE_LEN as int) =~= nonce@);
    }
    r
}

/// Opens a blob: strips the leading nonce and decrypts the rest under `key`.
/// A blob sealed from a plaintext opens to exactly that plaintext.
pub fn open_blob(key: &[u8; 32], blob: &[u8]) -> (r: Result<Vec<u8>, CryptoError>)
    ensures
        blob@.len() < NONCE_LEN ==> r == Err::<Vec<u8>, CryptoError>(CryptoError::TooShort),
        r is Ok <==> exists|p: Seq<u8>| #[trigger] is_blob_of(key@, blob@, p),
        forall|p: Seq<u8>| #[trigger] is_blob_of(key@, blob@, p) ==> (r matches Ok(q) && q@ == p),
        r matches Err(e) ==> e == CryptoError::TooShort || e == CryptoError::Rejected,
{
    if blob.len() < NONCE_LEN {
        return Err(CryptoError::TooShort);
    }
    if (blob.len() - NONCE_LEN) as u64 > MAX_PLAINTEXT + TAG_LEN as u64 {
        return Err(CryptoError::Rejected);
    }
    let nonce = copy_range(blob, 0, NONCE_LEN);
    let sealed = copy_range(blob, NONCE_LEN, blob.len());
    assert(blob@ =~= nonce@ + sealed@);
    let r = aes256gcm_decrypt(key, nonce.as_slice(), sealed.as_slice());
    assert forall|p: Seq<u8>| #[trigger] is_blob_of(key@, blob@, p) <==> (p.len() <= MAX_PLAINTEXT
        && sealed@.len() == p.len() + TAG_LEN && aes256gcm_seal(key@, nonce@, p) == sealed@) by {
        if p.len() <= MAX_PLAINTEXT && sealed@.len() == p.len() + TAG_LEN && aes256gcm_seal(
            key@,
            nonce@,
            p,
        ) == sealed@ {
            assert(blob@ =~= blob_of(key@, blob@.take(NONCE_LEN as int), p));
        }
        if is_blob_of(key@, blob@, p) {
            let t = blob@.take(NONCE_LEN as int);
            assert(t =~= nonce@);
            let c = aes256gcm_seal(key@, t, p);
            assert(blob@ == t + c);
            assert(sealed@ =~= blob@.subrange(NONCE_LEN as int, blob@.len() as int));
            assert((t + c).subrange(NONCE_LEN as int, (t + c).len() as int) =~= c);
        }
    }
    match r {
        Some(p) => {
            proof {
                let p0 = choose|p0: Seq<u8>|
                    p0.len() <= MAX_PLAINTEXT && sealed@.len() == p0.len() + TAG_LEN
                        && #[trigger] aes256gcm_seal(key@, nonce@, p0) == sealed@;
                assert(is_blob_of(key@, blob@, p0));
            }
            Ok(p)
        },
        None => Err(CryptoError::Rejected),
    }
}

} // verus!
