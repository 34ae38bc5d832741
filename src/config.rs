use vstd::prelude::*;
use rand::RngCore;

verus! {

/// The endpoint used when no destinations are configured.
pub open spec fn default_destination() -> Seq<char> {
    seq![
        'h', 't', 't', 'p', 's', ':', '/', '/', 'b', 'l', 'o', 's', 's', 'o', 'm', '.', 'e', 'x',
        'a', 'm', 'p', 'l', 'e',
    ]
}

/// The destination set written on first run: the default endpoint alone.
pub fn default_destinations() -> (r: Vec<String>)
    ensures
        r@.len() == 1,
        r@[0]@ == default_destination(),
{
    proof {
        reveal_strlit("https://blossom.example");
    }
    let mut r: Vec<String> = Vec::new();
    r.push("https://blossom.example".to_owned());
    r
}

/// The path an upload is posted to on a destination.
pub open spec fn upload_url_of(dest: Seq<char>) -> Seq<char> {
    dest + seq!['/', 'u', 'p', 'l', 'o', 'a', 'd']
}

/// The URL an upload is posted to on `dest`.
pub fn upload_url(dest: &str) -> (r: String)
    ensures
        r@ == upload_url_of(dest@),
{
    proof {
        reveal_strlit("/upload");
    }
    dest.to_owned().concat("/upload")
}

/// Whether an HTTP status code reports success (2xx).
pub fn is_success_status(code: u16) -> (r: bool)
    ensures
        r == (200 <= code && code <= 299),
{
    200 <= code && code <= 299
}

/// The generic binary content type.
pub open spec fn octet_stream() -> Seq<char> {
    seq![
        'a', 'p', 'p', 'l', 'i', 'c', 'a', 't', 'i', 'o', 'n', '/', 'o', 'c', 't', 'e', 't', '-',
        's', 't', 'r', 'e', 'a', 'm',
    ]
}

/// MIME type that infer recognises from the leading bytes of a content.
pub uninterp spec fn sniffed_mime(head: Seq<u8>) -> Option<Seq<char>>;

/// Relies on infer::get and Type::mime_type: the MIME type whose signature
/// matches the leading bytes, if any. It depends on those bytes alone.
#[verifier::external_body]
fn sniff_mime(head: &[u8]) -> (r: Option<String>)
    ensures
        r is Some <==> sniffed_mime(head@) is Some,
        r matches Some(m) ==> sniffed_mime(head@) == Some(m@),
{
    infer::get(head).map(|t| t.mime_type().to_owned())
}

/// The content type sent with an upload: octet-stream for encrypted content,
/// else the sniffed type, else octet-stream.
pub open spec fn content_type_of(encrypt: bool, sniffed: Option<Seq<char>>) -> Seq<char> {
    if encrypt {
        octet_stream()
    } else {
        match sniffed {
            Some(m) => m,
            None => octet_stream(),
        }
    }
}

/// The content type for an upload, given what sniffing found.
pub fn content_type_for(encrypt: bool, sniffed: Option<String>) -> (r: String)
    ensures
        r@ == content_type_of(encrypt, match sniffed {
            Some(m) => Some(m@),
            None => None,
        }),
{
    proof {
        reveal_strlit("application/octet-stream");
    }
    if encrypt {
        return "application/octet-stream".to_owned();
    }
    match sniffed {
        Some(m) => m,
        None => "application/octet-stream".to_owned(),
    }
}

/// The content type for an upload of a content whose leading bytes are `head`.
pub fn detect_content_type(encrypt: bool, head: &[u8]) -> (r: String)
    ensures
        r@ == content_type_of(encrypt, sniffed_mime(head@)),
{
    if encrypt {
        return content_type_for(true, None);
    }
    let sniffed = sniff_mime(head);
    content_type_for(false, sniffed)
}

/// Bytes of a secret key.
pub const KEY_LEN: usize = 32;

/// Relies on rand::thread_rng and RngCore::fill_bytes: 32 bytes from a
/// cryptographically secure generator. Nothing is known of their value.
#[verifier::external_body]
fn random_key() -> (r: [u8; 32]) {
    let mut k = [0u8; 32];
    rand::thread_rng().fill_bytes(&mut k);
    k
}

/// Where the secret key of a run comes from.
#[derive(Clone, Copy, Debug, PartialEq, Eq, Structural)]
pub enum KeySource {
    /// Read from the key file.
    Loaded,
    /// Freshly generated; the caller stores it.
    Generated,
    /// The key file has the wrong length: no key this run.
    Unusable,
}

/// The key a key file holds: its 32 bytes, or none for any other length.
pub open spec fn key_in_file(contents: Seq<u8>) -> Option<Seq<u8>> {
    if contents.len() == KEY_LEN {
        Some(contents)
    } else {
        None
    }
}

/// Resolves the secret key from the key file's contents (`None` when there is
/// no file). A missing file yields a fresh key; a file of the wrong length
/// yields no key and is left alone.
pub fn resolve_key(file: Option<Vec<u8>>) -> (r: (Option<[u8; 32]>, KeySource))
    ensures
        match file {
            None => r.0 is Some && r.1 == KeySource::Generated,
            Some(c) => match key_in_file(c@) {
                Some(k) => r.1 == KeySource::Loaded && (r.0 matches Some(a) && a@ == k),
                None => r.0 is None && r.1 == KeySource::Unusable,
            },
        },
{
    match file {
        None => (Some(random_key()), KeySource::Generated),
        Some(c) => {
            if c.len() != KEY_LEN {
                return (None, KeySource::Unusable);
            }
            let mut k = [0u8; 32];
            let mut i: usize = 0;
            while i < KEY_LEN
                invariant
                    c@.len() == KEY_LEN,
                    i <= KEY_LEN,
                    forall|j: int| 0 <= j < i ==> k@[j] == c@[j],
                decreases KEY_LEN - i,
            {
                k[i] = c[i];
                i = i + 1;
            }
            assert(k@ =~= c@);
            (Some(k), KeySource::Loaded)
        },
    }
}

/// Kinds of filesystem events the watcher reports.
#[derive(Clone, Copy, Debug, PartialEq, Eq, Structural)]
pub enum FsEventKind {
    Create,
    Modify,
    Remove,
    Access,
    Other,
}

/// Whether an event's paths are queued for ingestion: creations and
/// modifications only.
pub fn should_enqueue(kind: FsEventKind) -> (r: bool)
    ensures
        r == (kind == FsEventKind::Create || kind == FsEventKind::Modify),
{
    match kind {
        FsEventKind::Create => true,
        FsEventKind::Modify => true,
        _ => false,
    }
}

} // verus!
