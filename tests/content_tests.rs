use vine_watcher::config::{
    content_type_for, default_destinations, detect_content_type, is_success_status,
    resolve_key, should_enqueue, upload_url, FsEventKind, KeySource,
};
use vine_watcher::crypto::{open_blob, seal_blob, seal_blob_with_nonce, CryptoError};
use vine_watcher::fingerprint::{fingerprint_bytes, Fingerprinter};
use vine_watcher::pipeline::{classify, relative_path, role_dir_path, Role};

const EMPTY_SHA256: &str = "e3b0c44298fc1c149afbf4c8996fb92427ae41e4649b934ca495991b7852b855";
const ABC_SHA256: &str = "ba7816bf8f01cfea414140de5dae2223b00361a396177a9cb410ff61f20015ad";

#[test]
fn fingerprint_of_empty_content() {
    let f = fingerprint_bytes(&[]);
    assert_eq!(f.hex, EMPTY_SHA256);
    assert_eq!(f.size, 0);
    let g = Fingerprinter::new().finish();
    assert_eq!(g.hex, EMPTY_SHA256);
    assert_eq!(g.size, 0);
}

#[test]
fn fingerprint_of_known_content() {
    let f = fingerprint_bytes(b"abc");
    assert_eq!(f.hex, ABC_SHA256);
    assert_eq!(f.size, 3);
}

#[test]
fn fingerprint_is_deterministic_and_chunking_free() {
    let data: Vec<u8> = (0..5000u32).map(|i| (i % 251) as u8).collect();
    let whole = fingerprint_bytes(&data);
    let again = fingerprint_bytes(&data);
    assert_eq!(whole.hex, again.hex);
    let mut f = Fingerprinter::new();
    for chunk in data.chunks(1024) {
        f.absorb(chunk);
    }
    assert_eq!(f.size(), 5000);
    let streamed = f.finish();
    assert_eq!(streamed.hex, whole.hex);
    assert_eq!(streamed.size, 5000);
    assert_eq!(whole.hex.len(), 64);
}

#[test]
fn fingerprint_changes_with_one_byte() {
    let a = fingerprint_bytes(b"hello world");
    let b = fingerprint_bytes(b"hello worle");
    assert_ne!(a.hex, b.hex);
}

#[test]
fn blob_round_trip() {
    let key = [7u8; 32];
    for pt in [&b""[..], &b"x"[..], &b"some private content"[..]] {
        let blob = seal_blob(&key, pt).unwrap();
        assert_eq!(blob.len(), 12 + pt.len() + 16);
        assert_eq!(open_blob(&key, &blob).unwrap(), pt.to_vec());
    }
}

#[test]
fn blob_starts_with_its_nonce() {
    let key = [1u8; 32];
    let nonce = [9u8; 12];
    let blob = seal_blob_with_nonce(&key, &nonce, b"abc").unwrap();
    assert_eq!(&blob[..12], &nonce[..]);
    assert_eq!(blob.len(), 12 + 3 + 16);
    assert_eq!(open_blob(&key, &blob).unwrap(), b"abc".to_vec());
}

#[test]
fn fresh_nonces_differ() {
    let key = [3u8; 32];
    let a = seal_blob(&key, b"same").unwrap();
    let b = seal_blob(&key, b"same").unwrap();
    assert_ne!(&a[..12], &b[..12]);
}

#[test]
fn blob_errors() {
    let key = [7u8; 32];
    assert_eq!(open_blob(&key, &[0u8; 5]), Err(CryptoError::TooShort));
    assert_eq!(open_blob(&key, &[0u8; 12]), Err(CryptoError::Rejected));
    assert_eq!(open_blob(&key, &[0u8; 28]), Err(CryptoError::Rejected));
    let mut blob = seal_blob(&key, b"payload").unwrap();
    let last = blob.len() - 1;
    blob[last] ^= 1;
    assert_eq!(open_blob(&key, &blob), Err(CryptoError::Rejected));
    let good = seal_blob(&key, b"payload").unwrap();
    assert_eq!(open_blob(&[8u8; 32], &good), Err(CryptoError::Rejected));
}

#[test]
fn classify_paths() {
    let root = "/home/u/Bloom";
    assert_eq!(classify(root, "/home/u/Bloom/Private/a.txt"), Some(Role::Private));
    assert_eq!(classify(root, "/home/u/Bloom/Public/a.txt"), Some(Role::Public));
    assert_eq!(classify(root, "/home/u/Bloom/Public/sub/a.txt"), None);
    assert_eq!(classify(root, "/home/u/Bloom/Public/"), None);
    assert_eq!(classify(root, "/home/u/Bloom/Other/a.txt"), None);
    assert_eq!(classify(root, "/home/u/Bloom/PublicX/a.txt"), None);
    assert_eq!(classify(root, "/elsewhere/a.txt"), None);
    assert_eq!(role_dir_path(root, Role::Private), "/home/u/Bloom/Private");
}

#[test]
fn relative_paths() {
    let root = "/home/u/Bloom";
    assert_eq!(relative_path(root, "/home/u/Bloom/Public/a.txt"), "Public/a.txt");
    assert_eq!(relative_path(root, "/other/a.txt"), "/other/a.txt");
    assert_eq!(relative_path(root, "/home/u/BloomX/a"), "/home/u/BloomX/a");
}

#[test]
fn content_types() {
    let png = [0x89u8, 0x50, 0x4E, 0x47, 0x0D, 0x0A, 0x1A, 0x0A, 0, 0];
    assert_eq!(detect_content_type(false, &png), "image/png");
    assert_eq!(detect_content_type(true, &png), "application/octet-stream");
    assert_eq!(detect_content_type(false, b"plain"), "application/octet-stream");
    assert_eq!(content_type_for(false, Some("text/x".to_string())), "text/x");
    assert_eq!(content_type_for(false, None), "application/octet-stream");
}

#[test]
fn upload_urls_and_statuses() {
    assert_eq!(upload_url("https://a.example"), "https://a.example/upload");
    assert!(is_success_status(200));
    assert!(is_success_status(299));
    assert!(!is_success_status(199));
    assert!(!is_success_status(300));
    assert!(!is_success_status(500));
    assert_eq!(default_destinations(), vec!["https://blossom.example".to_string()]);
}

#[test]
fn key_resolution() {
    let k: Vec<u8> = (0..32u8).collect();
    let (key, src) = resolve_key(Some(k.clone()));
    assert_eq!(src, KeySource::Loaded);
    assert_eq!(key.unwrap().to_vec(), k);
    let (key, src) = resolve_key(Some(vec![1, 2, 3]));
    assert_eq!(src, KeySource::Unusable);
    assert!(key.is_none());
    let (key, src) = resolve_key(None);
    assert_eq!(src, KeySource::Generated);
    assert!(key.is_some());
}

#[test]
fn event_filter() {
    assert!(should_enqueue(FsEventKind::Create));
    assert!(should_enqueue(FsEventKind::Modify));
    assert!(!should_enqueue(FsEventKind::Remove));
    assert!(!should_enqueue(FsEventKind::Access));
    assert!(!should_enqueue(FsEventKind::Other));
}
