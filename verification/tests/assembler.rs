//! The assembler: request scheduling, chunk ingestion, verification,
//! idempotent and order-independent writes.

use dht_crawler::metainfo::MetaInfo;
use sha1::{Digest, Sha1};

fn doc(len: usize) -> Vec<u8> {
    (0..len).map(|i| (i % 251) as u8).collect()
}

fn digest(data: &[u8]) -> [u8; 20] {
    let mut hasher = Sha1::new();
    hasher.update(data);
    let out = hasher.finalize();
    let mut r = [0u8; 20];
    r.copy_from_slice(&out);
    r
}

fn chunk_message(piece: usize, total: usize, payload: &[u8]) -> Vec<u8> {
    let mut data = Vec::new();
    data.extend_from_slice(
        format!("d8:msg_typei1e5:piecei{piece}e10:total_sizei{total}ee").as_bytes(),
    );
    data.extend_from_slice(payload);
    data
}

fn chunk_of(document: &[u8], piece: usize) -> &[u8] {
    let start = piece * 16384;
    let end = (start + 16384).min(document.len());
    &document[start..end]
}

#[test]
fn scheduler_spreads_requests() {
    let document = doc(40000);
    let mut meta = MetaInfo::new(digest(&document));
    meta.got_size(40000);
    // Three chunks: 16384, 16384, 7232 bytes.  While untried chunks
    // remain, the same index never comes twice in a row; ties break to
    // the lowest index.
    let picks: Vec<Option<usize>> = (0..6).map(|_| meta.which_piece()).collect();
    assert_eq!(
        picks,
        vec![Some(0), Some(1), Some(2), Some(0), Some(1), Some(2)]
    );
}

#[test]
fn ingest_verifies_only_when_complete() {
    let document = doc(40000);
    let mut meta = MetaInfo::new(digest(&document));
    meta.got_size(40000);
    assert_eq!(meta.size(), Some(40000));
    assert!(!meta.got_metadata_message(&chunk_message(0, 40000, chunk_of(&document, 0))));
    assert!(meta.document().is_none());
    assert!(!meta.got_metadata_message(&chunk_message(1, 40000, chunk_of(&document, 1))));
    assert!(meta.got_metadata_message(&chunk_message(2, 40000, chunk_of(&document, 2))));
    assert_eq!(meta.document(), Some(document));
}

#[test]
fn corrupt_chunk_never_verifies() {
    let document = doc(40000);
    let mut meta = MetaInfo::new(digest(&document));
    meta.got_size(40000);
    let mut bad = chunk_of(&document, 1).to_vec();
    bad[100] ^= 0xFF;
    assert!(!meta.got_metadata_message(&chunk_message(0, 40000, chunk_of(&document, 0))));
    assert!(!meta.got_metadata_message(&chunk_message(1, 40000, &bad)));
    assert!(!meta.got_metadata_message(&chunk_message(2, 40000, chunk_of(&document, 2))));
    assert!(meta.document().is_none());
    // The honest payload still completes the document afterwards.
    assert!(meta.got_metadata_message(&chunk_message(1, 40000, chunk_of(&document, 1))));
}

#[test]
fn disjoint_writes_commute_and_rewrites_are_idempotent() {
    let document = doc(40000);
    let hash = digest(&document);

    let mut a = MetaInfo::new(hash);
    a.got_size(40000);
    assert!(!a.got_metadata_message(&chunk_message(0, 40000, chunk_of(&document, 0))));
    assert!(!a.got_metadata_message(&chunk_message(1, 40000, chunk_of(&document, 1))));
    assert!(a.got_metadata_message(&chunk_message(2, 40000, chunk_of(&document, 2))));

    let mut b = MetaInfo::new(hash);
    b.got_size(40000);
    assert!(!b.got_metadata_message(&chunk_message(1, 40000, chunk_of(&document, 1))));
    assert!(!b.got_metadata_message(&chunk_message(0, 40000, chunk_of(&document, 0))));
    // Re-writing an already-written chunk is safe and changes nothing.
    assert!(!b.got_metadata_message(&chunk_message(0, 40000, chunk_of(&document, 0))));
    assert!(b.got_metadata_message(&chunk_message(2, 40000, chunk_of(&document, 2))));

    assert_eq!(a.document(), b.document());
    assert_eq!(a.document(), Some(document));
}

#[test]
fn repeated_size_reports_must_agree() {
    let mut meta = MetaInfo::new([0u8; 20]);
    meta.got_size(100);
    meta.got_size(100);
    assert_eq!(meta.size(), Some(100));
}

#[test]
fn single_small_chunk_document() {
    let document = doc(100);
    let mut meta = MetaInfo::new(digest(&document));
    meta.got_size(100);
    assert_eq!(meta.which_piece(), Some(0));
    assert!(meta.got_metadata_message(&chunk_message(0, 100, &document)));
    assert_eq!(meta.document(), Some(document));
}
