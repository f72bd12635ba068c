//! Crawl bookkeeping and the hex form of resource identifiers.

use dht_crawler::crawl::{infohash_from_hex, CrawlState};
use dht_crawler::dht_structs::{addr_key, Peer};

#[test]
fn contacted_set_suppresses_duplicates() {
    let mut crawl = CrawlState::new();
    let a = addr_key(&[1, 2, 3, 4], 6881);
    let b = addr_key(&[1, 2, 3, 4], 6882);
    assert!(crawl.note_contacted(a));
    assert!(crawl.note_contacted(b));
    assert!(!crawl.note_contacted(a));
    assert_eq!(crawl.contacted.len(), 2);
    // Session tracking is independent of the contacted set.
    assert!(crawl.note_session(a));
    assert!(!crawl.note_session(a));
    assert_eq!(crawl.sessions.len(), 1);
}

#[test]
fn addr_keys_distinguish_address_and_port() {
    let a = addr_key(&[1, 2, 3, 4], 6881);
    let b = addr_key(&[1, 2, 3, 4], 6882);
    let c = addr_key(&[1, 2, 3, 5], 6881);
    assert_ne!(a, b);
    assert_ne!(a, c);
    assert_eq!(
        a,
        (1u64 << 40) + (2u64 << 32) + (3u64 << 24) + (4u64 << 16) + 6881
    );
    let peer = Peer::Peer(vec![1, 2, 3, 4, 0x1A, 0xE1]);
    assert_eq!(peer.addr_key(), a);
}

#[test]
fn hex_identifiers_decode() {
    let s = b"0123456789abcdef0123456789ABCDEF01234567";
    let h = infohash_from_hex(s).unwrap();
    assert_eq!(h[0], 0x01);
    assert_eq!(h[1], 0x23);
    assert_eq!(h[5], 0xab);
    assert_eq!(h[8], 0x01);
    assert_eq!(h[13], 0xAB);
    assert_eq!(h[19], 0x67);
}

#[test]
fn hex_identifiers_reject_bad_input() {
    assert!(infohash_from_hex(b"0123").is_none());
    assert!(infohash_from_hex(b"0123456789abcdef0123456789ABCDEF0123456z").is_none());
    assert!(infohash_from_hex(b"").is_none());
}
