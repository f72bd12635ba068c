//! Decoding of inbound response datagrams: compact node lists, peer
//! lists, samples, and the error cases.

use dht_crawler::crawl::matches_target;
use dht_crawler::dht_structs::{Bytes, Peer, Response, ResponseArgs};

fn make_args(nodes: Option<Vec<u8>>, samples: Option<Vec<u8>>) -> ResponseArgs {
    ResponseArgs {
        id: vec![0u8; 20],
        token: None,
        nodes: nodes.map(Bytes::Bytes),
        values: None,
        samples: samples.map(Bytes::Bytes),
        interval: None,
        num: None,
    }
}

fn node_run(id_byte: u8, ip: [u8; 4], port: u16) -> Vec<u8> {
    let mut run = vec![id_byte; 20];
    run.extend_from_slice(&ip);
    run.extend_from_slice(&port.to_be_bytes());
    run
}

#[test]
fn nodes_decode_whole_runs() {
    let mut buf = Vec::new();
    buf.extend_from_slice(&node_run(1, [1, 2, 3, 4], 6881));
    buf.extend_from_slice(&node_run(2, [5, 6, 7, 8], 51413));
    buf.extend_from_slice(&node_run(3, [9, 10, 11, 12], 80));
    let args = make_args(Some(buf), None);
    let nodes = args.nodes();
    assert_eq!(nodes.len(), 3);
    assert_eq!(nodes[0].id, [1u8; 20]);
    assert_eq!(nodes[0].ip, [1, 2, 3, 4]);
    assert_eq!(nodes[0].port(), 6881);
    assert_eq!(nodes[1].ip_string(), "5.6.7.8");
    assert_eq!(nodes[1].host(), "5.6.7.8:51413");
    assert_eq!(nodes[2].port(), 80);
}

#[test]
fn nodes_decode_drops_trailing_bytes() {
    let mut buf = Vec::new();
    buf.extend_from_slice(&node_run(1, [1, 2, 3, 4], 6881));
    buf.extend_from_slice(&node_run(2, [5, 6, 7, 8], 51413));
    buf.extend_from_slice(&[0xFF; 5]);
    let args = make_args(Some(buf), None);
    let nodes = args.nodes();
    assert_eq!(nodes.len(), 2);
    assert_eq!(nodes[1].host(), "5.6.7.8:51413");
}

#[test]
fn nodes_decode_survives_a_corrupt_run() {
    let mut buf = Vec::new();
    buf.extend_from_slice(&node_run(1, [1, 2, 3, 4], 6881));
    buf.extend_from_slice(&[0u8; 26]);
    buf.extend_from_slice(&node_run(3, [9, 10, 11, 12], 80));
    let args = make_args(Some(buf), None);
    let nodes = args.nodes();
    assert_eq!(nodes.len(), 3);
    assert_eq!(nodes[0].host(), "1.2.3.4:6881");
    assert_eq!(nodes[2].host(), "9.10.11.12:80");
}

#[test]
fn nodes_absent_means_empty() {
    let args = make_args(None, None);
    assert!(args.nodes().is_empty());
}

#[test]
fn response_with_two_peer_values() {
    let mut buf = Vec::new();
    buf.extend_from_slice(b"d1:rd2:id20:");
    buf.extend_from_slice(&[0x61u8; 20]);
    buf.extend_from_slice(b"6:valuesl6:");
    buf.extend_from_slice(&[1, 2, 3, 4, 0x1A, 0xE1]);
    buf.extend_from_slice(b"6:");
    buf.extend_from_slice(&[5, 6, 7, 8, 0x00, 0x50]);
    buf.extend_from_slice(b"ee1:t2:aae");
    let args = Response::from_bytes(&buf).unwrap();
    assert_eq!(args.id(), [0x61u8; 20]);
    let values = args.values.unwrap();
    assert_eq!(values.len(), 2);
    assert_eq!(values[0].ip_string(), "1.2.3.4");
    assert_eq!(values[0].port(), 6881);
    assert_eq!(values[0].host(), "1.2.3.4:6881");
    assert_eq!(values[1].host(), "5.6.7.8:80");
}

#[test]
fn response_full_fields() {
    let mut buf = Vec::new();
    buf.extend_from_slice(b"d1:rd2:id20:");
    buf.extend_from_slice(&[9u8; 20]);
    buf.extend_from_slice(b"8:intervali3600e3:numi17e7:samples20:");
    buf.extend_from_slice(&[0xCDu8; 20]);
    buf.extend_from_slice(b"5:token4:opqr5:nodes26:");
    buf.extend_from_slice(&node_run(1, [1, 1, 1, 1], 1));
    buf.extend_from_slice(b"e1:t1:0e");
    let args = Response::from_bytes(&buf).unwrap();
    assert_eq!(args.interval, Some(3600));
    assert_eq!(args.num, Some(17));
    let Some(Bytes::Bytes(ref token)) = args.token else {
        panic!("token missing");
    };
    assert_eq!(token.as_slice(), b"opqr");
    let hashes = args.sample_hashes();
    assert_eq!(hashes.len(), 1);
    assert_eq!(hashes[0], [0xCDu8; 20]);
    assert_eq!(args.nodes().len(), 1);
}

#[test]
fn sample_hashes_split() {
    let mut blob = Vec::new();
    blob.extend_from_slice(&[1u8; 20]);
    blob.extend_from_slice(&[2u8; 20]);
    blob.extend_from_slice(&[3u8; 7]);
    let args = make_args(None, Some(blob));
    let hashes = args.sample_hashes();
    assert_eq!(hashes.len(), 2);
    assert_eq!(hashes[0], [1u8; 20]);
    assert_eq!(hashes[1], [2u8; 20]);
}

#[test]
fn responses_match_their_crawl_target() {
    let hash = [0x77u8; 20];
    let mut buf = Vec::new();
    buf.extend_from_slice(b"d1:rd2:id20:");
    buf.extend_from_slice(&[1u8; 20]);
    buf.extend_from_slice(b"e1:t20:");
    buf.extend_from_slice(&hash);
    buf.push(b'e');
    let resp = Response::from_bytes_full(&buf).unwrap();
    assert!(matches_target(&resp.t, &hash));
    assert!(!matches_target(&resp.t, &[0u8; 20]));
    // A reply to some other query type carries the placeholder id.
    let other = Response::from_bytes_full(b"d1:rd2:id3:abce1:t1:0e").unwrap();
    assert_eq!(other.t, b"0");
    assert!(!matches_target(&other.t, &hash));
}

#[test]
fn response_errors() {
    // Not bencode at all.
    assert!(Response::from_bytes(b"nonsense").is_err());
    // No result dictionary.
    assert!(Response::from_bytes(b"d1:t2:aae").is_err());
    // Result dictionary without the responder identity.
    assert!(Response::from_bytes(b"d1:rde1:t2:aae").is_err());
    // Identity present but transaction id missing.
    let mut buf = Vec::new();
    buf.extend_from_slice(b"d1:rd2:id20:");
    buf.extend_from_slice(&[0u8; 20]);
    buf.extend_from_slice(b"ee");
    assert!(Response::from_bytes(&buf).is_err());
    // A peer value that is not a byte string.
    assert!(Response::from_bytes(b"d1:rd2:id3:abc6:valuesli5eee1:t1:0e").is_err());
    // Duplicate known key.
    assert!(Response::from_bytes(b"d1:rd2:id3:abc2:id3:abce1:t1:0e").is_err());
}

#[test]
fn response_ignores_unknown_keys() {
    let mut buf = Vec::new();
    buf.extend_from_slice(b"d2:ip4:");
    buf.extend_from_slice(&[9, 9, 9, 9]);
    buf.extend_from_slice(b"1:rd2:id20:");
    buf.extend_from_slice(&[7u8; 20]);
    buf.extend_from_slice(b"5:extrali1ei2eee1:t1:01:y1:re");
    let args = Response::from_bytes(&buf).unwrap();
    assert_eq!(args.id, vec![7u8; 20]);
    // A short identity is delivered as-is; the fixed-size accessor is
    // only for full-length identities.
    let peer = Peer::Peer(vec![1, 2, 3, 4, 0x1A, 0xE1]);
    assert_eq!(peer.port(), 6881);
}
