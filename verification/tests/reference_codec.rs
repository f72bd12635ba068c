//! Cross-checks against an independent bencode implementation: the
//! library's encoders must agree with it byte for byte, and what the
//! library emits must read back as the intended dictionary.

use std::collections::HashMap;

use dht_crawler::dht_structs::{GetPeersQuery, PingQuery};
use dht_crawler::metainfo::MetadataMessage as ChunkMessage;
use serde_bencode::value::Value;

fn bytes(v: &[u8]) -> Value {
    Value::Bytes(v.to_vec())
}

fn dict(entries: Vec<(&[u8], Value)>) -> Value {
    let mut m = HashMap::new();
    for (k, v) in entries {
        m.insert(k.to_vec(), v);
    }
    Value::Dict(m)
}

#[test]
fn ping_encoding_agrees_with_reference() {
    let id = [0x7Eu8; 20];
    let reference = dict(vec![
        (b"t", bytes(b"0")),
        (b"v", bytes(b"XX01")),
        (b"y", bytes(b"q")),
        (b"q", bytes(b"ping")),
        (b"a", dict(vec![(b"id", bytes(&id))])),
    ]);
    let expected = serde_bencode::to_bytes(&reference).unwrap();
    assert_eq!(PingQuery { id }.into_bytes(), expected);
}

#[test]
fn get_peers_encoding_agrees_with_reference() {
    let id = [0x7Fu8; 20];
    let hash: Vec<u8> = (0..20u8).map(|i| i.wrapping_mul(13)).collect();
    let mut info_hash = [0u8; 20];
    info_hash.copy_from_slice(&hash);
    let reference = dict(vec![
        (b"t", bytes(&hash)),
        (b"v", bytes(b"XX01")),
        (b"y", bytes(b"q")),
        (b"q", bytes(b"get_peers")),
        (
            b"a",
            dict(vec![(b"id", bytes(&id)), (b"info_hash", bytes(&hash))]),
        ),
    ]);
    let expected = serde_bencode::to_bytes(&reference).unwrap();
    assert_eq!(GetPeersQuery { id, info_hash }.into_bytes(), expected);
}

#[test]
fn chunk_request_agrees_with_reference() {
    let reference = dict(vec![
        (b"msg_type", Value::Int(0)),
        (b"piece", Value::Int(7)),
    ]);
    let expected_body = serde_bencode::to_bytes(&reference).unwrap();
    let out = ChunkMessage { msg_type: 0, piece: 7, total_size: None }.to_bytes(9);
    assert_eq!(&out[..4], ((expected_body.len() as u32) + 2).to_be_bytes());
    assert_eq!(&out[4..6], &[20, 9]);
    assert_eq!(&out[6..], expected_body);
}

#[test]
fn reference_reads_back_our_messages() {
    let id = [0x10u8; 20];
    let encoded = PingQuery { id }.into_bytes();
    let value: Value = serde_bencode::from_bytes(&encoded).unwrap();
    let Value::Dict(top) = value else {
        panic!("expected a dictionary");
    };
    assert_eq!(top.get(b"q".as_slice()), Some(&bytes(b"ping")));
    assert_eq!(top.get(b"y".as_slice()), Some(&bytes(b"q")));
    assert_eq!(top.get(b"t".as_slice()), Some(&bytes(b"0")));
    let Some(Value::Dict(args)) = top.get(b"a".as_slice()) else {
        panic!("expected an argument dictionary");
    };
    assert_eq!(args.get(b"id".as_slice()), Some(&bytes(&id)));
}
