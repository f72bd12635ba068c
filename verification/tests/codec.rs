//! Byte-exact checks of the outbound encoders and the inbound decoders.

use dht_crawler::basic_query;
use dht_crawler::bt_structs::{ExtensionHandshake, Handshake, MetadataExtension, MetadataMessage};
use dht_crawler::dht_structs::{
    FindNodeQuery, GetPeersQuery, PingQuery, SampleInfohashesQuery,
};
use dht_crawler::metainfo::MetadataMessage as ChunkMessage;

#[test]
fn ping_query_bytes() {
    let id = [0x41u8; 20];
    let out = PingQuery { id }.into_bytes();
    let mut expected = Vec::new();
    expected.extend_from_slice(b"d1:ad2:id20:");
    expected.extend_from_slice(&id);
    expected.extend_from_slice(b"e1:q4:ping1:t1:01:v4:XX011:y1:qe");
    assert_eq!(out, expected);
}

#[test]
fn get_peers_transaction_id_is_hash() {
    let id = [0x42u8; 20];
    let mut hash = [0u8; 20];
    for (i, b) in hash.iter_mut().enumerate() {
        *b = i as u8;
    }
    let out = GetPeersQuery { id, info_hash: hash }.into_bytes();
    let mut expected = Vec::new();
    expected.extend_from_slice(b"d1:ad2:id20:");
    expected.extend_from_slice(&id);
    expected.extend_from_slice(b"9:info_hash20:");
    expected.extend_from_slice(&hash);
    expected.extend_from_slice(b"e1:q9:get_peers1:t20:");
    expected.extend_from_slice(&hash);
    expected.extend_from_slice(b"1:v4:XX011:y1:qe");
    assert_eq!(out, expected);
    // The transaction id is the content hash itself.
    let t_pos = out.windows(6).position(|w| w == b"1:t20:").unwrap() + 6;
    assert_eq!(&out[t_pos..t_pos + 20], &hash);
}

#[test]
fn find_node_query_bytes() {
    let id = [1u8; 20];
    let target = [2u8; 20];
    let out = FindNodeQuery { id, target }.into_bytes();
    let mut expected = Vec::new();
    expected.extend_from_slice(b"d1:ad2:id20:");
    expected.extend_from_slice(&id);
    expected.extend_from_slice(b"6:target20:");
    expected.extend_from_slice(&target);
    expected.extend_from_slice(b"e1:q9:find_node1:t1:01:v4:XX011:y1:qe");
    assert_eq!(out, expected);
}

#[test]
fn sample_infohashes_query_bytes() {
    let id = [3u8; 20];
    let target = [4u8; 20];
    let out = SampleInfohashesQuery { id, target }.into_bytes();
    let mut expected = Vec::new();
    expected.extend_from_slice(b"d1:ad2:id20:");
    expected.extend_from_slice(&id);
    expected.extend_from_slice(b"6:target20:");
    expected.extend_from_slice(&target);
    expected.extend_from_slice(b"e1:q17:sample_infohashes1:t1:01:v4:XX011:y1:qe");
    assert_eq!(out, expected);
}

#[test]
fn bare_ping_query_bytes() {
    let id = [0x55u8; 20];
    let out = basic_query::PingQuery { id }.into_bytes();
    let mut expected = Vec::new();
    expected.extend_from_slice(b"d1:ad2:id20:");
    expected.extend_from_slice(&id);
    expected.extend_from_slice(b"e1:q4:ping1:y1:qe");
    assert_eq!(out, expected);
}

#[test]
fn handshake_bytes_layout() {
    let info_hash = [7u8; 20];
    let peer_id = [9u8; 20];
    let out = Handshake { info_hash, peer_id }.to_bytes();
    // 68 handshake bytes, then a 6-byte frame header, then 24 dictionary bytes.
    assert_eq!(out.len(), 98);
    assert_eq!(out[0], 19);
    assert_eq!(&out[1..20], b"BitTorrent protocol");
    assert_eq!(&out[20..28], &[0, 0, 0, 0, 0, 0x10, 0, 0]);
    assert_eq!(&out[28..48], &info_hash);
    assert_eq!(&out[48..68], &peer_id);
    assert_eq!(&out[68..74], &[0, 0, 0, 26, 20, 0]);
    assert_eq!(&out[74..98], b"d1:md11:ut_metadatai2eee");
}

#[test]
fn extension_defaults() {
    let ext = MetadataExtension::default();
    assert_eq!(ext.ut_metadata, Some(2));
    let hs = ExtensionHandshake::default();
    assert_eq!(hs.m.ut_metadata, Some(2));
    assert!(hs.metadata_size.is_none());
}

#[test]
fn extension_handshake_decode() {
    // Trailing bytes after the dictionary are ignored.
    let buf = b"d1:md11:ut_metadatai3ee13:metadata_sizei31235eetrailing";
    let hs = ExtensionHandshake::from_bytes(&buf[..]).unwrap();
    assert_eq!(hs.m.ut_metadata, Some(3));
    assert_eq!(hs.metadata_size, Some(31235));
}

#[test]
fn extension_handshake_without_metadata() {
    let buf = b"d1:mde1:v9:somethinge";
    let hs = ExtensionHandshake::from_bytes(&buf[..]).unwrap();
    assert_eq!(hs.m.ut_metadata, None);
    assert_eq!(hs.metadata_size, None);
}

#[test]
fn extension_handshake_rejects_garbage() {
    assert!(ExtensionHandshake::from_bytes(b"garbage").is_err());
    // The capability map is required.
    assert!(ExtensionHandshake::from_bytes(b"d13:metadata_sizei5ee").is_err());
    // A duplicate key is rejected.
    assert!(ExtensionHandshake::from_bytes(b"d1:mde1:mdee").is_err());
}

#[test]
fn metadata_request_bytes() {
    let out = MetadataMessage { msg_type: 0, piece: 1 }.to_bytes(3);
    let body = b"d8:msg_typei0e5:piecei1ee";
    let mut expected = Vec::new();
    expected.extend_from_slice(&((body.len() as u32 + 2).to_be_bytes()));
    expected.push(20);
    expected.push(3);
    expected.extend_from_slice(body);
    assert_eq!(out, expected);
}

#[test]
fn chunk_message_bytes_and_decode() {
    let out = ChunkMessage { msg_type: 0, piece: 2, total_size: None }.to_bytes(4);
    let body = b"d8:msg_typei0e5:piecei2ee";
    let mut expected = Vec::new();
    expected.extend_from_slice(&((body.len() as u32 + 2).to_be_bytes()));
    expected.push(20);
    expected.push(4);
    expected.extend_from_slice(body);
    assert_eq!(out, expected);

    // A data message: the dictionary, then the raw chunk bytes.
    let mut data = Vec::new();
    data.extend_from_slice(b"d8:msg_typei1e5:piecei0e10:total_sizei100ee");
    data.extend_from_slice(&[0xABu8; 100]);
    let msg = ChunkMessage::from_bytes(&data).unwrap();
    assert_eq!(msg.msg_type, 1);
    assert_eq!(msg.piece, 0);
    assert_eq!(msg.total_size, Some(100));

    assert!(ChunkMessage::from_bytes(b"d5:piecei0ee").is_err());
    assert!(ChunkMessage::from_bytes(b"12:not a number").is_err());
}
