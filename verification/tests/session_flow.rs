//! The peer-session frame handler, and the end-to-end flow from a mocked
//! discovery response to a verified document.

use dht_crawler::crawl::CrawlState;
use dht_crawler::dht_structs::Response;
use dht_crawler::metainfo::MetaInfo;
use dht_crawler::session::{FrameAction, PeerSession};
use sha1::{Digest, Sha1};

fn digest(data: &[u8]) -> [u8; 20] {
    let mut hasher = Sha1::new();
    hasher.update(data);
    let out = hasher.finalize();
    let mut r = [0u8; 20];
    r.copy_from_slice(&out);
    r
}

fn ext_handshake_frame(sub_id: u8, size: usize) -> Vec<u8> {
    let mut f = vec![20, 0];
    f.extend_from_slice(
        format!("d1:md11:ut_metadatai{sub_id}ee13:metadata_sizei{size}ee").as_bytes(),
    );
    f
}

fn chunk_frame(piece: usize, total: usize, payload: &[u8]) -> Vec<u8> {
    let mut f = vec![20, 2];
    f.extend_from_slice(
        format!("d8:msg_typei1e5:piecei{piece}e10:total_sizei{total}ee").as_bytes(),
    );
    f.extend_from_slice(payload);
    f
}

#[test]
fn small_frames_and_unknown_types_are_ignored() {
    let mut meta = MetaInfo::new([0u8; 20]);
    let mut session = PeerSession::new();
    assert!(matches!(
        session.handle_frame(&mut meta, &vec![]),
        FrameAction::Ignore
    ));
    assert!(matches!(
        session.handle_frame(&mut meta, &vec![7]),
        FrameAction::Ignore
    ));
    assert!(matches!(
        session.handle_frame(&mut meta, &vec![5, 0, 1, 2]),
        FrameAction::Ignore
    ));
    assert!(matches!(
        session.handle_frame(&mut meta, &vec![20, 9, 1]),
        FrameAction::Ignore
    ));
}

#[test]
fn extension_handshake_starts_a_request() {
    let document: Vec<u8> = (0..100u32).map(|i| i as u8).collect();
    let mut meta = MetaInfo::new(digest(&document));
    let mut session = PeerSession::new();
    let action = session.handle_frame(&mut meta, &ext_handshake_frame(3, 100));
    let FrameAction::Send(bytes) = action else {
        panic!("expected a request");
    };
    // A framed request for chunk 0, addressed to the peer's sub-id.
    let body = b"d8:msg_typei0e5:piecei0ee";
    let mut expected = Vec::new();
    expected.extend_from_slice(&((body.len() as u32 + 2).to_be_bytes()));
    expected.push(20);
    expected.push(3);
    expected.extend_from_slice(body);
    assert_eq!(bytes, expected);
    assert_eq!(meta.size(), Some(100));
}

#[test]
fn handshake_without_metadata_support_is_ignored() {
    let mut meta = MetaInfo::new([0u8; 20]);
    let mut session = PeerSession::new();
    let mut frame = vec![20, 0];
    frame.extend_from_slice(b"d1:mdee");
    assert!(matches!(
        session.handle_frame(&mut meta, &frame),
        FrameAction::Ignore
    ));
}

#[test]
fn violations_end_the_session() {
    let mut meta = MetaInfo::new([0u8; 20]);
    let mut session = PeerSession::new();
    // Unparsable extension handshake.
    let mut bad = vec![20, 0];
    bad.extend_from_slice(b"notbencode");
    assert!(matches!(
        session.handle_frame(&mut meta, &bad),
        FrameAction::Violation
    ));
    // Metadata support advertised without a size.
    let mut nosize = vec![20, 0];
    nosize.extend_from_slice(b"d1:md11:ut_metadatai1eee");
    assert!(matches!(
        session.handle_frame(&mut meta, &nosize),
        FrameAction::Violation
    ));
    // Chunk data before any size was learned.
    assert!(matches!(
        session.handle_frame(&mut meta, &chunk_frame(0, 100, &[0u8; 100])),
        FrameAction::Violation
    ));
    // Learn a size, then watch a mismatched one get rejected.
    meta.got_size(100);
    assert!(matches!(
        session.handle_frame(&mut meta, &ext_handshake_frame(1, 200)),
        FrameAction::Violation
    ));
    assert_eq!(meta.size(), Some(100));
    // A chunk declaring the wrong total size.
    assert!(matches!(
        session.handle_frame(&mut meta, &chunk_frame(0, 200, &[0u8; 100])),
        FrameAction::Violation
    ));
    // A chunk index out of range.
    assert!(matches!(
        session.handle_frame(&mut meta, &chunk_frame(5, 100, &[0u8; 100])),
        FrameAction::Violation
    ));
    // A payload shorter than the chunk.
    assert!(matches!(
        session.handle_frame(&mut meta, &chunk_frame(0, 100, &[0u8; 10])),
        FrameAction::Violation
    ));
}

#[test]
fn crawl_reaches_verified_document() {
    // The crawl's target.
    let document: Vec<u8> = (0..100u32).map(|i| (i * 7) as u8).collect();
    let info_hash = digest(&document);

    // A mocked discovery response carrying two compact peer records.
    let mut blob = Vec::new();
    blob.extend_from_slice(b"d1:rd2:id20:");
    blob.extend_from_slice(&[0x33u8; 20]);
    blob.extend_from_slice(b"6:valuesl6:");
    blob.extend_from_slice(&[10, 0, 0, 1, 0x1A, 0xE1]);
    blob.extend_from_slice(b"6:");
    blob.extend_from_slice(&[10, 0, 0, 2, 0x1A, 0xE1]);
    blob.extend_from_slice(b"ee1:t20:");
    blob.extend_from_slice(&info_hash);
    blob.push(b'e');
    let args = Response::from_bytes(&blob).unwrap();

    // Each fresh peer address gets one session.
    let mut crawl = CrawlState::new();
    let peers = args.values.unwrap();
    assert_eq!(peers.len(), 2);
    let mut sessions = Vec::new();
    for peer in &peers {
        if crawl.note_session(peer.addr_key()) {
            sessions.push(PeerSession::new());
        }
    }
    assert_eq!(sessions.len(), 2);
    // The same response again spawns nothing new.
    for peer in &peers {
        assert!(!crawl.note_session(peer.addr_key()));
    }

    // Both peers complete the extension handshake declaring size 100.
    let mut meta = MetaInfo::new(info_hash);
    let mut requested = Vec::new();
    for session in sessions.iter_mut() {
        match session.handle_frame(&mut meta, &ext_handshake_frame(1, 100)) {
            FrameAction::Send(_) => requested.push(()),
            other => panic!("expected a request, got {other:?}"),
        }
    }
    // One chunk exists, so both sessions request chunk 0 -- and nothing
    // ever requests it a third time before data arrives.
    assert_eq!(meta.inner.as_ref().unwrap().pieces[0], 2);

    // Both serve the whole 100-byte document as overlapping chunk 0.
    let first = sessions[0].handle_frame(&mut meta, &chunk_frame(0, 100, &document));
    assert!(matches!(first, FrameAction::Finished));
    let second = sessions[1].handle_frame(&mut meta, &chunk_frame(0, 100, &document));
    assert!(matches!(second, FrameAction::Finished));

    assert_eq!(meta.inner.as_ref().unwrap().pieces[0], 2);
    assert_eq!(meta.document(), Some(document));
}
