//! The verified document's summary dictionary.

use dht_crawler::metainfo::{InfoDict, MetaInfo};
use sha1::{Digest, Sha1};

fn digest(data: &[u8]) -> [u8; 20] {
    let mut hasher = Sha1::new();
    hasher.update(data);
    let out = hasher.finalize();
    let mut r = [0u8; 20];
    r.copy_from_slice(&out);
    r
}

fn single_file_dict() -> Vec<u8> {
    let mut d = Vec::new();
    d.extend_from_slice(b"d6:lengthi1000e4:name8:testname12:piece lengthi16384e6:pieces20:");
    d.extend_from_slice(&[0x44u8; 20]);
    d.push(b'e');
    d
}

#[test]
fn summary_decodes_single_file() {
    let d = single_file_dict();
    let dict = InfoDict::from_bytes(&d).unwrap();
    assert_eq!(dict.name, b"testname");
    assert_eq!(dict.length, Some(1000));
    assert_eq!(dict.piece_length, 16384);
    assert_eq!(dict.pieces, vec![0x44u8; 20]);
    assert!(dict.files.is_none());
}

#[test]
fn summary_decodes_file_list() {
    let d = b"d5:filesld6:lengthi7e4:pathl3:dir4:fileeed6:lengthi9e4:pathl1:aeee4:name2:ab12:piece lengthi1e6:pieces0:e";
    let dict = InfoDict::from_bytes(&d[..]).unwrap();
    let files = dict.files.unwrap();
    assert_eq!(files.len(), 2);
    assert_eq!(files[0].length, 7);
    assert_eq!(files[0].path, vec![b"dir".to_vec(), b"file".to_vec()]);
    assert_eq!(files[1].length, 9);
    assert_eq!(files[1].path, vec![b"a".to_vec()]);
    assert_eq!(dict.name, b"ab");
}

#[test]
fn summary_rejects_incomplete_dictionaries() {
    // Name missing.
    assert!(InfoDict::from_bytes(b"d12:piece lengthi1e6:pieces0:e").is_err());
    // A file entry without a path.
    assert!(
        InfoDict::from_bytes(b"d5:filesld6:lengthi7eee4:name1:a12:piece lengthi1e6:pieces0:e")
            .is_err()
    );
    // Not a dictionary.
    assert!(InfoDict::from_bytes(b"le").is_err());
}

#[test]
fn assembler_parses_its_verified_document() {
    let d = single_file_dict();
    let mut meta = MetaInfo::new(digest(&d));
    meta.got_size(d.len());
    let mut msg = Vec::new();
    msg.extend_from_slice(format!("d8:msg_typei1e5:piecei0e10:total_sizei{}ee", d.len()).as_bytes());
    msg.extend_from_slice(&d);
    assert!(meta.got_metadata_message(&msg));
    let dict = meta.parse_document().unwrap();
    assert_eq!(dict.name, b"testname");
    assert_eq!(dict.length, Some(1000));
}
