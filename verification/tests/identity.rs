//! The identity generator against an independent recomputation of its
//! keyed checksum.

use crc::{Crc, CRC_32_ISCSI};
use dht_crawler::dht_id::{id_from_ip, id_from_parts};

fn expected_prefix(ip: u32, r: u8) -> [u8; 4] {
    let keyed: u32 = (ip & 0x030f3fff) | ((r as u32) << 29);
    let sum = Crc::<u32>::new(&CRC_32_ISCSI).checksum(&keyed.to_be_bytes());
    sum.to_be_bytes()
}

#[test]
fn identity_is_deterministic_for_fixed_draws() {
    let ip: u32 = u32::from_be_bytes([203, 0, 113, 7]);
    let mid = [0x5Au8; 16];
    let a = id_from_parts(ip, 0x91, 0x33, &mid);
    let b = id_from_parts(ip, 0x91, 0x33, &mid);
    assert_eq!(a, b);
}

#[test]
fn identity_prefix_follows_checksum_formula() {
    let ip: u32 = u32::from_be_bytes([203, 0, 113, 7]);
    let r: u8 = 0x91;
    let mid = [0u8; 16];
    let id = id_from_parts(ip, r, 0x07, &mid);
    let prefix = expected_prefix(ip, r);
    assert_eq!(id[0], prefix[0]);
    assert_eq!(id[1], prefix[1]);
    assert_eq!(id[2] & 0xf8, prefix[2] & 0xf8);
    assert_eq!(id[2] & 0x07, 0x07);
    assert_eq!(id[19], r);
    assert_eq!(&id[3..19], &mid);
}

#[test]
fn identity_prefix_holds_across_many_addresses() {
    let r: u8 = 0xC4;
    let mid = [0x10u8; 16];
    for k in 0u32..10_000 {
        let ip = 0x0A00_0000u32.wrapping_add(k.wrapping_mul(2654435761));
        let id = id_from_parts(ip, r, 0, &mid);
        let prefix = expected_prefix(ip, r);
        assert_eq!(id[0], prefix[0]);
        assert_eq!(id[1], prefix[1]);
        assert_eq!(id[2] & 0xf8, prefix[2] & 0xf8);
    }
}

#[test]
fn random_identity_matches_its_address() {
    let ip: u32 = u32::from_be_bytes([198, 51, 100, 23]);
    let id = id_from_ip(ip);
    // Recompute the prefix from the address and the identity's own key
    // byte: a verifier with only (address, identity) accepts it.
    let prefix = expected_prefix(ip, id[19]);
    assert_eq!(id[0], prefix[0]);
    assert_eq!(id[1], prefix[1]);
    assert_eq!(id[2] & 0xf8, prefix[2] & 0xf8);
}
