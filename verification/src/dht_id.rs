//! IP-bound identity generation.  The discovery network expects a node's
//! identity to repeat, in its first bytes, a keyed checksum of the node's
//! address, so that third parties can judge an identity plausible for the
//! address it speaks from.

use vstd::prelude::*;

verus! {

/// Checksum value of the Castagnoli 32-bit cyclic redundancy check.
pub uninterp spec fn crc32c_of(data: Seq<u8>) -> u32;

/// Relies on crc's `Crc::<u32>::checksum` with the `CRC_32_ISCSI`
/// (Castagnoli) parameters: the checksum is a function of the input
/// bytes alone.
#[verifier::external_body]
fn crc32c(data: &[u8]) -> (r: u32)
    ensures
        r == crc32c_of(data@),
{
    crc::Crc::<u32>::new(&crc::CRC_32_ISCSI).checksum(data)
}

/// Relies on rand's `RngCore::fill_bytes` on the thread generator: the
/// buffer is filled; nothing is promised of the values.
#[verifier::external_body]
fn random_bytes(n: usize) -> (r: Vec<u8>)
    ensures
        r@.len() == n,
{
    let mut v = vec![0u8; n];
    rand::RngCore::fill_bytes(&mut rand::thread_rng(), &mut v);
    v
}

/// The address word that is checksummed: the address masked to its
/// significant bits, keyed by the random byte in the top three bits.
pub open spec fn keyed_input(ip: u32, r: u8) -> u32 {
    (ip & 0x030f3fff) | ((r as u32) << 29)
}

/// The four big-endian bytes of a 32-bit value.
pub open spec fn be32_bytes(x: u32) -> Seq<u8> {
    seq![
        ((x >> 24) & 0xff) as u8,
        ((x >> 16) & 0xff) as u8,
        ((x >> 8) & 0xff) as u8,
        (x & 0xff) as u8,
    ]
}

/// The three leading bytes of the keyed checksum of the address.
pub open spec fn magic_prefix(ip: u32, r: u8) -> Seq<u8> {
    be32_bytes(crc32c_of(be32_bytes(keyed_input(ip, r)))).subrange(0, 3)
}

/// The generated identity: the magic prefix, with the third byte's low
/// three bits drawn from `tweak`, sixteen free bytes, and the key byte
/// `r` last.
pub open spec fn id_bytes(ip: u32, r: u8, tweak: u8, mid: Seq<u8>) -> Seq<u8>
    recommends
        mid.len() == 16,
{
    let p = magic_prefix(ip, r);
    seq![p[0], p[1], (p[2] & 0xf8) | (tweak & 0x07)] + mid + seq![r]
}

/// An identity is plausibly derived from an address when its first two
/// bytes repeat the keyed checksum of the address and its last byte, and
/// the third byte agrees on its high five bits.
pub open spec fn id_matches_ip(ip: u32, id: Seq<u8>) -> bool {
    let p = magic_prefix(ip, id[19]);
    &&& id.len() == 20
    &&& id[0] == p[0]
    &&& id[1] == p[1]
    &&& (id[2] & 0xf8) == (p[2] & 0xf8)
}

/// Whatever the random draw, the generated bytes pass the plausibility
/// check against the address they were generated for.
pub proof fn lemma_generated_id_matches_ip(ip: u32, r: u8, tweak: u8, mid: Seq<u8>)
    requires
        mid.len() == 16,
    ensures
        id_matches_ip(ip, id_bytes(ip, r, tweak, mid)),
{
    let p = magic_prefix(ip, r);
    let id = id_bytes(ip, r, tweak, mid);
    assert(id[19] == r);
    assert(id[2] == (p[2] & 0xf8) | (tweak & 0x07));
    let pb = p[2];
    let tw = tweak;
    assert((((pb & 0xf8) | (tw & 0x07)) & 0xf8) == (pb & 0xf8)) by (bit_vector);
}

/// For one address and one random draw the generator yields a single
/// fixed byte sequence: the identity is deterministic in its inputs.
pub proof fn lemma_identity_deterministic(
    ip: u32,
    r: u8,
    tweak: u8,
    mid: Seq<u8>,
    a: Seq<u8>,
    b: Seq<u8>,
)
    requires
        a == id_bytes(ip, r, tweak, mid),
        b == id_bytes(ip, r, tweak, mid),
    ensures
        a == b,
{
}

/// The big-endian bytes of a 32-bit value.
fn u32_be(x: u32) -> (r: [u8; 4])
    ensures
        r@ == be32_bytes(x),
{
    let r: [u8; 4] = [
        ((x >> 24) & 0xff) as u8,
        ((x >> 16) & 0xff) as u8,
        ((x >> 8) & 0xff) as u8,
        (x & 0xff) as u8,
    ];
    proof {
        assert(r@ =~= be32_bytes(x));
    }
    r
}

/// The three leading bytes of the keyed checksum of the address.
fn magic_prefix_from_ip(ip: u32, seed_r: u8) -> (p: [u8; 3])
    ensures
        p@ == magic_prefix(ip, seed_r),
{
    let nonsense: u32 = (ip & 0x030f3fff) | ((seed_r as u32) << 29);
    let nb: [u8; 4] = u32_be(nonsense);
    let c: u32 = crc32c(nb.as_slice());
    let cb: [u8; 4] = u32_be(c);
    let p: [u8; 3] = [cb[0], cb[1], cb[2]];
    proof {
        assert(p@ =~= magic_prefix(ip, seed_r));
    }
    p
}

/// Assembles an identity from an address and the three random draws.
pub fn id_from_parts(ip: u32, r: u8, tweak: u8, mid: &[u8]) -> (out: [u8; 20])
    requires
        mid@.len() == 16,
    ensures
        out@ == id_bytes(ip, r, tweak, mid@),
{
    let p = magic_prefix_from_ip(ip, r);
    let mut out: [u8; 20] = [0u8; 20];
    out[0] = p[0];
    out[1] = p[1];
    out[2] = (p[2] & 0xf8) | (tweak & 0x07);
    let mut i: usize = 3;
    while i < 19
        invariant
            3 <= i <= 19,
            mid@.len() == 16,
            p@ == magic_prefix(ip, r),
            out@[0] == p@[0],
            out@[1] == p@[1],
            out@[2] == (p@[2] & 0xf8) | (tweak & 0x07),
            forall|j: int| 3 <= j < i ==> out@[j] == mid@[j - 3],
        decreases 19 - i,
    {
        out[i] = mid[i - 3];
        i = i + 1;
    }
    out[19] = r;
    proof {
        assert(out@ =~= id_bytes(ip, r, tweak, mid@));
    }
    out
}

/// Generates a fresh identity for the address: random except for the
/// keyed prefix, which always passes the plausibility check for `ip`.
pub fn id_from_ip(ip: u32) -> (out: [u8; 20])
    ensures
        id_matches_ip(ip, out@),
{
    let rb = random_bytes(18);
    let r: u8 = rb[0];
    let tweak: u8 = rb[1];
    let mid: &[u8] = &rb.as_slice()[2..18];
    let out = id_from_parts(ip, r, tweak, mid);
    proof {
        lemma_generated_id_matches_ip(ip, r, tweak, mid@);
    }
    out
}

} // verus!
