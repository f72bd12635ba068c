//! Discovery-protocol messages: outbound query envelopes, compact node and
//! peer records, and the inbound response envelope.

use vstd::prelude::*;
use crate::bencode::{
    benc_str,
    sub_vec,
    DecodeError,
    match_key,
    parse_bint,
    parse_bint_x,
    parse_bstr,
    parse_bstr_x,
    push_bstr,
    push_bytes,
    skip_value,
    skip_value_x,
};
use crate::text::{host_chars, push_port, quad_chars, quad_string};

verus! {

// Byte forms of the envelope keys and tags.
pub const KEY_A: [u8; 3] = [49u8, 58u8, 97u8];

pub const KEY_Q: [u8; 3] = [49u8, 58u8, 113u8];

pub const KEY_T: [u8; 3] = [49u8, 58u8, 116u8];

pub const KEY_V: [u8; 3] = [49u8, 58u8, 118u8];

pub const KEY_Y: [u8; 3] = [49u8, 58u8, 121u8];

pub const KEY_ID_TAG: [u8; 4] = [50u8, 58u8, 105u8, 100u8];

pub const KEY_INFO_HASH_TAG: [u8; 11] = [
    57u8,
    58u8,
    105u8,
    110u8,
    102u8,
    111u8,
    95u8,
    104u8,
    97u8,
    115u8,
    104u8,
];

pub const KEY_TARGET_TAG: [u8; 8] = [54u8, 58u8, 116u8, 97u8, 114u8, 103u8, 101u8, 116u8];

pub const VERSION_TAG: [u8; 4] = [88u8, 88u8, 48u8, 49u8];

pub const QUERY_MARK: [u8; 1] = [113u8];

pub const T_DEFAULT: [u8; 1] = [48u8];

pub const QNAME_PING: [u8; 4] = [112u8, 105u8, 110u8, 103u8];

pub const QNAME_GET_PEERS: [u8; 9] = [103u8, 101u8, 116u8, 95u8, 112u8, 101u8, 101u8, 114u8, 115u8];

pub const QNAME_FIND_NODE: [u8; 9] = [102u8, 105u8, 110u8, 100u8, 95u8, 110u8, 111u8, 100u8, 101u8];

pub const QNAME_SAMPLE: [u8; 17] = [
    115u8,
    97u8,
    109u8,
    112u8,
    108u8,
    101u8,
    95u8,
    105u8,
    110u8,
    102u8,
    111u8,
    104u8,
    97u8,
    115u8,
    104u8,
    101u8,
    115u8,
];

/// The query envelope: a dictionary whose keys stand in sorted order
/// `a`, `q`, `t`, `v`, `y`, where `args` is the already-encoded argument
/// dictionary and `y` is always `q`.
pub open spec fn query_env(qname: Seq<u8>, t: Seq<u8>, args: Seq<u8>) -> Seq<u8> {
    seq![100u8] + KEY_A@ + args + KEY_Q@ + benc_str(qname) + KEY_T@ + benc_str(t) + KEY_V@
        + benc_str(VERSION_TAG@) + KEY_Y@ + benc_str(QUERY_MARK@) + seq![101u8]
}

/// An argument dictionary holding only the sender identity.
pub open spec fn args_id_only(id: Seq<u8>) -> Seq<u8> {
    seq![100u8] + KEY_ID_TAG@ + benc_str(id) + seq![101u8]
}

/// An argument dictionary holding the sender identity and the target
/// content hash.
pub open spec fn args_id_hash(id: Seq<u8>, hash: Seq<u8>) -> Seq<u8> {
    seq![100u8] + KEY_ID_TAG@ + benc_str(id) + KEY_INFO_HASH_TAG@ + benc_str(hash) + seq![101u8]
}

/// An argument dictionary holding the sender identity and a search target.
pub open spec fn args_id_target(id: Seq<u8>, target: Seq<u8>) -> Seq<u8> {
    seq![100u8] + KEY_ID_TAG@ + benc_str(id) + KEY_TARGET_TAG@ + benc_str(target) + seq![101u8]
}

/// Builds the full query envelope around an encoded argument dictionary.
fn query_bytes(qname: &[u8], t: &[u8], args: &Vec<u8>) -> (out: Vec<u8>)
    ensures
        out@ == query_env(qname@, t@, args@),
{
    let mut out: Vec<u8> = Vec::new();
    out.push(100);
    push_bytes(&mut out, KEY_A.as_slice());
    push_bytes(&mut out, args.as_slice());
    push_bytes(&mut out, KEY_Q.as_slice());
    push_bstr(&mut out, qname);
    push_bytes(&mut out, KEY_T.as_slice());
    push_bstr(&mut out, t);
    push_bytes(&mut out, KEY_V.as_slice());
    push_bstr(&mut out, VERSION_TAG.as_slice());
    push_bytes(&mut out, KEY_Y.as_slice());
    push_bstr(&mut out, QUERY_MARK.as_slice());
    out.push(101);
    proof {
        assert(out@ =~= query_env(qname@, t@, args@));
    }
    out
}

/// Builds an argument dictionary with the identity alone.
fn args_bytes_id(id: &[u8; 20]) -> (out: Vec<u8>)
    ensures
        out@ == args_id_only(id@),
{
    let mut out: Vec<u8> = Vec::new();
    out.push(100);
    push_bytes(&mut out, KEY_ID_TAG.as_slice());
    push_bstr(&mut out, id.as_slice());
    out.push(101);
    proof {
        assert(out@ =~= args_id_only(id@));
    }
    out
}

/// Builds an argument dictionary with the identity and one more 20-byte
/// field under the given already-tagged key.
fn args_bytes_id_pair(id: &[u8; 20], tag: &[u8], second: &[u8; 20]) -> (out: Vec<u8>)
    ensures
        out@ == seq![100u8] + KEY_ID_TAG@ + benc_str(id@) + tag@ + benc_str(second@) + seq![101u8],
{
    let mut out: Vec<u8> = Vec::new();
    out.push(100);
    push_bytes(&mut out, KEY_ID_TAG.as_slice());
    push_bstr(&mut out, id.as_slice());
    push_bytes(&mut out, tag);
    push_bstr(&mut out, second.as_slice());
    out.push(101);
    proof {
        assert(out@ =~= seq![100u8] + KEY_ID_TAG@ + benc_str(id@) + tag@ + benc_str(second@)
            + seq![101u8]);
    }
    out
}

/// A liveness probe carrying only the sender identity.
pub struct PingQuery {
    pub id: [u8; 20],
}

impl PingQuery {
    pub fn into_bytes(self) -> (out: Vec<u8>)
        ensures
            out@ == query_env(QNAME_PING@, T_DEFAULT@, args_id_only(self.id@)),
    {
        let args = args_bytes_id(&self.id);
        query_bytes(QNAME_PING.as_slice(), T_DEFAULT.as_slice(), &args)
    }
}

/// A peer search for a content hash.  The transaction id of the envelope
/// is the content hash itself, so floods of replies correlate without a
/// side table.
pub struct GetPeersQuery {
    pub id: [u8; 20],
    pub info_hash: [u8; 20],
}

impl GetPeersQuery {
    pub fn into_bytes(self) -> (out: Vec<u8>)
        ensures
            out@ == query_env(
                QNAME_GET_PEERS@,
                self.info_hash@,
                args_id_hash(self.id@, self.info_hash@),
            ),
    {
        let args = args_bytes_id_pair(&self.id, KEY_INFO_HASH_TAG.as_slice(), &self.info_hash);
        proof {
            assert(args@ =~= args_id_hash(self.id@, self.info_hash@));
        }
        query_bytes(QNAME_GET_PEERS.as_slice(), self.info_hash.as_slice(), &args)
    }
}

/// A node search for an identifier near the target.
pub struct FindNodeQuery {
    pub id: [u8; 20],
    pub target: [u8; 20],
}

impl FindNodeQuery {
    pub fn into_bytes(self) -> (out: Vec<u8>)
        ensures
            out@ == query_env(
                QNAME_FIND_NODE@,
                T_DEFAULT@,
                args_id_target(self.id@, self.target@),
            ),
    {
        let args = args_bytes_id_pair(&self.id, KEY_TARGET_TAG.as_slice(), &self.target);
        proof {
            assert(args@ =~= args_id_target(self.id@, self.target@));
        }
        query_bytes(QNAME_FIND_NODE.as_slice(), T_DEFAULT.as_slice(), &args)
    }
}

/// A request for a sample of content hashes known to the receiver.
pub struct SampleInfohashesQuery {
    pub id: [u8; 20],
    pub target: [u8; 20],
}

impl SampleInfohashesQuery {
    pub fn into_bytes(self) -> (out: Vec<u8>)
        ensures
            out@ == query_env(QNAME_SAMPLE@, T_DEFAULT@, args_id_target(self.id@, self.target@)),
    {
        let args = args_bytes_id_pair(&self.id, KEY_TARGET_TAG.as_slice(), &self.target);
        proof {
            assert(args@ =~= args_id_target(self.id@, self.target@));
        }
        query_bytes(QNAME_SAMPLE.as_slice(), T_DEFAULT.as_slice(), &args)
    }
}

// ---------------------------------------------------------------------------
// Compact records
// ---------------------------------------------------------------------------

/// Big-endian value of two bytes.
pub open spec fn be16(s: Seq<u8>) -> nat
    recommends
        s.len() == 2,
{
    (s[0] as nat) * 256 + (s[1] as nat)
}

/// A node record from a compact 26-byte run: identity, address, port.
pub struct CompactInfo {
    pub id: [u8; 20],
    pub ip: [u8; 4],
    pub port: [u8; 2],
}

impl CompactInfo {
    /// The record's port as a number.
    pub open spec fn spec_port(&self) -> nat {
        be16(self.port@)
    }

    /// Reads one 26-byte run: 20 bytes of identity, 4 of address, 2 of
    /// big-endian port.
    pub fn from_run(c: &[u8]) -> (r: CompactInfo)
        requires
            c@.len() == 26,
        ensures
            r.id@ == c@.subrange(0, 20),
            r.ip@ == c@.subrange(20, 24),
            r.spec_port() == be16(c@.subrange(24, 26)),
    {
        let mut id: [u8; 20] = [0u8; 20];
        let mut i: usize = 0;
        while i < 20
            invariant
                i <= 20,
                c@.len() == 26,
                forall|j: int| 0 <= j < i ==> id@[j] == c@[j],
        decreases 20 - i,
        {
            id[i] = c[i];
            i = i + 1;
        }
        let ip: [u8; 4] = [c[20], c[21], c[22], c[23]];
        let port: [u8; 2] = [c[24], c[25]];
        proof {
            assert(id@ =~= c@.subrange(0, 20));
            assert(ip@ =~= c@.subrange(20, 24));
            assert(port@ =~= c@.subrange(24, 26));
        }
        CompactInfo { id, ip, port }
    }

    /// `address:port` text of the record.
    pub fn host(&self) -> (r: String)
        ensures
            r@ == host_chars(self.ip@, self.spec_port()),
    {
        let mut s = self.ip_string();
        push_port(&mut s, self.port());
        proof {
            assert(s@ =~= host_chars(self.ip@, self.spec_port()));
        }
        s
    }

    /// Dotted-quad text of the record's address.
    pub fn ip_string(&self) -> (r: String)
        ensures
            r@ == quad_chars(self.ip@),
    {
        quad_string(&self.ip)
    }

    /// The record's port.
    pub fn port(&self) -> (p: u16)
        ensures
            p as nat == self.spec_port(),
    {
        (self.port[0] as u16) * 256 + (self.port[1] as u16)
    }
}

/// One number for an address-port pair, so address sets can be kept as
/// integer keys.
pub open spec fn spec_addr_key(ip: Seq<u8>, port: nat) -> nat
    recommends
        ip.len() == 4,
{
    (ip[0] as nat) * 0x100_0000_0000 + (ip[1] as nat) * 0x1_0000_0000 + (ip[2] as nat) * 0x100_0000
        + (ip[3] as nat) * 0x1_0000 + port
}

/// The address-port key of four address bytes and a port.
pub fn addr_key(ip: &[u8; 4], port: u16) -> (r: u64)
    ensures
        r as nat == spec_addr_key(ip@, port as nat),
{
    (ip[0] as u64) * 0x100_0000_0000 + (ip[1] as u64) * 0x1_0000_0000 + (ip[2] as u64) * 0x100_0000
        + (ip[3] as u64) * 0x1_0000 + (port as u64)
}

impl CompactInfo {
    /// The record's address-port key.
    pub fn addr_key(&self) -> (r: u64)
        ensures
            r as nat == spec_addr_key(self.ip@, self.spec_port()),
    {
        addr_key(&self.ip, self.port())
    }
}

/// A compact peer record: an opaque blob whose first six bytes are a
/// 4-byte address and a big-endian port.
pub enum Peer {
    Peer(Vec<u8>),
}

impl Peer {
    /// The record's raw bytes.
    pub open spec fn data(&self) -> Seq<u8> {
        match self {
            Peer::Peer(v) => v@,
        }
    }

    /// `address:port` text of the record.
    pub fn host(&self) -> (r: String)
        requires
            self.data().len() >= 6,
        ensures
            r@ == host_chars(self.data().subrange(0, 4), be16(self.data().subrange(4, 6))),
    {
        let mut s = self.ip_string();
        push_port(&mut s, self.port());
        proof {
            assert(s@ =~= host_chars(self.data().subrange(0, 4), be16(self.data().subrange(4, 6))));
        }
        s
    }

    /// Dotted-quad text of the record's address.
    pub fn ip_string(&self) -> (r: String)
        requires
            self.data().len() >= 4,
        ensures
            r@ == quad_chars(self.data().subrange(0, 4)),
    {
        let Peer::Peer(p) = self;
        let ip: [u8; 4] = [p[0], p[1], p[2], p[3]];
        proof {
            assert(ip@ =~= self.data().subrange(0, 4));
        }
        quad_string(&ip)
    }

    /// The record's port.
    pub fn port(&self) -> (r: u16)
        requires
            self.data().len() >= 6,
        ensures
            r as nat == be16(self.data().subrange(4, 6)),
    {
        let Peer::Peer(p) = self;
        (p[4] as u16) * 256 + (p[5] as u16)
    }

    /// The record's address-port key.
    pub fn addr_key(&self) -> (r: u64)
        requires
            self.data().len() >= 6,
        ensures
            r as nat == spec_addr_key(
                self.data().subrange(0, 4),
                be16(self.data().subrange(4, 6)),
            ),
    {
        let Peer::Peer(p) = self;
        let ip: [u8; 4] = [p[0], p[1], p[2], p[3]];
        proof {
            assert(ip@ =~= self.data().subrange(0, 4));
        }
        addr_key(&ip, self.port())
    }
}

/// An opaque byte-string field of a response.
pub enum Bytes {
    Bytes(Vec<u8>),
}

impl Bytes {
    /// The field's raw bytes.
    pub open spec fn data(&self) -> Seq<u8> {
        match self {
            Bytes::Bytes(v) => v@,
        }
    }
}

// ---------------------------------------------------------------------------
// Response envelope
// ---------------------------------------------------------------------------

// Byte forms of the result-dictionary keys.
pub const RKEY_T: [u8; 1] = [116u8];

pub const RKEY_R: [u8; 1] = [114u8];

pub const RKEY_ID: [u8; 2] = [105u8, 100u8];

pub const RKEY_TOKEN: [u8; 5] = [116u8, 111u8, 107u8, 101u8, 110u8];

pub const RKEY_NODES: [u8; 5] = [110u8, 111u8, 100u8, 101u8, 115u8];

pub const RKEY_VALUES: [u8; 6] = [118u8, 97u8, 108u8, 117u8, 101u8, 115u8];

pub const RKEY_SAMPLES: [u8; 7] = [115u8, 97u8, 109u8, 112u8, 108u8, 101u8, 115u8];

pub const RKEY_INTERVAL: [u8; 8] = [105u8, 110u8, 116u8, 101u8, 114u8, 118u8, 97u8, 108u8];

pub const RKEY_NUM: [u8; 3] = [110u8, 117u8, 109u8];

/// The fields of a decoded result dictionary, as mathematical values.
pub ghost struct RespModel {
    pub id: Seq<u8>,
    pub token: Option<Seq<u8>>,
    pub nodes: Option<Seq<u8>>,
    pub values: Option<Seq<Seq<u8>>>,
    pub samples: Option<Seq<u8>>,
    pub interval: Option<int>,
    pub num: Option<int>,
}

/// Result-dictionary fields while being gathered; `id` may still be
/// absent.
pub ghost struct RAcc {
    pub id: Option<Seq<u8>>,
    pub token: Option<Seq<u8>>,
    pub nodes: Option<Seq<u8>>,
    pub values: Option<Seq<Seq<u8>>>,
    pub samples: Option<Seq<u8>>,
    pub interval: Option<int>,
    pub num: Option<int>,
}

/// Reads byte-string list items up to the closing `e`; anything that is
/// not a byte string fails the whole list.
pub open spec fn parse_str_list_items(s: Seq<u8>, pos: int, fuel: nat, acc: Seq<Seq<u8>>) -> Option<
    (Seq<Seq<u8>>, int),
>
    decreases fuel,
{
    if 0 <= pos < s.len() && s[pos] == 101 {
        Some((acc, pos + 1))
    } else if fuel == 0 {
        None
    } else {
        match parse_bstr(s, pos) {
            Some((cs, ce)) => {
                if 0 <= cs <= ce <= s.len() {
                    parse_str_list_items(s, ce, (fuel - 1) as nat, acc.push(s.subrange(cs, ce)))
                } else {
                    None
                }
            },
            None => None,
        }
    }
}

/// Reads the result dictionary's entries up to the closing `e`.  Known
/// keys must carry a value of their field's shape and may appear once;
/// unknown entries are skipped.
pub open spec fn parse_r_fields(s: Seq<u8>, pos: int, fuel: nat, m: RAcc) -> Option<(RAcc, int)>
    decreases fuel,
{
    if 0 <= pos < s.len() && s[pos] == 101 {
        Some((m, pos + 1))
    } else if fuel == 0 {
        None
    } else {
        match parse_bstr(s, pos) {
            None => None,
            Some((ks, ke)) => {
                if !(0 <= ks <= ke <= s.len()) {
                    None
                } else {
                    let key = s.subrange(ks, ke);
                    if key == RKEY_ID@ {
                        if m.id is Some {
                            None
                        } else {
                            match parse_bstr(s, ke) {
                                Some((vs, ve)) => {
                                    if 0 <= vs <= ve <= s.len() {
                                        parse_r_fields(
                                            s,
                                            ve,
                                            (fuel - 1) as nat,
                                            RAcc { id: Some(s.subrange(vs, ve)), ..m },
                                        )
                                    } else {
                                        None
                                    }
                                },
                                None => None,
                            }
                        }
                    } else if key == RKEY_TOKEN@ {
                        if m.token is Some {
                            None
                        } else {
                            match parse_bstr(s, ke) {
                                Some((vs, ve)) => {
                                    if 0 <= vs <= ve <= s.len() {
                                        parse_r_fields(
                                            s,
                                            ve,
                                            (fuel - 1) as nat,
                                            RAcc { token: Some(s.subrange(vs, ve)), ..m },
                                        )
                                    } else {
                                        None
                                    }
                                },
                                None => None,
                            }
                        }
                    } else if key == RKEY_NODES@ {
                        if m.nodes is Some {
                            None
                        } else {
                            match parse_bstr(s, ke) {
                                Some((vs, ve)) => {
                                    if 0 <= vs <= ve <= s.len() {
                                        parse_r_fields(
                                            s,
                                            ve,
                                            (fuel - 1) as nat,
                                            RAcc { nodes: Some(s.subrange(vs, ve)), ..m },
                                        )
                                    } else {
                                        None
                                    }
                                },
                                None => None,
                            }
                        }
                    } else if key == RKEY_VALUES@ {
                        if m.values is Some {
                            None
                        } else {
                            if ke < s.len() && s[ke] == 108 {
                                match parse_str_list_items(s, ke + 1, fuel, Seq::empty()) {
                                    Some((vals, e)) => {
                                        if 0 <= e <= s.len() {
                                            parse_r_fields(
                                                s,
                                                e,
                                                (fuel - 1) as nat,
                                                RAcc { values: Some(vals), ..m },
                                            )
                                        } else {
                                            None
                                        }
                                    },
                                    None => None,
                                }
                            } else {
                                None
                            }
                        }
                    } else if key == RKEY_SAMPLES@ {
                        if m.samples is Some {
                            None
                        } else {
                            match parse_bstr(s, ke) {
                                Some((vs, ve)) => {
                                    if 0 <= vs <= ve <= s.len() {
                                        parse_r_fields(
                                            s,
                                            ve,
                                            (fuel - 1) as nat,
                                            RAcc { samples: Some(s.subrange(vs, ve)), ..m },
                                        )
                                    } else {
                                        None
                                    }
                                },
                                None => None,
                            }
                        }
                    } else if key == RKEY_INTERVAL@ {
                        if m.interval is Some {
                            None
                        } else {
                            match parse_bint(s, ke) {
                                Some((v, e)) => {
                                    if 0 <= e <= s.len() {
                                        parse_r_fields(
                                            s,
                                            e,
                                            (fuel - 1) as nat,
                                            RAcc { interval: Some(v), ..m },
                                        )
                                    } else {
                                        None
                                    }
                                },
                                None => None,
                            }
                        }
                    } else if key == RKEY_NUM@ {
                        if m.num is Some {
                            None
                        } else {
                            match parse_bint(s, ke) {
                                Some((v, e)) => {
                                    if 0 <= e <= s.len() {
                                        parse_r_fields(
                                            s,
                                            e,
                                            (fuel - 1) as nat,
                                            RAcc { num: Some(v), ..m },
                                        )
                                    } else {
                                        None
                                    }
                                },
                                None => None,
                            }
                        }
                    } else {
                        match skip_value(s, ke, fuel) {
                            Some(p2) => {
                                if 0 <= p2 <= s.len() {
                                    parse_r_fields(s, p2, (fuel - 1) as nat, m)
                                } else {
                                    None
                                }
                            },
                            None => None,
                        }
                    }
                }
            },
        }
    }
}

/// Reads the envelope's entries up to the closing `e`.  `t` must be a
/// byte string, `r` a dictionary of result fields holding at least `id`;
/// unknown entries are skipped.
pub open spec fn parse_env_fields(
    s: Seq<u8>,
    pos: int,
    fuel: nat,
    t: Option<Seq<u8>>,
    r: Option<RAcc>,
) -> Option<((Option<Seq<u8>>, Option<RAcc>), int)>
    decreases fuel,
{
    if 0 <= pos < s.len() && s[pos] == 101 {
        Some(((t, r), pos + 1))
    } else if fuel == 0 {
        None
    } else {
        match parse_bstr(s, pos) {
            None => None,
            Some((ks, ke)) => {
                if !(0 <= ks <= ke <= s.len()) {
                    None
                } else {
                    let key = s.subrange(ks, ke);
                    if key == RKEY_T@ {
                        if t is Some {
                            None
                        } else {
                            match parse_bstr(s, ke) {
                                Some((vs, ve)) => {
                                    if 0 <= vs <= ve <= s.len() {
                                        parse_env_fields(
                                            s,
                                            ve,
                                            (fuel - 1) as nat,
                                            Some(s.subrange(vs, ve)),
                                            r,
                                        )
                                    } else {
                                        None
                                    }
                                },
                                None => None,
                            }
                        }
                    } else if key == RKEY_R@ {
                        if r is Some {
                            None
                        } else {
                            if ke < s.len() && s[ke] == 100 {
                                match parse_r_fields(
                                    s,
                                    ke + 1,
                                    fuel,
                                    RAcc {
                                        id: None,
                                        token: None,
                                        nodes: None,
                                        values: None,
                                        samples: None,
                                        interval: None,
                                        num: None,
                                    },
                                ) {
                                    Some((m2, e)) => {
                                        if m2.id is Some && 0 <= e <= s.len() {
                                            parse_env_fields(
                                                s,
                                                e,
                                                (fuel - 1) as nat,
                                                t,
                                                Some(m2),
                                            )
                                        } else {
                                            None
                                        }
                                    },
                                    None => None,
                                }
                            } else {
                                None
                            }
                        }
                    } else {
                        match skip_value(s, ke, fuel) {
                            Some(p2) => {
                                if 0 <= p2 <= s.len() {
                                    parse_env_fields(s, p2, (fuel - 1) as nat, t, r)
                                } else {
                                    None
                                }
                            },
                            None => None,
                        }
                    }
                }
            },
        }
    }
}

/// Result fields while being gathered.
struct RespAcc {
    id: Option<Vec<u8>>,
    token: Option<Bytes>,
    nodes: Option<Bytes>,
    values: Option<Vec<Peer>>,
    samples: Option<Bytes>,
    interval: Option<i64>,
    num: Option<i64>,
}

/// The raw bytes of each record in a peer list.
pub open spec fn peer_datas(v: Seq<Peer>) -> Seq<Seq<u8>> {
    v.map_values(|q: Peer| q.data())
}

impl RespAcc {
    spec fn model(&self) -> RAcc {
        RAcc {
            id: match self.id {
                Some(v) => Some(v@),
                None => None,
            },
            token: match self.token {
                Some(b) => Some(b.data()),
                None => None,
            },
            nodes: match self.nodes {
                Some(b) => Some(b.data()),
                None => None,
            },
            values: match self.values {
                Some(v) => Some(peer_datas(v@)),
                None => None,
            },
            samples: match self.samples {
                Some(b) => Some(b.data()),
                None => None,
            },
            interval: match self.interval {
                Some(x) => Some(x as int),
                None => None,
            },
            num: match self.num {
                Some(x) => Some(x as int),
                None => None,
            },
        }
    }
}

fn parse_str_list_items_x(s: &[u8], pos: usize, fuel: usize, acc: Vec<Peer>) -> (r: Option<
    (Vec<Peer>, usize),
>)
    requires
        pos <= s@.len(),
    ensures
        match r {
            Some((acc2, p)) => parse_str_list_items(s@, pos as int, fuel as nat, peer_datas(acc@))
                == Some((peer_datas(acc2@), p as int)) && p <= s@.len(),
            None => parse_str_list_items(s@, pos as int, fuel as nat, peer_datas(acc@)) is None,
        },
    decreases fuel,
{
    if pos < s.len() && s[pos] == 101 {
        return Some((acc, pos + 1));
    }
    if fuel == 0 {
        return None;
    }
    match parse_bstr_x(s, pos) {
        Some((cs, ce)) => {
            let mut acc2 = acc;
            acc2.push(Peer::Peer(sub_vec(s, cs, ce)));
            proof {
                assert(peer_datas(acc2@) =~= peer_datas(acc@).push(
                    s@.subrange(cs as int, ce as int),
                ));
            }
            parse_str_list_items_x(s, ce, fuel - 1, acc2)
        },
        None => None,
    }
}

fn parse_r_fields_x(s: &[u8], pos: usize, fuel: usize, acc: RespAcc) -> (r: Option<
    (RespAcc, usize),
>)
    requires
        pos <= s@.len(),
    ensures
        match r {
            Some((acc2, p)) => parse_r_fields(s@, pos as int, fuel as nat, acc.model()) == Some(
                (acc2.model(), p as int),
            ) && p <= s@.len(),
            None => parse_r_fields(s@, pos as int, fuel as nat, acc.model()) is None,
        },
    decreases fuel,
{
    if pos < s.len() && s[pos] == 101 {
        return Some((acc, pos + 1));
    }
    if fuel == 0 {
        return None;
    }
    match parse_bstr_x(s, pos) {
        None => None,
        Some((ks, ke)) => {
            if match_key(s, ks, ke, RKEY_ID.as_slice()) {
                if acc.id.is_some() {
                    return None;
                }
                match parse_bstr_x(s, ke) {
                    Some((vs, ve)) => {
                        let v = sub_vec(s, vs, ve);
                        parse_r_fields_x(s, ve, fuel - 1, RespAcc { id: Some(v), ..acc })
                    },
                    None => None,
                }
            } else if match_key(s, ks, ke, RKEY_TOKEN.as_slice()) {
                if acc.token.is_some() {
                    return None;
                }
                match parse_bstr_x(s, ke) {
                    Some((vs, ve)) => {
                        let v = sub_vec(s, vs, ve);
                        parse_r_fields_x(
                            s,
                            ve,
                            fuel - 1,
                            RespAcc { token: Some(Bytes::Bytes(v)), ..acc },
                        )
                    },
                    None => None,
                }
            } else if match_key(s, ks, ke, RKEY_NODES.as_slice()) {
                if acc.nodes.is_some() {
                    return None;
                }
                match parse_bstr_x(s, ke) {
                    Some((vs, ve)) => {
                        let v = sub_vec(s, vs, ve);
                        parse_r_fields_x(
                            s,
                            ve,
                            fuel - 1,
                            RespAcc { nodes: Some(Bytes::Bytes(v)), ..acc },
                        )
                    },
                    None => None,
                }
            } else if match_key(s, ks, ke, RKEY_VALUES.as_slice()) {
                if acc.values.is_some() {
                    return None;
                }
                if ke < s.len() && s[ke] == 108 {
                    proof {
                        assert(peer_datas(Seq::<Peer>::empty()) =~= Seq::<Seq<u8>>::empty());
                    }
                    match parse_str_list_items_x(s, ke + 1, fuel, Vec::new()) {
                        Some((vals, e)) => parse_r_fields_x(
                            s,
                            e,
                            fuel - 1,
                            RespAcc { values: Some(vals), ..acc },
                        ),
                        None => None,
                    }
                } else {
                    None
                }
            } else if match_key(s, ks, ke, RKEY_SAMPLES.as_slice()) {
                if acc.samples.is_some() {
                    return None;
                }
                match parse_bstr_x(s, ke) {
                    Some((vs, ve)) => {
                        let v = sub_vec(s, vs, ve);
                        parse_r_fields_x(
                            s,
                            ve,
                            fuel - 1,
                            RespAcc { samples: Some(Bytes::Bytes(v)), ..acc },
                        )
                    },
                    None => None,
                }
            } else if match_key(s, ks, ke, RKEY_INTERVAL.as_slice()) {
                if acc.interval.is_some() {
                    return None;
                }
                match parse_bint_x(s, ke) {
                    Some((v, e)) => parse_r_fields_x(
                        s,
                        e,
                        fuel - 1,
                        RespAcc { interval: Some(v), ..acc },
                    ),
                    None => None,
                }
            } else if match_key(s, ks, ke, RKEY_NUM.as_slice()) {
                if acc.num.is_some() {
                    return None;
                }
                match parse_bint_x(s, ke) {
                    Some((v, e)) => parse_r_fields_x(s, e, fuel - 1, RespAcc { num: Some(v), ..acc }),
                    None => None,
                }
            } else {
                match skip_value_x(s, ke, fuel) {
                    Some(p2) => parse_r_fields_x(s, p2, fuel - 1, acc),
                    None => None,
                }
            }
        },
    }
}

spec fn opt_bytes_model(o: Option<Vec<u8>>) -> Option<Seq<u8>> {
    match o {
        Some(v) => Some(v@),
        None => None,
    }
}

spec fn opt_racc_model(o: Option<RespAcc>) -> Option<RAcc> {
    match o {
        Some(a) => Some(a.model()),
        None => None,
    }
}

fn parse_env_fields_x(
    s: &[u8],
    pos: usize,
    fuel: usize,
    t: Option<Vec<u8>>,
    racc: Option<RespAcc>,
) -> (r: Option<(Option<Vec<u8>>, Option<RespAcc>, usize)>)
    requires
        pos <= s@.len(),
    ensures
        match r {
            Some((t2, r2, p)) => parse_env_fields(
                s@,
                pos as int,
                fuel as nat,
                opt_bytes_model(t),
                opt_racc_model(racc),
            ) == Some(((opt_bytes_model(t2), opt_racc_model(r2)), p as int)) && p <= s@.len(),
            None => parse_env_fields(
                s@,
                pos as int,
                fuel as nat,
                opt_bytes_model(t),
                opt_racc_model(racc),
            ) is None,
        },
    decreases fuel,
{
    if pos < s.len() && s[pos] == 101 {
        return Some((t, racc, pos + 1));
    }
    if fuel == 0 {
        return None;
    }
    match parse_bstr_x(s, pos) {
        None => None,
        Some((ks, ke)) => {
            if match_key(s, ks, ke, RKEY_T.as_slice()) {
                if t.is_some() {
                    return None;
                }
                match parse_bstr_x(s, ke) {
                    Some((vs, ve)) => {
                        let v = sub_vec(s, vs, ve);
                        parse_env_fields_x(s, ve, fuel - 1, Some(v), racc)
                    },
                    None => None,
                }
            } else if match_key(s, ks, ke, RKEY_R.as_slice()) {
                if racc.is_some() {
                    return None;
                }
                if ke < s.len() && s[ke] == 100 {
                    let fresh = RespAcc {
                        id: None,
                        token: None,
                        nodes: None,
                        values: None,
                        samples: None,
                        interval: None,
                        num: None,
                    };
                    match parse_r_fields_x(s, ke + 1, fuel, fresh) {
                        Some((m2, e)) => {
                            if m2.id.is_some() {
                                parse_env_fields_x(s, e, fuel - 1, t, Some(m2))
                            } else {
                                None
                            }
                        },
                        None => None,
                    }
                } else {
                    None
                }
            } else {
                match skip_value_x(s, ke, fuel) {
                    Some(p2) => parse_env_fields_x(s, p2, fuel - 1, t, racc),
                    None => None,
                }
            }
        },
    }
}

/// The decoded result fields of a response datagram, when the bytes form
/// a valid envelope: a dictionary holding a byte string `t` and a result
/// dictionary `r` with the responder's `id`.  Bytes after the envelope
/// are ignored.
pub open spec fn parse_response_model(s: Seq<u8>) -> Option<RespModel> {
    if s.len() > 0 && s[0] == 100 {
        match parse_env_fields(s, 1, (s.len() + 1) as nat, None, None) {
            Some(((t, r), e)) => match (t, r) {
                (Some(tv), Some(m)) => match m.id {
                    Some(idv) => Some(
                        RespModel {
                            id: idv,
                            token: m.token,
                            nodes: m.nodes,
                            values: m.values,
                            samples: m.samples,
                            interval: m.interval,
                            num: m.num,
                        },
                    ),
                    None => None,
                },
                _ => None,
            },
            None => None,
        }
    } else {
        None
    }
}

/// The result fields of a decoded response.
pub struct ResponseArgs {
    pub id: Vec<u8>,
    pub token: Option<Bytes>,
    pub nodes: Option<Bytes>,
    pub values: Option<Vec<Peer>>,
    pub samples: Option<Bytes>,
    pub interval: Option<i64>,
    pub num: Option<i64>,
}

impl ResponseArgs {
    /// The mathematical value of the fields.
    pub open spec fn model(&self) -> RespModel {
        RespModel {
            id: self.id@,
            token: match self.token {
                Some(b) => Some(b.data()),
                None => None,
            },
            nodes: match self.nodes {
                Some(b) => Some(b.data()),
                None => None,
            },
            values: match self.values {
                Some(v) => Some(peer_datas(v@)),
                None => None,
            },
            samples: match self.samples {
                Some(b) => Some(b.data()),
                None => None,
            },
            interval: match self.interval {
                Some(x) => Some(x as int),
                None => None,
            },
            num: match self.num {
                Some(x) => Some(x as int),
                None => None,
            },
        }
    }

    /// The responder's identity as a fixed 20-byte value.
    pub fn id(&self) -> (r: [u8; 20])
        requires
            self.id@.len() == 20,
        ensures
            r@ == self.id@,
    {
        let mut a: [u8; 20] = [0u8; 20];
        let mut i: usize = 0;
        while i < 20
            invariant
                i <= 20,
                self.id@.len() == 20,
                forall|j: int| 0 <= j < i ==> a@[j] == self.id@[j],
            decreases 20 - i,
        {
            a[i] = self.id[i];
            i = i + 1;
        }
        proof {
            assert(a@ =~= self.id@);
        }
        a
    }

    /// The `nodes` field's bytes, or an empty run when absent.
    pub open spec fn nodes_bytes(&self) -> Seq<u8> {
        match self.nodes {
            Some(b) => b.data(),
            None => Seq::empty(),
        }
    }

    /// Decodes the compact node list: every whole 26-byte run becomes one
    /// record; trailing bytes that fall short of a run are dropped.
    pub fn nodes(&self) -> (out: Vec<CompactInfo>)
        ensures
            out@.len() == self.nodes_bytes().len() / 26,
            forall|i: int|
                0 <= i < out@.len() ==> {
                    &&& (#[trigger] out@[i]).id@ == self.nodes_bytes().subrange(
                        26 * i,
                        26 * i + 20,
                    )
                    &&& out@[i].ip@ == self.nodes_bytes().subrange(26 * i + 20, 26 * i + 24)
                    &&& out@[i].spec_port() == be16(
                        self.nodes_bytes().subrange(26 * i + 24, 26 * i + 26),
                    )
                },
    {
        let empty: Vec<u8> = Vec::new();
        let bs: &Vec<u8> = match &self.nodes {
            Some(Bytes::Bytes(v)) => v,
            None => &empty,
        };
        proof {
            assert(bs@ == self.nodes_bytes());
        }
        let slice: &[u8] = bs.as_slice();
        let n: usize = slice.len() / 26;
        let mut out: Vec<CompactInfo> = Vec::new();
        let mut k: usize = 0;
        while k < n
            invariant
                k <= n,
                n == bs@.len() / 26,
                bs@.len() <= usize::MAX,
                bs@ == self.nodes_bytes(),
                slice@ == bs@,
                out@.len() == k,
                forall|i: int|
                    0 <= i < k ==> {
                        &&& (#[trigger] out@[i]).id@ == bs@.subrange(26 * i, 26 * i + 20)
                        &&& out@[i].ip@ == bs@.subrange(26 * i + 20, 26 * i + 24)
                        &&& out@[i].spec_port() == be16(bs@.subrange(26 * i + 24, 26 * i + 26))
                    },
            decreases n - k,
        {
            proof {
                assert(26 * ((k as int) + 1) <= 26 * (n as int) && 26 * (n as int) <= bs@.len())
                    by (nonlinear_arith)
                    requires
                        k < n,
                        n == bs@.len() / 26,
                ;
            }
            let run: &[u8] = &slice[k * 26..k * 26 + 26];
            let rec = CompactInfo::from_run(run);
            proof {
                assert(run@.subrange(0, 20) =~= bs@.subrange(26 * (k as int), 26 * (k as int)
                    + 20));
                assert(run@.subrange(20, 24) =~= bs@.subrange(26 * (k as int) + 20, 26 * (k as int)
                    + 24));
                assert(run@.subrange(24, 26) =~= bs@.subrange(26 * (k as int) + 24, 26 * (k as int)
                    + 26));
            }
            out.push(rec);
            k = k + 1;
        }
        out
    }
}

impl ResponseArgs {
    /// The `samples` field's bytes, or an empty run when absent.
    pub open spec fn samples_bytes(&self) -> Seq<u8> {
        match self.samples {
            Some(b) => b.data(),
            None => Seq::empty(),
        }
    }

    /// Splits the sampled-identifier blob into resource identifiers:
    /// every whole 20-byte run becomes one; trailing bytes that fall
    /// short of a run are dropped.
    pub fn sample_hashes(&self) -> (out: Vec<[u8; 20]>)
        ensures
            out@.len() == self.samples_bytes().len() / 20,
            forall|i: int|
                0 <= i < out@.len() ==> (#[trigger] out@[i])@ == self.samples_bytes().subrange(
                    20 * i,
                    20 * i + 20,
                ),
    {
        let empty: Vec<u8> = Vec::new();
        let bs: &Vec<u8> = match &self.samples {
            Some(Bytes::Bytes(v)) => v,
            None => &empty,
        };
        proof {
            assert(bs@ == self.samples_bytes());
        }
        let slice: &[u8] = bs.as_slice();
        let n: usize = slice.len() / 20;
        let mut out: Vec<[u8; 20]> = Vec::new();
        let mut k: usize = 0;
        while k < n
            invariant
                k <= n,
                n == bs@.len() / 20,
                bs@.len() <= usize::MAX,
                bs@ == self.samples_bytes(),
                slice@ == bs@,
                out@.len() == k,
                forall|i: int|
                    0 <= i < k ==> (#[trigger] out@[i])@ == bs@.subrange(20 * i, 20 * i + 20),
            decreases n - k,
        {
            proof {
                assert(20 * ((k as int) + 1) <= 20 * (n as int) && 20 * (n as int) <= bs@.len())
                    by (nonlinear_arith)
                    requires
                        k < n,
                        n == bs@.len() / 20,
                ;
            }
            let mut h: [u8; 20] = [0u8; 20];
            let mut j: usize = 0;
            while j < 20
                invariant
                    j <= 20,
                    k * 20 + 20 <= bs@.len(),
                    slice@ == bs@,
                    bs@.len() <= usize::MAX,
                    forall|l: int| 0 <= l < j ==> h@[l] == bs@[20 * (k as int) + l],
                decreases 20 - j,
            {
                h[j] = slice[k * 20 + j];
                j = j + 1;
            }
            proof {
                assert(h@ =~= bs@.subrange(20 * (k as int), 20 * (k as int) + 20));
            }
            out.push(h);
            k = k + 1;
        }
        out
    }
}

/// The decoded envelope's transaction id, under the same conditions as
/// `parse_response_model`.
pub open spec fn parse_response_t(s: Seq<u8>) -> Option<Seq<u8>> {
    if s.len() > 0 && s[0] == 100 {
        match parse_env_fields(s, 1, (s.len() + 1) as nat, None, None) {
            Some(((t, r), e)) => match (t, r) {
                (Some(tv), Some(m)) => match m.id {
                    Some(idv) => Some(tv),
                    None => None,
                },
                _ => None,
            },
            None => None,
        }
    } else {
        None
    }
}

/// The inbound envelope: a transaction id and the result dictionary.
pub struct Response {
    pub t: Vec<u8>,
    pub r: ResponseArgs,
}

impl Response {
    /// Decodes a response datagram, yielding its result fields.  Succeeds
    /// exactly when the bytes parse as a response envelope.
    pub fn from_bytes(buf: &[u8]) -> (r: Result<ResponseArgs, DecodeError>)
        requires
            buf@.len() < usize::MAX,
        ensures
            match r {
                Ok(a) => parse_response_model(buf@) == Some(a.model()),
                Err(_) => parse_response_model(buf@) is None,
            },
    {
        match Response::from_bytes_full(buf) {
            Ok(resp) => Ok(resp.r),
            Err(e) => Err(e),
        }
    }

    /// Decodes a response datagram, keeping the transaction id beside
    /// the result fields, so a crawl can match the response against its
    /// own target on the shared channel.
    pub fn from_bytes_full(buf: &[u8]) -> (r: Result<Response, DecodeError>)
        requires
            buf@.len() < usize::MAX,
        ensures
            match r {
                Ok(resp) => {
                    &&& parse_response_model(buf@) == Some(resp.r.model())
                    &&& parse_response_t(buf@) == Some(resp.t@)
                },
                Err(_) => parse_response_model(buf@) is None,
            },
    {
        if buf.len() == 0 {
            return Err(DecodeError::Malformed);
        }
        if buf[0] != 100 {
            return Err(DecodeError::Malformed);
        }
        let fuel: usize = buf.len() + 1;
        match parse_env_fields_x(buf, 1, fuel, None, None) {
            Some((t_opt, r_opt, _e)) => match (t_opt, r_opt) {
                (Some(tv), Some(acc)) => {
                    let RespAcc { id, token, nodes, values, samples, interval, num } = acc;
                    match id {
                        Some(idv) => Ok(
                            Response {
                                t: tv,
                                r: ResponseArgs {
                                    id: idv,
                                    token,
                                    nodes,
                                    values,
                                    samples,
                                    interval,
                                    num,
                                },
                            },
                        ),
                        None => Err(DecodeError::Malformed),
                    }
                },
                _ => Err(DecodeError::Malformed),
            },
            None => Err(DecodeError::Malformed),
        }
    }
}

} // verus!
