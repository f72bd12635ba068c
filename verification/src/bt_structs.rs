//! Peer-wire messages: the fixed handshake, the extension handshake that
//! negotiates metadata exchange, and the framed metadata request.

use vstd::prelude::*;
use crate::bencode::{
    be32n,
    benc_nat,
    lemma_dec_seq_len20,
    match_key,
    parse_bint,
    parse_bint_x,
    parse_bstr,
    parse_bstr_x,
    push_be32n,
    push_bnat,
    push_bytes,
    skip_value,
    skip_value_x,
    DecodeError,
};

verus! {

/// Length byte and magic string of the wire handshake, then the eight
/// reserved bytes with the extension-protocol bit set.
pub const HS_PREFIX: [u8; 28] = [
    19u8,
    66u8,
    105u8,
    116u8,
    84u8,
    111u8,
    114u8,
    114u8,
    101u8,
    110u8,
    116u8,
    32u8,
    112u8,
    114u8,
    111u8,
    116u8,
    111u8,
    99u8,
    111u8,
    108u8,
    0u8,
    0u8,
    0u8,
    0u8,
    0u8,
    16u8,
    0u8,
    0u8,
];

/// Frame header of the extension handshake that follows the wire
/// handshake: length 26, message id 20, sub-id 0.
pub const EXT_FRAME_HEAD: [u8; 6] = [0u8, 0u8, 0u8, 26u8, 20u8, 0u8];

/// The advertised capability dictionary: metadata exchange at local
/// sub-id 2, no size declared.
pub const EXT_BODY: [u8; 24] = [
    100u8,
    49u8,
    58u8,
    109u8,
    100u8,
    49u8,
    49u8,
    58u8,
    117u8,
    116u8,
    95u8,
    109u8,
    101u8,
    116u8,
    97u8,
    100u8,
    97u8,
    116u8,
    97u8,
    105u8,
    50u8,
    101u8,
    101u8,
    101u8,
];

pub const KEY_M: [u8; 1] = [109u8];

pub const KEY_UT_METADATA: [u8; 11] = [
    117u8,
    116u8,
    95u8,
    109u8,
    101u8,
    116u8,
    97u8,
    100u8,
    97u8,
    116u8,
    97u8,
];

pub const KEY_METADATA_SIZE: [u8; 13] = [
    109u8,
    101u8,
    116u8,
    97u8,
    100u8,
    97u8,
    116u8,
    97u8,
    95u8,
    115u8,
    105u8,
    122u8,
    101u8,
];

pub const MSG_TYPE_TAG: [u8; 10] = [
    56u8,
    58u8,
    109u8,
    115u8,
    103u8,
    95u8,
    116u8,
    121u8,
    112u8,
    101u8,
];

pub const PIECE_TAG: [u8; 7] = [53u8, 58u8, 112u8, 105u8, 101u8, 99u8, 101u8];

/// The 68-byte wire handshake followed by the framed extension
/// handshake.
pub open spec fn handshake_bytes(info_hash: Seq<u8>, peer_id: Seq<u8>) -> Seq<u8> {
    HS_PREFIX@ + info_hash + peer_id + EXT_FRAME_HEAD@ + EXT_BODY@
}

/// The opening message of a peer conversation.
#[derive(Debug)]
pub struct Handshake {
    pub info_hash: [u8; 20],
    pub peer_id: [u8; 20],
}

impl Handshake {
    /// Emits the wire handshake and the extension handshake in one run:
    /// magic, reserved bits, content hash, identity, then the framed
    /// capability dictionary.
    pub fn to_bytes(&self) -> (out: Vec<u8>)
        ensures
            out@ == handshake_bytes(self.info_hash@, self.peer_id@),
    {
        let mut out: Vec<u8> = Vec::new();
        push_bytes(&mut out, HS_PREFIX.as_slice());
        push_bytes(&mut out, self.info_hash.as_slice());
        push_bytes(&mut out, self.peer_id.as_slice());
        push_bytes(&mut out, EXT_FRAME_HEAD.as_slice());
        push_bytes(&mut out, EXT_BODY.as_slice());
        proof {
            assert(out@ =~= handshake_bytes(self.info_hash@, self.peer_id@));
        }
        out
    }
}

// ---------------------------------------------------------------------------
// Extension handshake
// ---------------------------------------------------------------------------

/// The advertised metadata-exchange capability.
#[derive(Debug)]
pub struct MetadataExtension {
    pub ut_metadata: Option<u8>,
}

impl Default for MetadataExtension {
    /// The local advertisement: metadata exchange at sub-id 2.
    fn default() -> (r: Self)
        ensures
            r.ut_metadata == Some(2u8),
    {
        Self { ut_metadata: Some(2) }
    }
}

/// A peer's extension handshake: its capability map and, when it serves
/// metadata, the document's total size.
#[derive(Debug)]
pub struct ExtensionHandshake {
    pub m: MetadataExtension,
    pub metadata_size: Option<usize>,
}

impl Default for ExtensionHandshake {
    /// The local advertisement: the default capability map, no size.
    fn default() -> (r: Self)
        ensures
            r.m.ut_metadata == Some(2u8),
            r.metadata_size is None,
    {
        Self { m: MetadataExtension::default(), metadata_size: None }
    }
}

/// The mathematical value of a decoded extension handshake.
pub ghost struct ExtModel {
    pub ut_metadata: Option<u8>,
    pub metadata_size: Option<usize>,
}

impl ExtensionHandshake {
    /// The mathematical value of the fields.
    pub open spec fn model(&self) -> ExtModel {
        ExtModel { ut_metadata: self.m.ut_metadata, metadata_size: self.metadata_size }
    }
}

/// Reads the capability map's entries up to the closing `e`: at most one
/// `ut_metadata` sub-id in byte range, anything else skipped.
pub open spec fn parse_mdict_fields(s: Seq<u8>, pos: int, fuel: nat, ut: Option<u8>) -> Option<
    (Option<u8>, int),
>
    decreases fuel,
{
    if 0 <= pos < s.len() && s[pos] == 101 {
        Some((ut, pos + 1))
    } else if fuel == 0 {
        None
    } else {
        match parse_bstr(s, pos) {
            None => None,
            Some((ks, ke)) => {
                if !(0 <= ks <= ke <= s.len()) {
                    None
                } else {
                    let key = s.subrange(ks, ke);
                    if key == KEY_UT_METADATA@ {
                        if ut is Some {
                            None
                        } else {
                            match parse_bint(s, ke) {
                                Some((v, e)) => {
                                    if 0 <= v <= 255 && 0 <= e <= s.len() {
                                        parse_mdict_fields(s, e, (fuel - 1) as nat, Some(v as u8))
                                    } else {
                                        None
                                    }
                                },
                                None => None,
                            }
                        }
                    } else {
                        match skip_value(s, ke, fuel) {
                            Some(p2) => {
                                if 0 <= p2 <= s.len() {
                                    parse_mdict_fields(s, p2, (fuel - 1) as nat, ut)
                                } else {
                                    None
                                }
                            },
                            None => None,
                        }
                    }
                }
            },
        }
    }
}

/// Reads the extension handshake's entries up to the closing `e`: at
/// most one capability map `m` and one `metadata_size` in the machine's
/// size range, anything else skipped.
pub open spec fn parse_ext_fields(
    s: Seq<u8>,
    pos: int,
    fuel: nat,
    m: Option<Option<u8>>,
    size: Option<usize>,
) -> Option<((Option<Option<u8>>, Option<usize>), int)>
    decreases fuel,
{
    if 0 <= pos < s.len() && s[pos] == 101 {
        Some(((m, size), pos + 1))
    } else if fuel == 0 {
        None
    } else {
        match parse_bstr(s, pos) {
            None => None,
            Some((ks, ke)) => {
                if !(0 <= ks <= ke <= s.len()) {
                    None
                } else {
                    let key = s.subrange(ks, ke);
                    if key == KEY_M@ {
                        if m is Some {
                            None
                        } else {
                            if ke < s.len() && s[ke] == 100 {
                                match parse_mdict_fields(s, ke + 1, fuel, None) {
                                    Some((ut, e)) => {
                                        if 0 <= e <= s.len() {
                                            parse_ext_fields(
                                                s,
                                                e,
                                                (fuel - 1) as nat,
                                                Some(ut),
                                                size,
                                            )
                                        } else {
                                            None
                                        }
                                    },
                                    None => None,
                                }
                            } else {
                                None
                            }
                        }
                    } else if key == KEY_METADATA_SIZE@ {
                        if size is Some {
                            None
                        } else {
                            match parse_bint(s, ke) {
                                Some((v, e)) => {
                                    if 0 <= v <= usize::MAX && 0 <= e <= s.len() {
                                        parse_ext_fields(
                                            s,
                                            e,
                                            (fuel - 1) as nat,
                                            m,
                                            Some(v as usize),
                                        )
                                    } else {
                                        None
                                    }
                                },
                                None => None,
                            }
                        }
                    } else {
                        match skip_value(s, ke, fuel) {
                            Some(p2) => {
                                if 0 <= p2 <= s.len() {
                                    parse_ext_fields(s, p2, (fuel - 1) as nat, m, size)
                                } else {
                                    None
                                }
                            },
                            None => None,
                        }
                    }
                }
            },
        }
    }
}

/// The decoded extension handshake, when the bytes form a dictionary
/// holding a capability map; bytes after it are ignored.
pub open spec fn parse_ext_model(s: Seq<u8>) -> Option<ExtModel> {
    if s.len() > 0 && s[0] == 100 {
        match parse_ext_fields(s, 1, (s.len() + 1) as nat, None, None) {
            Some(((m, size), e)) => match m {
                Some(ut) => Some(ExtModel { ut_metadata: ut, metadata_size: size }),
                None => None,
            },
            None => None,
        }
    } else {
        None
    }
}

fn parse_mdict_fields_x(s: &[u8], pos: usize, fuel: usize, ut: Option<u8>) -> (r: Option<
    (Option<u8>, usize),
>)
    requires
        pos <= s@.len(),
    ensures
        match r {
            Some((ut2, p)) => parse_mdict_fields(s@, pos as int, fuel as nat, ut) == Some(
                (ut2, p as int),
            ) && p <= s@.len(),
            None => parse_mdict_fields(s@, pos as int, fuel as nat, ut) is None,
        },
    decreases fuel,
{
    if pos < s.len() && s[pos] == 101 {
        return Some((ut, pos + 1));
    }
    if fuel == 0 {
        return None;
    }
    match parse_bstr_x(s, pos) {
        None => None,
        Some((ks, ke)) => {
            if match_key(s, ks, ke, KEY_UT_METADATA.as_slice()) {
                if ut.is_some() {
                    return None;
                }
                match parse_bint_x(s, ke) {
                    Some((v, e)) => {
                        if 0 <= v && v <= 255 {
                            parse_mdict_fields_x(s, e, fuel - 1, Some(v as u8))
                        } else {
                            None
                        }
                    },
                    None => None,
                }
            } else {
                match skip_value_x(s, ke, fuel) {
                    Some(p2) => parse_mdict_fields_x(s, p2, fuel - 1, ut),
                    None => None,
                }
            }
        },
    }
}

fn parse_ext_fields_x(
    s: &[u8],
    pos: usize,
    fuel: usize,
    m: Option<Option<u8>>,
    size: Option<usize>,
) -> (r: Option<(Option<Option<u8>>, Option<usize>, usize)>)
    requires
        pos <= s@.len(),
    ensures
        match r {
            Some((m2, size2, p)) => parse_ext_fields(s@, pos as int, fuel as nat, m, size) == Some(
                ((m2, size2), p as int),
            ) && p <= s@.len(),
            None => parse_ext_fields(s@, pos as int, fuel as nat, m, size) is None,
        },
    decreases fuel,
{
    if pos < s.len() && s[pos] == 101 {
        return Some((m, size, pos + 1));
    }
    if fuel == 0 {
        return None;
    }
    match parse_bstr_x(s, pos) {
        None => None,
        Some((ks, ke)) => {
            if match_key(s, ks, ke, KEY_M.as_slice()) {
                if m.is_some() {
                    return None;
                }
                if ke < s.len() && s[ke] == 100 {
                    match parse_mdict_fields_x(s, ke + 1, fuel, None) {
                        Some((ut, e)) => parse_ext_fields_x(s, e, fuel - 1, Some(ut), size),
                        None => None,
                    }
                } else {
                    None
                }
            } else if match_key(s, ks, ke, KEY_METADATA_SIZE.as_slice()) {
                if size.is_some() {
                    return None;
                }
                match parse_bint_x(s, ke) {
                    Some((v, e)) => {
                        if 0 <= v && v as u64 <= usize::MAX as u64 {
                            parse_ext_fields_x(s, e, fuel - 1, m, Some(v as usize))
                        } else {
                            None
                        }
                    },
                    None => None,
                }
            } else {
                match skip_value_x(s, ke, fuel) {
                    Some(p2) => parse_ext_fields_x(s, p2, fuel - 1, m, size),
                    None => None,
                }
            }
        },
    }
}

impl ExtensionHandshake {
    /// Decodes a peer's extension handshake.  Succeeds exactly when the
    /// bytes parse as a capability dictionary.
    pub fn from_bytes(buf: &[u8]) -> (r: Result<ExtensionHandshake, DecodeError>)
        requires
            buf@.len() < usize::MAX,
        ensures
            match r {
                Ok(e) => parse_ext_model(buf@) == Some(e.model()),
                Err(_) => parse_ext_model(buf@) is None,
            },
    {
        if buf.len() == 0 {
            return Err(DecodeError::Malformed);
        }
        if buf[0] != 100 {
            return Err(DecodeError::Malformed);
        }
        let fuel: usize = buf.len() + 1;
        match parse_ext_fields_x(buf, 1, fuel, None, None) {
            Some((m, size, _e)) => match m {
                Some(ut) => Ok(
                    ExtensionHandshake {
                        m: MetadataExtension { ut_metadata: ut },
                        metadata_size: size,
                    },
                ),
                None => Err(DecodeError::Malformed),
            },
            None => Err(DecodeError::Malformed),
        }
    }
}

// ---------------------------------------------------------------------------
// Metadata request
// ---------------------------------------------------------------------------

/// The request dictionary: message type and chunk index, keys in sorted
/// order.
pub open spec fn request_dict(msg_type: nat, piece: nat) -> Seq<u8> {
    seq![100u8] + MSG_TYPE_TAG@ + benc_nat(msg_type) + PIECE_TAG@ + benc_nat(piece) + seq![101u8]
}

/// A length-prefixed extension frame: four big-endian length bytes
/// covering everything after them, message id 20, the peer's sub-id,
/// then the body.
pub open spec fn ext_frame(ext_id: u8, body: Seq<u8>) -> Seq<u8> {
    be32n((body.len() + 2) as nat) + seq![20u8, ext_id] + body
}

/// A metadata-exchange control message: a request (type 0) for a chunk.
#[derive(Debug)]
pub struct MetadataMessage {
    pub msg_type: usize,
    pub piece: usize,
}

impl MetadataMessage {
    /// Emits the framed request addressed to the peer's advertised
    /// sub-id.
    pub fn to_bytes(&self, extension_id: u8) -> (out: Vec<u8>)
        ensures
            out@ == ext_frame(extension_id, request_dict(self.msg_type as nat, self.piece as nat)),
    {
        let mut body: Vec<u8> = Vec::new();
        body.push(100);
        push_bytes(&mut body, MSG_TYPE_TAG.as_slice());
        push_bnat(&mut body, self.msg_type);
        push_bytes(&mut body, PIECE_TAG.as_slice());
        push_bnat(&mut body, self.piece);
        body.push(101);
        proof {
            assert(body@ =~= request_dict(self.msg_type as nat, self.piece as nat));
            lemma_dec_seq_len20(self.msg_type as nat);
            lemma_dec_seq_len20(self.piece as nat);
        }
        let mut out: Vec<u8> = Vec::new();
        push_be32n(&mut out, body.len() + 2);
        out.push(20);
        out.push(extension_id);
        push_bytes(&mut out, body.as_slice());
        proof {
            assert(out@ =~= ext_frame(extension_id, request_dict(
                self.msg_type as nat,
                self.piece as nat,
            )));
        }
        out
    }
}

} // verus!
