//! The metadata assembler: tracks which 16-KiB chunks of the document
//! have been requested, picks the next chunk to ask for, writes arriving
//! chunk payloads into the buffer, and verifies the whole buffer against
//! the content hash on every arrival.

use vstd::prelude::*;
use crate::bencode::{
    benc_nat,
    lemma_dec_seq_len20,
    match_key,
    parse_bint,
    parse_bint_x,
    parse_bstr,
    parse_bstr_x,
    push_be32n,
    push_bnat,
    push_bytes,
    skip_value,
    skip_value_x,
    DecodeError,
};
use crate::bt_structs::{ext_frame, MSG_TYPE_TAG, PIECE_TAG};
use sha1::{Digest, Sha1};

verus! {

/// Digest value of the 160-bit secure hash the resource identifier is
/// defined over.
pub uninterp spec fn sha1_of(data: Seq<u8>) -> Seq<u8>;

/// Relies on sha1's `Sha1` hasher (`update`, `finalize`): the digest is
/// a function of the input bytes alone.
#[verifier::external_body]
fn sha1_digest(data: &[u8]) -> (r: [u8; 20])
    ensures
        r@ == sha1_of(data@),
{
    let mut hasher = Sha1::new();
    hasher.update(data);
    let out = hasher.finalize();
    let mut r = [0u8; 20];
    r.copy_from_slice(&out);
    r
}

/// Compares two twenty-byte runs.
fn eq20(a: &[u8; 20], b: &[u8; 20]) -> (r: bool)
    ensures
        r <==> a@ == b@,
{
    let mut i: usize = 0;
    while i < 20
        invariant
            i <= 20,
            forall|j: int| 0 <= j < i ==> a@[j] == b@[j],
        decreases 20 - i,
    {
        if a[i] != b[i] {
            proof {
                assert(a@[i as int] != b@[i as int]);
            }
            return false;
        }
        i = i + 1;
    }
    proof {
        assert(a@ =~= b@);
    }
    true
}

// ---------------------------------------------------------------------------
// Chunk messages
// ---------------------------------------------------------------------------

pub const TOTAL_SIZE_TAG: [u8; 13] = [
    49u8,
    48u8,
    58u8,
    116u8,
    111u8,
    116u8,
    97u8,
    108u8,
    95u8,
    115u8,
    105u8,
    122u8,
    101u8,
];

pub const KEY_MSG_TYPE: [u8; 8] = [109u8, 115u8, 103u8, 95u8, 116u8, 121u8, 112u8, 101u8];

pub const KEY_PIECE: [u8; 5] = [112u8, 105u8, 101u8, 99u8, 101u8];

pub const KEY_TOTAL_SIZE: [u8; 10] = [
    116u8,
    111u8,
    116u8,
    97u8,
    108u8,
    95u8,
    115u8,
    105u8,
    122u8,
    101u8,
];

/// The chunk-message dictionary: type, chunk index, and, when declared,
/// the document's total size, keys in sorted order.
pub open spec fn chunk_dict(msg_type: nat, piece: nat, total_size: Option<usize>) -> Seq<u8> {
    seq![100u8] + MSG_TYPE_TAG@ + benc_nat(msg_type) + PIECE_TAG@ + benc_nat(piece) + (match
        total_size {
        Some(n) => TOTAL_SIZE_TAG@ + benc_nat(n as nat),
        None => Seq::<u8>::empty(),
    }) + seq![101u8]
}

/// The mathematical value of a decoded chunk message.
pub ghost struct MsgModel {
    pub msg_type: usize,
    pub piece: usize,
    pub total_size: Option<usize>,
}

/// A metadata-exchange message: request (type 0), data (type 1) or
/// reject (type 2), with the chunk index and, on data, the total size.
/// In a data message the raw chunk bytes follow the dictionary.
#[derive(Debug)]
pub struct MetadataMessage {
    pub msg_type: usize,
    pub piece: usize,
    pub total_size: Option<usize>,
}

impl MetadataMessage {
    /// The mathematical value of the fields.
    pub open spec fn model(&self) -> MsgModel {
        MsgModel { msg_type: self.msg_type, piece: self.piece, total_size: self.total_size }
    }

    /// Emits the framed message addressed to the peer's advertised
    /// sub-id.
    pub fn to_bytes(&self, extension_id: u8) -> (out: Vec<u8>)
        ensures
            out@ == ext_frame(
                extension_id,
                chunk_dict(self.msg_type as nat, self.piece as nat, self.total_size),
            ),
    {
        let mut body: Vec<u8> = Vec::new();
        body.push(100);
        push_bytes(&mut body, MSG_TYPE_TAG.as_slice());
        push_bnat(&mut body, self.msg_type);
        push_bytes(&mut body, PIECE_TAG.as_slice());
        push_bnat(&mut body, self.piece);
        match self.total_size {
            Some(n) => {
                push_bytes(&mut body, TOTAL_SIZE_TAG.as_slice());
                push_bnat(&mut body, n);
                proof {
                    lemma_dec_seq_len20(n as nat);
                }
            },
            None => {},
        }
        body.push(101);
        proof {
            assert(body@ =~= chunk_dict(self.msg_type as nat, self.piece as nat, self.total_size));
            lemma_dec_seq_len20(self.msg_type as nat);
            lemma_dec_seq_len20(self.piece as nat);
        }
        let mut out: Vec<u8> = Vec::new();
        push_be32n(&mut out, body.len() + 2);
        out.push(20);
        out.push(extension_id);
        push_bytes(&mut out, body.as_slice());
        proof {
            assert(out@ =~= ext_frame(extension_id, chunk_dict(
                self.msg_type as nat,
                self.piece as nat,
                self.total_size,
            )));
        }
        out
    }
}

/// Reads the chunk-message dictionary's entries up to the closing `e`:
/// at most one of each known field, in the machine's size range,
/// anything else skipped.
pub open spec fn parse_msg_fields(
    s: Seq<u8>,
    pos: int,
    fuel: nat,
    mt: Option<usize>,
    p: Option<usize>,
    ts: Option<usize>,
) -> Option<((Option<usize>, Option<usize>, Option<usize>), int)>
    decreases fuel,
{
    if 0 <= pos < s.len() && s[pos] == 101 {
        Some(((mt, p, ts), pos + 1))
    } else if fuel == 0 {
        None
    } else {
        match parse_bstr(s, pos) {
            None => None,
            Some((ks, ke)) => {
                if !(0 <= ks <= ke <= s.len()) {
                    None
                } else {
                    let key = s.subrange(ks, ke);
                    if key == KEY_MSG_TYPE@ {
                        if mt is Some {
                            None
                        } else {
                            match parse_bint(s, ke) {
                                Some((v, e)) => {
                                    if 0 <= v <= usize::MAX && 0 <= e <= s.len() {
                                        parse_msg_fields(
                                            s,
                                            e,
                                            (fuel - 1) as nat,
                                            Some(v as usize),
                                            p,
                                            ts,
                                        )
                                    } else {
                                        None
                                    }
                                },
                                None => None,
                            }
                        }
                    } else if key == KEY_PIECE@ {
                        if p is Some {
                            None
                        } else {
                            match parse_bint(s, ke) {
                                Some((v, e)) => {
                                    if 0 <= v <= usize::MAX && 0 <= e <= s.len() {
                                        parse_msg_fields(
                                            s,
                                            e,
                                            (fuel - 1) as nat,
                                            mt,
                                            Some(v as usize),
                                            ts,
                                        )
                                    } else {
                                        None
                                    }
                                },
                                None => None,
                            }
                        }
                    } else if key == KEY_TOTAL_SIZE@ {
                        if ts is Some {
                            None
                        } else {
                            match parse_bint(s, ke) {
                                Some((v, e)) => {
                                    if 0 <= v <= usize::MAX && 0 <= e <= s.len() {
                                        parse_msg_fields(
                                            s,
                                            e,
                                            (fuel - 1) as nat,
                                            mt,
                                            p,
                                            Some(v as usize),
                                        )
                                    } else {
                                        None
                                    }
                                },
                                None => None,
                            }
                        }
                    } else {
                        match skip_value(s, ke, fuel) {
                            Some(p2) => {
                                if 0 <= p2 <= s.len() {
                                    parse_msg_fields(s, p2, (fuel - 1) as nat, mt, p, ts)
                                } else {
                                    None
                                }
                            },
                            None => None,
                        }
                    }
                }
            },
        }
    }
}

/// The decoded chunk message, when the bytes open with a dictionary
/// holding a type and a chunk index; bytes after the dictionary (a data
/// message's payload) are ignored.
pub open spec fn parse_msg_model(s: Seq<u8>) -> Option<MsgModel> {
    if s.len() > 0 && s[0] == 100 {
        match parse_msg_fields(s, 1, (s.len() + 1) as nat, None, None, None) {
            Some(((mt, p, ts), e)) => match (mt, p) {
                (Some(mtv), Some(pv)) => Some(
                    MsgModel { msg_type: mtv, piece: pv, total_size: ts },
                ),
                _ => None,
            },
            None => None,
        }
    } else {
        None
    }
}

fn parse_msg_fields_x(
    s: &[u8],
    pos: usize,
    fuel: usize,
    mt: Option<usize>,
    p: Option<usize>,
    ts: Option<usize>,
) -> (r: Option<(Option<usize>, Option<usize>, Option<usize>, usize)>)
    requires
        pos <= s@.len(),
    ensures
        match r {
            Some((mt2, p2, ts2, e)) => parse_msg_fields(s@, pos as int, fuel as nat, mt, p, ts)
                == Some(((mt2, p2, ts2), e as int)) && e <= s@.len(),
            None => parse_msg_fields(s@, pos as int, fuel as nat, mt, p, ts) is None,
        },
    decreases fuel,
{
    if pos < s.len() && s[pos] == 101 {
        return Some((mt, p, ts, pos + 1));
    }
    if fuel == 0 {
        return None;
    }
    match parse_bstr_x(s, pos) {
        None => None,
        Some((ks, ke)) => {
            if match_key(s, ks, ke, KEY_MSG_TYPE.as_slice()) {
                if mt.is_some() {
                    return None;
                }
                match parse_bint_x(s, ke) {
                    Some((v, e)) => {
                        if 0 <= v && v as u64 <= usize::MAX as u64 {
                            parse_msg_fields_x(s, e, fuel - 1, Some(v as usize), p, ts)
                        } else {
                            None
                        }
                    },
                    None => None,
                }
            } else if match_key(s, ks, ke, KEY_PIECE.as_slice()) {
                if p.is_some() {
                    return None;
                }
                match parse_bint_x(s, ke) {
                    Some((v, e)) => {
                        if 0 <= v && v as u64 <= usize::MAX as u64 {
                            parse_msg_fields_x(s, e, fuel - 1, mt, Some(v as usize), ts)
                        } else {
                            None
                        }
                    },
                    None => None,
                }
            } else if match_key(s, ks, ke, KEY_TOTAL_SIZE.as_slice()) {
                if ts.is_some() {
                    return None;
                }
                match parse_bint_x(s, ke) {
                    Some((v, e)) => {
                        if 0 <= v && v as u64 <= usize::MAX as u64 {
                            parse_msg_fields_x(s, e, fuel - 1, mt, p, Some(v as usize))
                        } else {
                            None
                        }
                    },
                    None => None,
                }
            } else {
                match skip_value_x(s, ke, fuel) {
                    Some(p2) => parse_msg_fields_x(s, p2, fuel - 1, mt, p, ts),
                    None => None,
                }
            }
        },
    }
}

impl MetadataMessage {
    /// Decodes a chunk message.  Succeeds exactly when the bytes open
    /// with a dictionary holding a type and a chunk index.
    pub fn from_bytes(buf: &[u8]) -> (r: Result<Self, DecodeError>)
        requires
            buf@.len() < usize::MAX,
        ensures
            match r {
                Ok(m) => parse_msg_model(buf@) == Some(m.model()),
                Err(_) => parse_msg_model(buf@) is None,
            },
    {
        if buf.len() == 0 {
            return Err(DecodeError::Malformed);
        }
        if buf[0] != 100 {
            return Err(DecodeError::Malformed);
        }
        let fuel: usize = buf.len() + 1;
        match parse_msg_fields_x(buf, 1, fuel, None, None, None) {
            Some((mt, p, ts, _e)) => match (mt, p) {
                (Some(mtv), Some(pv)) => Ok(
                    MetadataMessage { msg_type: mtv, piece: pv, total_size: ts },
                ),
                _ => Err(DecodeError::Malformed),
            },
            None => Err(DecodeError::Malformed),
        }
    }
}

// ---------------------------------------------------------------------------
// The assembler
// ---------------------------------------------------------------------------

/// Number of 16-KiB chunks a document of `size` bytes spans.
pub open spec fn spec_num_pieces(size: nat) -> nat {
    (size + 16383) / 16384
}

/// The length of chunk `piece` in a document of `size` bytes: the fixed
/// chunk size for every chunk but possibly the last.
pub open spec fn chunk_len(size: nat, piece: nat) -> nat
    recommends
        piece < spec_num_pieces(size),
{
    if piece * 16384 + 16384 <= size {
        16384
    } else {
        (size - piece * 16384) as nat
    }
}

/// The buffer with `payload` written over the run starting at `start`.
pub open spec fn write_chunk(buf: Seq<u8>, start: int, payload: Seq<u8>) -> Seq<u8>
    recommends
        0 <= start,
        start + payload.len() <= buf.len(),
{
    buf.take(start) + payload + buf.skip(start + payload.len())
}

/// A chunk index below the chunk count addresses a run that lies inside
/// the buffer.
pub proof fn lemma_piece_bounds(size: nat, piece: nat)
    requires
        piece < spec_num_pieces(size),
    ensures
        piece * 16384 < size,
        piece * 16384 + chunk_len(size, piece) <= size,
        chunk_len(size, piece) > 0,
{
    assert(spec_num_pieces(size) * 16384 <= size + 16383) by (nonlinear_arith);
    assert((piece + 1) * 16384 <= spec_num_pieces(size) * 16384) by (nonlinear_arith)
        requires
            piece + 1 <= spec_num_pieces(size),
    ;
    assert((piece + 1) * 16384 == piece * 16384 + 16384) by (nonlinear_arith);
}

/// Writes to chunk runs that do not overlap reach the same buffer in
/// either order: concurrent sessions may deliver disjoint chunks in any
/// interleaving without corrupting each other's bytes.
pub proof fn lemma_disjoint_writes_commute(
    buf: Seq<u8>,
    s1: int,
    p1: Seq<u8>,
    s2: int,
    p2: Seq<u8>,
)
    requires
        0 <= s1,
        s1 + p1.len() <= s2,
        s2 + p2.len() <= buf.len(),
    ensures
        write_chunk(write_chunk(buf, s1, p1), s2, p2) == write_chunk(
            write_chunk(buf, s2, p2),
            s1,
            p1,
        ),
{
    assert(write_chunk(write_chunk(buf, s1, p1), s2, p2) =~= write_chunk(
        write_chunk(buf, s2, p2),
        s1,
        p1,
    ));
}

/// Writing the same payload over the same run twice leaves the buffer as
/// one write does: chunk retries are idempotent.
pub proof fn lemma_rewrite_idempotent(buf: Seq<u8>, start: int, payload: Seq<u8>)
    requires
        0 <= start,
        start + payload.len() <= buf.len(),
    ensures
        write_chunk(write_chunk(buf, start, payload), start, payload) == write_chunk(
            buf,
            start,
            payload,
        ),
{
    assert(write_chunk(write_chunk(buf, start, payload), start, payload) =~= write_chunk(
        buf,
        start,
        payload,
    ));
}

/// After a chunk index is handed out, the next request cannot repeat it
/// while some chunk has never been requested at all: the new count is
/// positive, an untried chunk's count is zero, and only indices of
/// least count are handed out.
pub proof fn lemma_no_immediate_repeat(
    before: Seq<usize>,
    after: Seq<usize>,
    i: int,
    j: int,
    k: int,
)
    requires
        0 <= i < before.len(),
        before[i] < usize::MAX,
        after == before.update(i, (before[i] + 1) as usize),
        0 <= k < after.len(),
        after[k] == 0,
        0 <= j < after.len(),
        forall|l: int| 0 <= l < after.len() ==> after[j] <= after[l],
    ensures
        j != i,
{
    assert(after[j] <= after[k]);
    assert(after[i] >= 1);
}

/// The assembler's size-aware state: the document buffer and the
/// per-chunk request counters.
pub struct MetaInfoInner {
    pub size: usize,
    pub data: Vec<u8>,
    pub pieces: Vec<usize>,
}

/// Per-crawl assembly state for one resource identifier.  Created
/// size-unaware; the first reported size allocates the buffer; every
/// chunk arrival re-verifies the whole buffer against the identifier.
pub struct MetaInfo {
    pub infohash: [u8; 20],
    pub inner: Option<MetaInfoInner>,
}

impl MetaInfo {
    /// The buffer's length equals the learned size, and one counter
    /// stands per chunk.
    pub open spec fn wf(&self) -> bool {
        match self.inner {
            Some(i) => {
                &&& i.size + 16383 <= usize::MAX
                &&& i.data@.len() == i.size
                &&& i.pieces@.len() == spec_num_pieces(i.size as nat)
            },
            None => true,
        }
    }

    /// The learned size, once known.
    pub open spec fn size_of(&self) -> usize {
        match self.inner {
            Some(i) => i.size,
            None => 0,
        }
    }

    /// The document buffer, once allocated.
    pub open spec fn buf(&self) -> Seq<u8> {
        match self.inner {
            Some(i) => i.data@,
            None => Seq::empty(),
        }
    }

    /// The per-chunk request counters, once allocated.
    pub open spec fn counts(&self) -> Seq<usize> {
        match self.inner {
            Some(i) => i.pieces@,
            None => Seq::empty(),
        }
    }

    /// A size-unaware assembler for the given resource identifier.
    pub fn new(infohash: [u8; 20]) -> (r: Self)
        ensures
            r.infohash@ == infohash@,
            r.inner is None,
            r.wf(),
    {
        Self { infohash, inner: None }
    }

    /// The resource identifier this assembler verifies against.
    pub fn infohash(&self) -> (r: [u8; 20])
        ensures
            r@ == self.infohash@,
    {
        self.infohash
    }

    /// The learned total size, when one has been reported.
    pub fn size(&self) -> (r: Option<usize>)
        ensures
            match self.inner {
                Some(i) => r == Some(i.size),
                None => r is None,
            },
    {
        match &self.inner {
            Some(i) => Some(i.size),
            None => None,
        }
    }

    /// Learns the document's total size.  The first call allocates a
    /// zero-filled buffer and zeroed counters; later calls must repeat
    /// the identical size, since one resource identifier cannot describe
    /// two sizes.
    pub fn got_size(&mut self, size: usize)
        requires
            old(self).wf(),
            size + 16383 <= usize::MAX,
            match old(self).inner {
                Some(i) => i.size == size,
                None => true,
            },
        ensures
            final(self).wf(),
            final(self).infohash == old(self).infohash,
            final(self).inner is Some,
            final(self).size_of() == size,
            old(self).inner is Some ==> *final(self) == *old(self),
            old(self).inner is None ==> {
                &&& final(self).buf() == Seq::new(size as nat, |j: int| 0u8)
                &&& final(self).counts() == Seq::new(
                    spec_num_pieces(size as nat),
                    |j: int| 0usize,
                )
            },
    {
        if self.inner.is_none() {
            let data: Vec<u8> = vec![0u8; size];
            let np: usize = (size + 16383) / 16384;
            let pieces: Vec<usize> = vec![0usize; np];
            proof {
                assert(data@ =~= Seq::new(size as nat, |j: int| 0u8));
                assert(pieces@ =~= Seq::new(spec_num_pieces(size as nat), |j: int| 0usize));
            }
            self.inner = Some(MetaInfoInner { size, data, pieces });
        }
    }

    /// Picks the chunk to request next: the lowest index among those
    /// with the fewest requests so far, whose counter is stepped; or
    /// nothing once every counter has reached its ceiling.
    pub fn which_piece(&mut self) -> (r: Option<usize>)
        requires
            old(self).wf(),
            old(self).inner is Some,
            old(self).counts().len() > 0,
        ensures
            final(self).wf(),
            final(self).infohash == old(self).infohash,
            final(self).inner is Some,
            final(self).size_of() == old(self).size_of(),
            final(self).buf() == old(self).buf(),
            match r {
                Some(i) => {
                    &&& i < old(self).counts().len()
                    &&& old(self).counts()[i as int] < usize::MAX
                    &&& forall|j: int|
                        0 <= j < old(self).counts().len() ==> old(self).counts()[i as int] <= old(
                            self,
                        ).counts()[j]
                    &&& forall|j: int|
                        0 <= j < i ==> old(self).counts()[j] > old(self).counts()[i as int]
                    &&& final(self).counts() == old(self).counts().update(
                        i as int,
                        (old(self).counts()[i as int] + 1) as usize,
                    )
                },
                None => {
                    &&& final(self).counts() == old(self).counts()
                    &&& forall|j: int|
                        0 <= j < old(self).counts().len() ==> old(self).counts()[j] == usize::MAX
                },
            },
    {
        match &mut self.inner {
            Some(inner) => {
                let n: usize = inner.pieces.len();
                let mut best: usize = 0;
                let mut m: usize = inner.pieces[0];
                let mut j: usize = 1;
                while j < n
                    invariant
                        1 <= j <= n,
                        n == inner.pieces@.len(),
                        best < j,
                        m == inner.pieces@[best as int],
                        forall|l: int| 0 <= l < j ==> m <= inner.pieces@[l],
                        forall|l: int| 0 <= l < best ==> inner.pieces@[l] > m,
                    decreases n - j,
                {
                    if inner.pieces[j] < m {
                        m = inner.pieces[j];
                        best = j;
                    }
                    j = j + 1;
                }
                if m == usize::MAX {
                    None
                } else {
                    inner.pieces[best] = m + 1;
                    Some(best)
                }
            },
            None => vstd::pervasive::unreached(),
        }
    }

    /// Whether the bytes hash to this assembler's resource identifier.
    fn verify(&self, data: &[u8]) -> (b: bool)
        ensures
            b <==> sha1_of(data@) == self.infohash@,
    {
        let digest = sha1_digest(data);
        eq20(&digest, &self.infohash)
    }

    /// Takes one data message: writes its payload, the message's own
    /// trailing bytes, over the addressed chunk's run, then re-verifies
    /// the whole buffer.  Yields whether the document is now complete
    /// and verified.  The declared size must repeat the learned one and
    /// the chunk index must be in range; re-writing a chunk is safe.
    pub fn got_metadata_message(&mut self, data: &[u8]) -> (r: bool)
        requires
            old(self).wf(),
            old(self).inner is Some,
            data@.len() < usize::MAX,
            parse_msg_model(data@) is Some,
            parse_msg_model(data@).unwrap().total_size == Some(old(self).size_of()),
            (parse_msg_model(data@).unwrap().piece as nat) < spec_num_pieces(
                old(self).size_of() as nat,
            ),
            data@.len() >= chunk_len(
                old(self).size_of() as nat,
                parse_msg_model(data@).unwrap().piece as nat,
            ),
        ensures
            final(self).wf(),
            final(self).infohash == old(self).infohash,
            final(self).inner is Some,
            final(self).size_of() == old(self).size_of(),
            final(self).counts() == old(self).counts(),
            ({
                let msg = parse_msg_model(data@).unwrap();
                let cl = chunk_len(old(self).size_of() as nat, msg.piece as nat);
                let payload = data@.subrange(data@.len() - cl, data@.len() as int);
                &&& final(self).buf() == write_chunk(
                    old(self).buf(),
                    msg.piece * 16384,
                    payload,
                )
                &&& r == (sha1_of(final(self).buf()) == old(self).infohash@)
            }),
    {
        let msg = match MetadataMessage::from_bytes(data) {
            Ok(m) => m,
            Err(_) => vstd::pervasive::unreached(),
        };
        let ghost old_buf = old(self).buf();
        let infohash = self.infohash;
        let done: bool;
        match &mut self.inner {
            Some(inner) => {
                proof {
                    assert(parse_msg_model(data@).unwrap() == msg.model());
                    lemma_piece_bounds(inner.size as nat, msg.piece as nat);
                }
                let start: usize = msg.piece * 16384;
                let end: usize = if start + 16384 <= inner.size {
                    start + 16384
                } else {
                    inner.size
                };
                let cl: usize = end - start;
                proof {
                    assert(cl as nat == chunk_len(inner.size as nat, msg.piece as nat));
                }
                let dl: usize = data.len();
                let ghost old_size = inner.size;
                let ghost old_pieces = inner.pieces@;
                let mut k: usize = 0;
                while k < cl
                    invariant
                        k <= cl,
                        start + cl <= inner.data@.len(),
                        cl <= dl,
                        dl == data@.len(),
                        dl <= usize::MAX,
                        inner.data@.len() == old_buf.len(),
                        inner.data@.len() <= usize::MAX,
                        inner.size == old_size,
                        inner.pieces@ == old_pieces,
                        forall|l: int|
                            0 <= l < inner.data@.len() && !(start <= l < start + k)
                                ==> inner.data@[l] == old_buf[l],
                        forall|l: int|
                            start <= l < start + k ==> inner.data@[l] == data@[dl - cl + (l
                                - start)],
                    decreases cl - k,
                {
                    inner.data[start + k] = data[dl - cl + k];
                    k = k + 1;
                }
                proof {
                    assert(inner.data@ =~= write_chunk(
                        old_buf,
                        start as int,
                        data@.subrange(dl - cl, dl as int),
                    ));
                }
                let digest = sha1_digest(inner.data.as_slice());
                done = eq20(&digest, &infohash);
            },
            None => {
                done = vstd::pervasive::unreached();
            },
        }
        done
    }

    /// Decodes the verified document's summary dictionary.
    pub fn parse_document(&self) -> (r: Option<InfoDict>)
        ensures
            match r {
                Some(d) => {
                    &&& self.inner is Some
                    &&& sha1_of(self.buf()) == self.infohash@
                    &&& self.buf().len() < usize::MAX
                    &&& parse_info_model(self.buf()) == Some(d.model())
                },
                None => self.inner is None || sha1_of(self.buf()) != self.infohash@ || !(
                self.buf().len() < usize::MAX) || parse_info_model(self.buf()) is None,
            },
    {
        match self.document() {
            Some(v) => {
                if v.len() == usize::MAX {
                    return None;
                }
                match InfoDict::from_bytes(v.as_slice()) {
                    Ok(d) => Some(d),
                    Err(_) => None,
                }
            },
            None => None,
        }
    }

    /// The assembled document, when it is complete and verified; no
    /// partial or unverified bytes are ever handed out.
    pub fn document(&self) -> (r: Option<Vec<u8>>)
        ensures
            match r {
                Some(v) => {
                    &&& self.inner is Some
                    &&& v@ == self.buf()
                    &&& sha1_of(v@) == self.infohash@
                },
                None => self.inner is None || sha1_of(self.buf()) != self.infohash@,
            },
    {
        match &self.inner {
            Some(inner) => {
                if self.verify(inner.data.as_slice()) {
                    let v = crate::bencode::sub_vec(inner.data.as_slice(), 0, inner.data.len());
                    proof {
                        assert(v@ =~= inner.data@);
                    }
                    Some(v)
                } else {
                    None
                }
            },
            None => None,
        }
    }
}

// ---------------------------------------------------------------------------
// The document's summary dictionary
// ---------------------------------------------------------------------------

pub const KEY_FILES: [u8; 5] = [102u8, 105u8, 108u8, 101u8, 115u8];

pub const KEY_LENGTH: [u8; 6] = [108u8, 101u8, 110u8, 103u8, 116u8, 104u8];

pub const KEY_NAME: [u8; 4] = [110u8, 97u8, 109u8, 101u8];

pub const KEY_PIECE_LENGTH: [u8; 12] = [
    112u8,
    105u8,
    101u8,
    99u8,
    101u8,
    32u8,
    108u8,
    101u8,
    110u8,
    103u8,
    116u8,
    104u8,
];

pub const KEY_PIECES: [u8; 6] = [112u8, 105u8, 101u8, 99u8, 101u8, 115u8];

pub const KEY_PATH: [u8; 4] = [112u8, 97u8, 116u8, 104u8];

/// The mathematical value of one file entry.
pub ghost struct FileModel {
    pub length: u64,
    pub path: Seq<Seq<u8>>,
}

/// The mathematical value of a decoded summary dictionary.
pub ghost struct InfoModel {
    pub files: Option<Seq<FileModel>>,
    pub length: Option<u64>,
    pub name: Seq<u8>,
    pub piece_length: usize,
    pub pieces: Seq<u8>,
}

/// Reads one file entry's fields up to the closing `e`: a length and a
/// path, anything else skipped.
pub open spec fn parse_file_fields(
    s: Seq<u8>,
    pos: int,
    fuel: nat,
    len: Option<u64>,
    path: Option<Seq<Seq<u8>>>,
) -> Option<((Option<u64>, Option<Seq<Seq<u8>>>), int)>
    decreases fuel,
{
    if 0 <= pos < s.len() && s[pos] == 101 {
        Some(((len, path), pos + 1))
    } else if fuel == 0 {
        None
    } else {
        match parse_bstr(s, pos) {
            None => None,
            Some((ks, ke)) => {
                if !(0 <= ks <= ke <= s.len()) {
                    None
                } else {
                    let key = s.subrange(ks, ke);
                    if key == KEY_LENGTH@ {
                        if len is Some {
                            None
                        } else {
                            match parse_bint(s, ke) {
                                Some((v, e)) => {
                                    if 0 <= v && 0 <= e <= s.len() {
                                        parse_file_fields(
                                            s,
                                            e,
                                            (fuel - 1) as nat,
                                            Some(v as u64),
                                            path,
                                        )
                                    } else {
                                        None
                                    }
                                },
                                None => None,
                            }
                        }
                    } else if key == KEY_PATH@ {
                        if path is Some {
                            None
                        } else {
                            if ke < s.len() && s[ke] == 108 {
                                match crate::dht_structs::parse_str_list_items(
                                    s,
                                    ke + 1,
                                    fuel,
                                    Seq::empty(),
                                ) {
                                    Some((items, e)) => {
                                        if 0 <= e <= s.len() {
                                            parse_file_fields(
                                                s,
                                                e,
                                                (fuel - 1) as nat,
                                                len,
                                                Some(items),
                                            )
                                        } else {
                                            None
                                        }
                                    },
                                    None => None,
                                }
                            } else {
                                None
                            }
                        }
                    } else {
                        match skip_value(s, ke, fuel) {
                            Some(p2) => {
                                if 0 <= p2 <= s.len() {
                                    parse_file_fields(s, p2, (fuel - 1) as nat, len, path)
                                } else {
                                    None
                                }
                            },
                            None => None,
                        }
                    }
                }
            },
        }
    }
}

/// Reads file entries up to the closing `e`; each must be a dictionary
/// holding a length and a path.
pub open spec fn parse_file_list_items(s: Seq<u8>, pos: int, fuel: nat, acc: Seq<FileModel>) -> Option<
    (Seq<FileModel>, int),
>
    decreases fuel,
{
    if 0 <= pos < s.len() && s[pos] == 101 {
        Some((acc, pos + 1))
    } else if fuel == 0 {
        None
    } else {
        if 0 <= pos < s.len() && s[pos] == 100 {
            match parse_file_fields(s, pos + 1, fuel, None, None) {
                Some(((len, path), e)) => match (len, path) {
                    (Some(l), Some(p)) => {
                        if 0 <= e <= s.len() {
                            parse_file_list_items(
                                s,
                                e,
                                (fuel - 1) as nat,
                                acc.push(FileModel { length: l, path: p }),
                            )
                        } else {
                            None
                        }
                    },
                    _ => None,
                },
                None => None,
            }
        } else {
            None
        }
    }
}

/// Reads the summary dictionary's entries up to the closing `e`.
pub open spec fn parse_info_fields(
    s: Seq<u8>,
    pos: int,
    fuel: nat,
    files: Option<Seq<FileModel>>,
    length: Option<u64>,
    name: Option<Seq<u8>>,
    plen: Option<usize>,
    pieces: Option<Seq<u8>>,
) -> Option<
    (
        (Option<Seq<FileModel>>, Option<u64>, Option<Seq<u8>>, Option<usize>, Option<Seq<u8>>),
        int,
    ),
>
    decreases fuel,
{
    if 0 <= pos < s.len() && s[pos] == 101 {
        Some(((files, length, name, plen, pieces), pos + 1))
    } else if fuel == 0 {
        None
    } else {
        match parse_bstr(s, pos) {
            None => None,
            Some((ks, ke)) => {
                if !(0 <= ks <= ke <= s.len()) {
                    None
                } else {
                    let key = s.subrange(ks, ke);
                    if key == KEY_FILES@ {
                        if files is Some {
                            None
                        } else {
                            if ke < s.len() && s[ke] == 108 {
                                match parse_file_list_items(s, ke + 1, fuel, Seq::empty()) {
                                    Some((items, e)) => {
                                        if 0 <= e <= s.len() {
                                            parse_info_fields(
                                                s,
                                                e,
                                                (fuel - 1) as nat,
                                                Some(items),
                                                length,
                                                name,
                                                plen,
                                                pieces,
                                            )
                                        } else {
                                            None
                                        }
                                    },
                                    None => None,
                                }
                            } else {
                                None
                            }
                        }
                    } else if key == KEY_LENGTH@ {
                        if length is Some {
                            None
                        } else {
                            match parse_bint(s, ke) {
                                Some((v, e)) => {
                                    if 0 <= v && 0 <= e <= s.len() {
                                        parse_info_fields(
                                            s,
                                            e,
                                            (fuel - 1) as nat,
                                            files,
                                            Some(v as u64),
                                            name,
                                            plen,
                                            pieces,
                                        )
                                    } else {
                                        None
                                    }
                                },
                                None => None,
                            }
                        }
                    } else if key == KEY_NAME@ {
                        if name is Some {
                            None
                        } else {
                            match parse_bstr(s, ke) {
                                Some((vs, ve)) => {
                                    if 0 <= vs <= ve <= s.len() {
                                        parse_info_fields(
                                            s,
                                            ve,
                                            (fuel - 1) as nat,
                                            files,
                                            length,
                                            Some(s.subrange(vs, ve)),
                                            plen,
                                            pieces,
                                        )
                                    } else {
                                        None
                                    }
                                },
                                None => None,
                            }
                        }
                    } else if key == KEY_PIECE_LENGTH@ {
                        if plen is Some {
                            None
                        } else {
                            match parse_bint(s, ke) {
                                Some((v, e)) => {
                                    if 0 <= v <= usize::MAX && 0 <= e <= s.len() {
                                        parse_info_fields(
                                            s,
                                            e,
                                            (fuel - 1) as nat,
                                            files,
                                            length,
                                            name,
                                            Some(v as usize),
                                            pieces,
                                        )
                                    } else {
                                        None
                                    }
                                },
                                None => None,
                            }
                        }
                    } else if key == KEY_PIECES@ {
                        if pieces is Some {
                            None
                        } else {
                            match parse_bstr(s, ke) {
                                Some((vs, ve)) => {
                                    if 0 <= vs <= ve <= s.len() {
                                        parse_info_fields(
                                            s,
                                            ve,
                                            (fuel - 1) as nat,
                                            files,
                                            length,
                                            name,
                                            plen,
                                            Some(s.subrange(vs, ve)),
                                        )
                                    } else {
                                        None
                                    }
                                },
                                None => None,
                            }
                        }
                    } else {
                        match skip_value(s, ke, fuel) {
                            Some(p2) => {
                                if 0 <= p2 <= s.len() {
                                    parse_info_fields(
                                        s,
                                        p2,
                                        (fuel - 1) as nat,
                                        files,
                                        length,
                                        name,
                                        plen,
                                        pieces,
                                    )
                                } else {
                                    None
                                }
                            },
                            None => None,
                        }
                    }
                }
            },
        }
    }
}

/// The decoded summary, when the bytes form a dictionary holding a
/// name, a piece length and a piece-hash run.
pub open spec fn parse_info_model(s: Seq<u8>) -> Option<InfoModel> {
    if s.len() > 0 && s[0] == 100 {
        match parse_info_fields(s, 1, (s.len() + 1) as nat, None, None, None, None, None) {
            Some(((files, length, name, plen, pieces), e)) => match (name, plen, pieces) {
                (Some(n), Some(pl), Some(ps)) => Some(
                    InfoModel { files, length, name: n, piece_length: pl, pieces: ps },
                ),
                _ => None,
            },
            None => None,
        }
    } else {
        None
    }
}

/// One file entry of the document's summary: its length and path runs.
#[derive(Debug)]
pub struct File {
    pub length: u64,
    pub path: Vec<Vec<u8>>,
}

impl File {
    /// The mathematical value of the fields.
    pub open spec fn model(&self) -> FileModel {
        FileModel { length: self.length, path: self.path@.map_values(|x: Vec<u8>| x@) }
    }
}

/// The raw bytes of each path element.
pub open spec fn path_datas(v: Seq<Vec<u8>>) -> Seq<Seq<u8>> {
    v.map_values(|x: Vec<u8>| x@)
}

/// The models of each file entry.
pub open spec fn file_models(v: Seq<File>) -> Seq<FileModel> {
    v.map_values(|f: File| f.model())
}

/// The document's summary: name, lengths and file list, as decoded from
/// the verified document.
#[derive(Debug)]
pub struct InfoDict {
    pub files: Option<Vec<File>>,
    pub length: Option<u64>,
    pub name: Vec<u8>,
    pub piece_length: usize,
    pub pieces: Vec<u8>,
}

impl InfoDict {
    /// The mathematical value of the fields.
    pub open spec fn model(&self) -> InfoModel {
        InfoModel {
            files: match self.files {
                Some(v) => Some(file_models(v@)),
                None => None,
            },
            length: self.length,
            name: self.name@,
            piece_length: self.piece_length,
            pieces: self.pieces@,
        }
    }
}

fn parse_path_items_x(s: &[u8], pos: usize, fuel: usize, acc: Vec<Vec<u8>>) -> (r: Option<
    (Vec<Vec<u8>>, usize),
>)
    requires
        pos <= s@.len(),
    ensures
        match r {
            Some((acc2, p)) => crate::dht_structs::parse_str_list_items(
                s@,
                pos as int,
                fuel as nat,
                path_datas(acc@),
            ) == Some((path_datas(acc2@), p as int)) && p <= s@.len(),
            None => crate::dht_structs::parse_str_list_items(
                s@,
                pos as int,
                fuel as nat,
                path_datas(acc@),
            ) is None,
        },
    decreases fuel,
{
    if pos < s.len() && s[pos] == 101 {
        return Some((acc, pos + 1));
    }
    if fuel == 0 {
        return None;
    }
    match parse_bstr_x(s, pos) {
        Some((cs, ce)) => {
            let mut acc2 = acc;
            acc2.push(crate::bencode::sub_vec(s, cs, ce));
            proof {
                assert(path_datas(acc2@) =~= path_datas(acc@).push(
                    s@.subrange(cs as int, ce as int),
                ));
            }
            parse_path_items_x(s, ce, fuel - 1, acc2)
        },
        None => None,
    }
}

fn parse_file_fields_x(
    s: &[u8],
    pos: usize,
    fuel: usize,
    len: Option<u64>,
    path: Option<Vec<Vec<u8>>>,
) -> (r: Option<(Option<u64>, Option<Vec<Vec<u8>>>, usize)>)
    requires
        pos <= s@.len(),
    ensures
        match r {
            Some((len2, path2, p)) => parse_file_fields(
                s@,
                pos as int,
                fuel as nat,
                len,
                match path {
                    Some(v) => Some(path_datas(v@)),
                    None => None,
                },
            ) == Some(
                (
                    (
                        len2,
                        match path2 {
                            Some(v) => Some(path_datas(v@)),
                            None => None,
                        },
                    ),
                    p as int,
                ),
            ) && p <= s@.len(),
            None => parse_file_fields(
                s@,
                pos as int,
                fuel as nat,
                len,
                match path {
                    Some(v) => Some(path_datas(v@)),
                    None => None,
                },
            ) is None,
        },
    decreases fuel,
{
    if pos < s.len() && s[pos] == 101 {
        return Some((len, path, pos + 1));
    }
    if fuel == 0 {
        return None;
    }
    match parse_bstr_x(s, pos) {
        None => None,
        Some((ks, ke)) => {
            if match_key(s, ks, ke, KEY_LENGTH.as_slice()) {
                if len.is_some() {
                    return None;
                }
                match parse_bint_x(s, ke) {
                    Some((v, e)) => {
                        if 0 <= v {
                            parse_file_fields_x(s, e, fuel - 1, Some(v as u64), path)
                        } else {
                            None
                        }
                    },
                    None => None,
                }
            } else if match_key(s, ks, ke, KEY_PATH.as_slice()) {
                if path.is_some() {
                    return None;
                }
                if ke < s.len() && s[ke] == 108 {
                    proof {
                        assert(path_datas(Seq::<Vec<u8>>::empty()) =~= Seq::<Seq<u8>>::empty());
                    }
                    match parse_path_items_x(s, ke + 1, fuel, Vec::new()) {
                        Some((items, e)) => parse_file_fields_x(s, e, fuel - 1, len, Some(items)),
                        None => None,
                    }
                } else {
                    None
                }
            } else {
                match skip_value_x(s, ke, fuel) {
                    Some(p2) => parse_file_fields_x(s, p2, fuel - 1, len, path),
                    None => None,
                }
            }
        },
    }
}

fn parse_file_list_items_x(s: &[u8], pos: usize, fuel: usize, acc: Vec<File>) -> (r: Option<
    (Vec<File>, usize),
>)
    requires
        pos <= s@.len(),
    ensures
        match r {
            Some((acc2, p)) => parse_file_list_items(s@, pos as int, fuel as nat, file_models(acc@))
                == Some((file_models(acc2@), p as int)) && p <= s@.len(),
            None => parse_file_list_items(s@, pos as int, fuel as nat, file_models(acc@)) is None,
        },
    decreases fuel,
{
    if pos < s.len() && s[pos] == 101 {
        return Some((acc, pos + 1));
    }
    if fuel == 0 {
        return None;
    }
    if pos < s.len() && s[pos] == 100 {
        match parse_file_fields_x(s, pos + 1, fuel, None, None) {
            Some((len, path, e)) => match (len, path) {
                (Some(l), Some(p)) => {
                    let mut acc2 = acc;
                    let f = File { length: l, path: p };
                    acc2.push(f);
                    proof {
                        assert(file_models(acc2@) =~= file_models(acc@).push(
                            FileModel {
                                length: l,
                                path: path_datas(acc2@.last().path@),
                            },
                        ));
                    }
                    parse_file_list_items_x(s, e, fuel - 1, acc2)
                },
                _ => None,
            },
            None => None,
        }
    } else {
        None
    }
}

fn parse_info_fields_x(
    s: &[u8],
    pos: usize,
    fuel: usize,
    files: Option<Vec<File>>,
    length: Option<u64>,
    name: Option<Vec<u8>>,
    plen: Option<usize>,
    pieces: Option<Vec<u8>>,
) -> (r: Option<
    (Option<Vec<File>>, Option<u64>, Option<Vec<u8>>, Option<usize>, Option<Vec<u8>>, usize),
>)
    requires
        pos <= s@.len(),
    ensures
        match r {
            Some((files2, length2, name2, plen2, pieces2, p)) => parse_info_fields(
                s@,
                pos as int,
                fuel as nat,
                match files {
                    Some(v) => Some(file_models(v@)),
                    None => None,
                },
                length,
                match name {
                    Some(v) => Some(v@),
                    None => None,
                },
                plen,
                match pieces {
                    Some(v) => Some(v@),
                    None => None,
                },
            ) == Some(
                (
                    (
                        match files2 {
                            Some(v) => Some(file_models(v@)),
                            None => None,
                        },
                        length2,
                        match name2 {
                            Some(v) => Some(v@),
                            None => None,
                        },
                        plen2,
                        match pieces2 {
                            Some(v) => Some(v@),
                            None => None,
                        },
                    ),
                    p as int,
                ),
            ) && p <= s@.len(),
            None => parse_info_fields(
                s@,
                pos as int,
                fuel as nat,
                match files {
                    Some(v) => Some(file_models(v@)),
                    None => None,
                },
                length,
                match name {
                    Some(v) => Some(v@),
                    None => None,
                },
                plen,
                match pieces {
                    Some(v) => Some(v@),
                    None => None,
                },
            ) is None,
        },
    decreases fuel,
{
    if pos < s.len() && s[pos] == 101 {
        return Some((files, length, name, plen, pieces, pos + 1));
    }
    if fuel == 0 {
        return None;
    }
    match parse_bstr_x(s, pos) {
        None => None,
        Some((ks, ke)) => {
            if match_key(s, ks, ke, KEY_FILES.as_slice()) {
                if files.is_some() {
                    return None;
                }
                if ke < s.len() && s[ke] == 108 {
                    proof {
                        assert(file_models(Seq::<File>::empty()) =~= Seq::<FileModel>::empty());
                    }
                    match parse_file_list_items_x(s, ke + 1, fuel, Vec::new()) {
                        Some((items, e)) => parse_info_fields_x(
                            s,
                            e,
                            fuel - 1,
                            Some(items),
                            length,
                            name,
                            plen,
                            pieces,
                        ),
                        None => None,
                    }
                } else {
                    None
                }
            } else if match_key(s, ks, ke, KEY_LENGTH.as_slice()) {
                if length.is_some() {
                    return None;
                }
                match parse_bint_x(s, ke) {
                    Some((v, e)) => {
                        if 0 <= v {
                            parse_info_fields_x(
                                s,
                                e,
                                fuel - 1,
                                files,
                                Some(v as u64),
                                name,
                                plen,
                                pieces,
                            )
                        } else {
                            None
                        }
                    },
                    None => None,
                }
            } else if match_key(s, ks, ke, KEY_NAME.as_slice()) {
                if name.is_some() {
                    return None;
                }
                match parse_bstr_x(s, ke) {
                    Some((vs, ve)) => {
                        let v = crate::bencode::sub_vec(s, vs, ve);
                        parse_info_fields_x(s, ve, fuel - 1, files, length, Some(v), plen, pieces)
                    },
                    None => None,
                }
            } else if match_key(s, ks, ke, KEY_PIECE_LENGTH.as_slice()) {
                if plen.is_some() {
                    return None;
                }
                match parse_bint_x(s, ke) {
                    Some((v, e)) => {
                        if 0 <= v && v as u64 <= usize::MAX as u64 {
                            parse_info_fields_x(
                                s,
                                e,
                                fuel - 1,
                                files,
                                length,
                                name,
                                Some(v as usize),
                                pieces,
                            )
                        } else {
                            None
                        }
                    },
                    None => None,
                }
            } else if match_key(s, ks, ke, KEY_PIECES.as_slice()) {
                if pieces.is_some() {
                    return None;
                }
                match parse_bstr_x(s, ke) {
                    Some((vs, ve)) => {
                        let v = crate::bencode::sub_vec(s, vs, ve);
                        parse_info_fields_x(s, ve, fuel - 1, files, length, name, plen, Some(v))
                    },
                    None => None,
                }
            } else {
                match skip_value_x(s, ke, fuel) {
                    Some(p2) => parse_info_fields_x(s, p2, fuel - 1, files, length, name, plen, pieces),
                    None => None,
                }
            }
        },
    }
}

impl InfoDict {
    /// Decodes a document's summary dictionary.  Succeeds exactly when
    /// the bytes open with a dictionary holding a name, a piece length
    /// and a piece-hash run.
    pub fn from_bytes(buf: &[u8]) -> (r: Result<InfoDict, DecodeError>)
        requires
            buf@.len() < usize::MAX,
        ensures
            match r {
                Ok(d) => parse_info_model(buf@) == Some(d.model()),
                Err(_) => parse_info_model(buf@) is None,
            },
    {
        if buf.len() == 0 {
            return Err(DecodeError::Malformed);
        }
        if buf[0] != 100 {
            return Err(DecodeError::Malformed);
        }
        let fuel: usize = buf.len() + 1;
        match parse_info_fields_x(buf, 1, fuel, None, None, None, None, None) {
            Some((files, length, name, plen, pieces, _e)) => match (name, plen, pieces) {
                (Some(n), Some(pl), Some(ps)) => Ok(
                    InfoDict { files, length, name: n, piece_length: pl, pieces: ps },
                ),
                _ => Err(DecodeError::Malformed),
            },
            None => Err(DecodeError::Malformed),
        }
    }
}

} // verus!
