//! The per-peer session's decision core.  The surrounding task reads one
//! length-prefixed frame at a time and hands it here together with the
//! crawl's shared assembler; the handler decides what to send back, when
//! to stop, and when the peer has misbehaved fatally.

use vstd::prelude::*;
use crate::bt_structs::{ext_frame, parse_ext_model};
use crate::metainfo::{
    chunk_dict,
    chunk_len,
    parse_msg_model,
    sha1_of,
    spec_num_pieces,
    write_chunk,
    MetaInfo,
    MetadataMessage,
};

verus! {

/// What the session should do after one inbound frame.
#[derive(Debug)]
pub enum FrameAction {
    /// Nothing of interest: keep reading.
    Ignore,
    /// Write these bytes to the peer, then keep reading.
    Send(Vec<u8>),
    /// No chunk is left to assign: finish quietly.
    Stop,
    /// The document is complete and verified.
    Finished,
    /// Peer misbehavior that is fatal to this session.
    Violation,
}

/// Per-peer session state: the sub-id the peer advertised for metadata
/// exchange, once its extension handshake has been seen.
pub struct PeerSession {
    pub remote_extension_id: Option<u8>,
}

/// `i` is the least index holding the least count.
pub open spec fn is_first_min(c: Seq<usize>, i: int) -> bool {
    &&& 0 <= i < c.len()
    &&& forall|j: int| 0 <= j < c.len() ==> c[i] <= c[j]
    &&& forall|j: int| 0 <= j < i ==> c[j] > c[i]
}

/// The counters in force after a size report: the existing ones, or
/// fresh zeroes when the size was first learned now.
pub open spec fn counts_after_size(m0: MetaInfo, size: usize) -> Seq<usize> {
    if m0.inner is Some {
        m0.counts()
    } else {
        Seq::new(spec_num_pieces(size as nat), |j: int| 0usize)
    }
}

/// Outcome of an extension-handshake frame over the payload `pl`.
pub open spec fn ext_outcome(
    s0: PeerSession,
    s1: PeerSession,
    m0: MetaInfo,
    m1: MetaInfo,
    pl: Seq<u8>,
    r: FrameAction,
) -> bool {
    match parse_ext_model(pl) {
        None => r is Violation && m1 == m0 && s1 == s0,
        Some(ext) => match ext.ut_metadata {
            None => r is Ignore && m1 == m0 && s1 == (PeerSession { remote_extension_id: None }),
            Some(eid) => match ext.metadata_size {
                None => r is Violation && m1 == m0 && s1 == s0,
                Some(size) => {
                    if size + 16383 > usize::MAX || (m0.inner is Some && m0.size_of() != size)
                        || spec_num_pieces(size as nat) == 0 {
                        r is Violation && m1 == m0 && s1 == s0
                    } else {
                        let c = counts_after_size(m0, size);
                        &&& s1 == (PeerSession { remote_extension_id: Some(eid) })
                        &&& m1.inner is Some
                        &&& m1.size_of() == size
                        &&& (m0.inner is Some ==> m1.buf() == m0.buf())
                        &&& (m0.inner is None ==> m1.buf() == Seq::new(size as nat, |j: int| 0u8))
                        &&& (r matches FrameAction::Send(v) ==> exists|i: int|
                            #[trigger] is_first_min(c, i) && c[i] < usize::MAX && v@ == ext_frame(
                                eid,
                                chunk_dict(0, i as nat, None),
                            ) && m1.counts() == c.update(i, (c[i] + 1) as usize))
                        &&& (r is Stop ==> (forall|j: int|
                            0 <= j < c.len() ==> c[j] == usize::MAX) && m1.counts() == c)
                        &&& (r is Send || r is Stop)
                    }
                },
            },
        },
    }
}

/// Outcome of a chunk-data frame over the payload `pl`.
pub open spec fn chunk_outcome(
    s0: PeerSession,
    s1: PeerSession,
    m0: MetaInfo,
    m1: MetaInfo,
    pl: Seq<u8>,
    r: FrameAction,
) -> bool {
    if m0.inner is None {
        r is Violation && m1 == m0 && s1 == s0
    } else {
        match parse_msg_model(pl) {
            None => r is Violation && m1 == m0 && s1 == s0,
            Some(msg) => {
                let size = m0.size_of();
                if msg.total_size != Some(size) || !((msg.piece as nat) < spec_num_pieces(
                    size as nat,
                )) || pl.len() < chunk_len(size as nat, msg.piece as nat) {
                    r is Violation && m1 == m0 && s1 == s0
                } else {
                    let cl = chunk_len(size as nat, msg.piece as nat);
                    let payload = pl.subrange(pl.len() - cl, pl.len() as int);
                    let buf1 = write_chunk(m0.buf(), msg.piece * 16384, payload);
                    let c = m0.counts();
                    &&& s1 == s0
                    &&& m1.inner is Some
                    &&& m1.size_of() == size
                    &&& m1.buf() == buf1
                    &&& (sha1_of(buf1) == m0.infohash@ ==> r is Finished && m1.counts() == c)
                    &&& (sha1_of(buf1) != m0.infohash@ ==> {
                        &&& (r is Stop ==> (forall|j: int|
                            0 <= j < c.len() ==> c[j] == usize::MAX) && m1.counts() == c)
                        &&& ((r is Send || r is Violation) ==> exists|i: int|
                            #[trigger] is_first_min(c, i) && c[i] < usize::MAX && m1.counts()
                                == c.update(i, (c[i] + 1) as usize) && (match s0.remote_extension_id {
                                Some(eid) => r matches FrameAction::Send(v) && v@ == ext_frame(
                                    eid,
                                    chunk_dict(0, i as nat, None),
                                ),
                                None => r is Violation,
                            }))
                        &&& (r is Stop || r is Send || r is Violation)
                    })
                }
            },
        }
    }
}

/// Full outcome of one frame: empty, one-byte and unrecognized frames
/// change nothing; extension handshakes and chunk data act on the
/// session and the assembler as their outcome predicates say.
pub open spec fn frame_spec(
    s0: PeerSession,
    s1: PeerSession,
    m0: MetaInfo,
    m1: MetaInfo,
    d: Seq<u8>,
    r: FrameAction,
) -> bool {
    if d.len() < 2 || d[0] != 20 || (d[1] != 0 && d[1] != 2) {
        r is Ignore && m1 == m0 && s1 == s0
    } else if d[1] == 0 {
        ext_outcome(s0, s1, m0, m1, d.subrange(2, d.len() as int), r)
    } else {
        chunk_outcome(s0, s1, m0, m1, d.subrange(2, d.len() as int), r)
    }
}

impl PeerSession {
    /// A session that has not yet seen the peer's extension handshake.
    pub fn new() -> (r: Self)
        ensures
            r.remote_extension_id is None,
    {
        Self { remote_extension_id: None }
    }

    /// Acts on one inbound frame (the bytes after the length prefix,
    /// which the reader has already bounded by the protocol cap).
    #[verifier::rlimit(60)]
    pub fn handle_frame(&mut self, meta: &mut MetaInfo, data: &Vec<u8>) -> (r: FrameAction)
        requires
            old(meta).wf(),
            data@.len() <= 32768,
        ensures
            final(meta).wf(),
            final(meta).infohash == old(meta).infohash,
            frame_spec(*old(self), *final(self), *old(meta), *final(meta), data@, r),
    {
        if data.len() < 2 {
            return FrameAction::Ignore;
        }
        let b0: u8 = data[0];
        let b1: u8 = data[1];
        if b0 == 20 && b1 == 0 {
            let pl: &[u8] = &data.as_slice()[2..data.len()];
            match crate::bt_structs::ExtensionHandshake::from_bytes(pl) {
                Err(_) => FrameAction::Violation,
                Ok(ext) => {
                    match ext.m.ut_metadata {
                        None => {
                            self.remote_extension_id = None;
                            FrameAction::Ignore
                        },
                        Some(eid) => {
                            match ext.metadata_size {
                                None => FrameAction::Violation,
                                Some(size) => {
                                    if size > usize::MAX - 16383 {
                                        return FrameAction::Violation;
                                    }
                                    match meta.size() {
                                        Some(known) => {
                                            if known != size {
                                                return FrameAction::Violation;
                                            }
                                        },
                                        None => {},
                                    }
                                    let np: usize = (size + 16383) / 16384;
                                    if np == 0 {
                                        return FrameAction::Violation;
                                    }
                                    meta.got_size(size);
                                    self.remote_extension_id = Some(eid);
                                    let ghost c = meta.counts();
                                    proof {
                                        assert(c =~= counts_after_size(*old(meta), size));
                                        if old(meta).inner is None {
                                            assert(meta.buf() =~= Seq::new(
                                                size as nat,
                                                |j: int| 0u8,
                                            ));
                                        }
                                    }
                                    match meta.which_piece() {
                                        Some(piece) => {
                                            proof {
                                                assert(is_first_min(c, piece as int));
                                            }
                                            let msg = MetadataMessage {
                                                msg_type: 0,
                                                piece,
                                                total_size: None,
                                            };
                                            FrameAction::Send(msg.to_bytes(eid))
                                        },
                                        None => FrameAction::Stop,
                                    }
                                },
                            }
                        },
                    }
                },
            }
        } else if b0 == 20 && b1 == 2 {
            let size: usize = match meta.size() {
                Some(s) => s,
                None => {
                    return FrameAction::Violation;
                },
            };
            let pl: &[u8] = &data.as_slice()[2..data.len()];
            match MetadataMessage::from_bytes(pl) {
                Err(_) => FrameAction::Violation,
                Ok(msg) => {
                    let size_ok: bool = match msg.total_size {
                        Some(ts) => ts == size,
                        None => false,
                    };
                    if !size_ok {
                        return FrameAction::Violation;
                    }
                    let np: usize = (size + 16383) / 16384;
                    if msg.piece >= np {
                        return FrameAction::Violation;
                    }
                    proof {
                        crate::metainfo::lemma_piece_bounds(size as nat, msg.piece as nat);
                    }
                    let start: usize = msg.piece * 16384;
                    let cl: usize = if start + 16384 <= size {
                        16384
                    } else {
                        size - start
                    };
                    if pl.len() < cl {
                        return FrameAction::Violation;
                    }
                    if meta.got_metadata_message(pl) {
                        FrameAction::Finished
                    } else {
                        let ghost c = meta.counts();
                        match meta.which_piece() {
                            Some(piece) => {
                                proof {
                                    assert(is_first_min(c, piece as int));
                                }
                                match self.remote_extension_id {
                                    Some(eid) => {
                                        let m = MetadataMessage {
                                            msg_type: 0,
                                            piece,
                                            total_size: None,
                                        };
                                        FrameAction::Send(m.to_bytes(eid))
                                    },
                                    None => FrameAction::Violation,
                                }
                            },
                            None => FrameAction::Stop,
                        }
                    }
                },
            }
        } else {
            FrameAction::Ignore
        }
    }
}

} // verus!
