//! A minimal query form carrying no transaction id or version tag, kept
//! for callers that only need a bare liveness probe.

use vstd::prelude::*;
use crate::bencode::{benc_str, push_bstr, push_bytes};
use crate::dht_structs::{args_id_only, KEY_A, KEY_Q, KEY_Y, QNAME_PING, QUERY_MARK};

verus! {

/// The bare query envelope: a dictionary whose keys stand in sorted
/// order `a`, `q`, `y`, where `y` is always `q`.
pub open spec fn bare_query_env(qname: Seq<u8>, args: Seq<u8>) -> Seq<u8> {
    seq![100u8] + KEY_A@ + args + KEY_Q@ + benc_str(qname) + KEY_Y@ + benc_str(QUERY_MARK@)
        + seq![101u8]
}

/// A liveness probe carrying only the sender identity.
pub struct PingQuery {
    pub id: [u8; 20],
}

impl PingQuery {
    pub fn into_bytes(self) -> (out: Vec<u8>)
        ensures
            out@ == bare_query_env(QNAME_PING@, args_id_only(self.id@)),
    {
        let mut args: Vec<u8> = Vec::new();
        args.push(100);
        push_bytes(&mut args, crate::dht_structs::KEY_ID_TAG.as_slice());
        push_bstr(&mut args, self.id.as_slice());
        args.push(101);
        let mut out: Vec<u8> = Vec::new();
        out.push(100);
        push_bytes(&mut out, KEY_A.as_slice());
        push_bytes(&mut out, args.as_slice());
        push_bytes(&mut out, KEY_Q.as_slice());
        push_bstr(&mut out, QNAME_PING.as_slice());
        push_bytes(&mut out, KEY_Y.as_slice());
        push_bstr(&mut out, QUERY_MARK.as_slice());
        out.push(101);
        proof {
            assert(args@ =~= args_id_only(self.id@));
            assert(out@ =~= bare_query_env(QNAME_PING@, args_id_only(self.id@)));
        }
        out
    }
}

} // verus!
