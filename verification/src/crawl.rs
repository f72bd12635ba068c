//! Per-crawl bookkeeping: the contacted-node set that suppresses
//! duplicate queries, the session set keyed by peer address, the hex
//! form of resource identifiers, and the records the storage
//! collaborator consumes.

use vstd::prelude::*;

verus! {

/// Progress of a long-running operation: status snapshots, then a
/// terminal result.
#[derive(Debug)]
pub enum Progress<T> {
    Progress { status: String },
    Complete { result: T, status: String },
}

/// A known node as the storage collaborator records it.
#[derive(Debug)]
pub struct Node {
    pub rowid: Option<i64>,
    pub host: Option<String>,
    pub id: Option<[u8; 20]>,
    pub last_response_ms: Option<i64>,
}

/// A harvested resource identifier and its document summary as the
/// storage collaborator records them.
#[derive(Debug)]
pub struct Infohash {
    pub rowid: Option<i64>,
    pub infohash: Option<[u8; 20]>,
    pub attempts: Option<i64>,
    pub name: Option<String>,
    pub length: Option<i64>,
    pub files: Option<String>,
}

// ---------------------------------------------------------------------------
// Hex identifiers
// ---------------------------------------------------------------------------

/// An ASCII hexadecimal digit, either case.
pub open spec fn is_hex(c: u8) -> bool {
    (48 <= c && c <= 57) || (97 <= c && c <= 102) || (65 <= c && c <= 70)
}

/// The value of a hexadecimal digit.
pub open spec fn hex_nibble(c: u8) -> nat {
    if 48 <= c && c <= 57 {
        (c - 48) as nat
    } else if 97 <= c && c <= 102 {
        (c - 87) as nat
    } else if 65 <= c && c <= 70 {
        (c - 55) as nat
    } else {
        0
    }
}

/// One hexadecimal digit's value.
fn nibble(c: u8) -> (r: Option<u8>)
    ensures
        match r {
            Some(v) => is_hex(c) && v as nat == hex_nibble(c),
            None => !is_hex(c),
        },
{
    if 48 <= c && c <= 57 {
        Some(c - 48)
    } else if 97 <= c && c <= 102 {
        Some(c - 87)
    } else if 65 <= c && c <= 70 {
        Some(c - 55)
    } else {
        None
    }
}

/// Reads a resource identifier from its forty hexadecimal digits.
pub fn infohash_from_hex(s: &[u8]) -> (r: Option<[u8; 20]>)
    ensures
        match r {
            Some(h) => {
                &&& s@.len() == 40
                &&& forall|i: int| 0 <= i < 40 ==> is_hex(#[trigger] s@[i])
                &&& forall|i: int|
                    0 <= i < 20 ==> (#[trigger] h@[i]) as nat == 16 * hex_nibble(s@[2 * i])
                        + hex_nibble(s@[2 * i + 1])
            },
            None => s@.len() != 40 || exists|i: int| 0 <= i < 40 && !is_hex(#[trigger] s@[i]),
        },
{
    if s.len() != 40 {
        return None;
    }
    let mut h: [u8; 20] = [0u8; 20];
    let mut i: usize = 0;
    while i < 20
        invariant
            i <= 20,
            s@.len() == 40,
            forall|j: int| 0 <= j < 2 * i ==> is_hex(#[trigger] s@[j]),
            forall|j: int|
                0 <= j < i ==> (#[trigger] h@[j]) as nat == 16 * hex_nibble(s@[2 * j])
                    + hex_nibble(s@[2 * j + 1]),
        decreases 20 - i,
    {
        let hi: u8 = match nibble(s[2 * i]) {
            Some(v) => v,
            None => {
                proof {
                    assert(!is_hex(s@[2 * (i as int)]));
                }
                return None;
            },
        };
        let lo: u8 = match nibble(s[2 * i + 1]) {
            Some(v) => v,
            None => {
                proof {
                    assert(!is_hex(s@[2 * (i as int) + 1]));
                }
                return None;
            },
        };
        h[i] = 16 * hi + lo;
        i = i + 1;
    }
    Some(h)
}

/// Whether a response's transaction id names this crawl's target.  The
/// fan-out channel is shared by all concurrent crawls, so each crawl
/// keeps only the responses whose id repeats its own content hash.
pub fn matches_target(t: &Vec<u8>, hash: &[u8; 20]) -> (b: bool)
    ensures
        b <==> t@ == hash@,
{
    if t.len() != 20 {
        proof {
            assert(t@.len() != hash@.len());
        }
        return false;
    }
    let mut i: usize = 0;
    while i < 20
        invariant
            i <= 20,
            t@.len() == 20,
            forall|j: int| 0 <= j < i ==> t@[j] == hash@[j],
        decreases 20 - i,
    {
        if t[i] != hash[i] {
            proof {
                assert(t@[i as int] != hash@[i as int]);
            }
            return false;
        }
        i = i + 1;
    }
    proof {
        assert(t@ =~= hash@);
    }
    true
}

// ---------------------------------------------------------------------------
// Crawl bookkeeping
// ---------------------------------------------------------------------------

/// Whether the key stands in the vector.
fn contains_key(v: &Vec<u64>, key: u64) -> (b: bool)
    ensures
        b <==> v@.contains(key),
{
    let n: usize = v.len();
    let mut i: usize = 0;
    while i < n
        invariant
            i <= n,
            n == v@.len(),
            forall|j: int| 0 <= j < i ==> v@[j] != key,
        decreases n - i,
    {
        if v[i] == key {
            return true;
        }
        i = i + 1;
    }
    proof {
        assert(forall|j: int| 0 <= j < v@.len() ==> v@[j] != key);
    }
    false
}

/// One crawl's frontier bookkeeping: which node addresses have been
/// queried already, and which peer addresses have a session.
pub struct CrawlState {
    pub contacted: Vec<u64>,
    pub sessions: Vec<u64>,
}

impl CrawlState {
    /// Each address stands at most once in each set.
    pub open spec fn wf(&self) -> bool {
        &&& self.contacted@.no_duplicates()
        &&& self.sessions@.no_duplicates()
    }

    /// A crawl that has contacted nobody and runs no sessions.
    pub fn new() -> (r: Self)
        ensures
            r.wf(),
            r.contacted@ == Seq::<u64>::empty(),
            r.sessions@ == Seq::<u64>::empty(),
    {
        Self { contacted: Vec::new(), sessions: Vec::new() }
    }

    /// Records that the address has been sent a query.  Yields whether
    /// it was fresh; a repeated address changes nothing, so each node is
    /// queried once per crawl.
    pub fn note_contacted(&mut self, key: u64) -> (fresh: bool)
        requires
            old(self).wf(),
        ensures
            final(self).wf(),
            fresh <==> !old(self).contacted@.contains(key),
            final(self).contacted@ == if fresh {
                old(self).contacted@.push(key)
            } else {
                old(self).contacted@
            },
            final(self).sessions@ == old(self).sessions@,
            final(self).contacted@.contains(key),
    {
        if contains_key(&self.contacted, key) {
            false
        } else {
            self.contacted.push(key);
            proof {
                assert(self.contacted@[self.contacted@.len() - 1] == key);
            }
            true
        }
    }

    /// Records that the peer address has a session.  Yields whether it
    /// was fresh; a repeated address changes nothing, so each peer gets
    /// one session per crawl.
    pub fn note_session(&mut self, key: u64) -> (fresh: bool)
        requires
            old(self).wf(),
        ensures
            final(self).wf(),
            fresh <==> !old(self).sessions@.contains(key),
            final(self).sessions@ == if fresh {
                old(self).sessions@.push(key)
            } else {
                old(self).sessions@
            },
            final(self).contacted@ == old(self).contacted@,
            final(self).sessions@.contains(key),
    {
        if contains_key(&self.sessions, key) {
            false
        } else {
            self.sessions.push(key);
            proof {
                assert(self.sessions@[self.sessions@.len() - 1] == key);
            }
            true
        }
    }
}

} // verus!
