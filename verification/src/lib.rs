//! Verified core of a peer-to-peer metadata harvester.
//!
//! The crate covers the wire codec for the discovery protocol (bencoded
//! envelopes, compact node and peer records, the peer handshake and the
//! metadata-extension framing), the IP-bound identity generator, the
//! per-crawl bookkeeping, the peer-session frame handler and the metadata
//! assembler.  Network I/O, persistence and task plumbing live outside the
//! library and talk to it through plain values.

pub mod basic_query;
pub mod bencode;
pub mod bt_structs;
pub mod dht_id;
pub mod crawl;
pub mod dht_structs;
pub mod metainfo;

pub mod session;
pub mod text;
