//! Verified core of Wispers Connect: the HTTP proxy's request handling,
//! the node-state stores, the QUIC pre-shared-key logic and the
//! peer-to-peer connection wrappers.

pub mod flow;
pub mod foreign;
pub mod http_parse;
pub mod listing;
pub mod p2p;
pub mod proxy;
pub mod quic;
pub mod storage;
pub mod text;
