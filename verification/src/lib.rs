//! RTP media session engine: G.711 mu-law transcoding, RTP framing,
//! port allocation against a session registry, and the per-session
//! ingress and egress (announcement) pipelines.

pub mod codec;
pub mod egress;
mod entropy;
pub mod ingress;
pub mod rtp;
pub mod session;
