//! The verified core of a RAOP (AirPlay v1 audio) streaming client: NTP-64
//! clock arithmetic, RTP wire codecs, the RTSP request encoder and response
//! parser with its session state, the retransmission backlog, the sync and
//! timing responder logic, and the pair-verify handshake assembly. Socket
//! I/O, timers and task plumbing live outside this crate.

pub mod ntp;
pub mod pairing;
pub mod rtp;
pub mod rtsp;
pub mod status;
pub mod sync;
pub mod units;
pub mod wire;
