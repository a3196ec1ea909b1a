//! Paced, chunked frame streaming: a verified core for sending captured
//! image frames over a reliable stream or an unreliable datagram transport.
//!
//! The library holds the pure logic: pixel-layout conversion, splitting a
//! frame payload into fixed-size chunks, the little-endian wire headers for
//! both transport profiles, the pacing policy that decides which candidate
//! frames to accept, and the per-session state machine that governs how a
//! send failure is handled (fatal for the stream profile, per-frame for the
//! datagram profile). All I/O stays with the caller.

use vstd::prelude::*;

pub mod chunk;
pub mod frame;
pub mod pacer;
pub mod pixel;
pub mod reassemble;
pub mod session;
pub mod wire;

pub use chunk::concat_chunks;
pub use chunk::encode_chunks;
pub use chunk::num_chunks_of;
pub use frame::Frame;
pub use frame::PixelFormat;
pub use pacer::Pacer;
pub use pacer::remaining_delay;
pub use pixel::bgra_to_rgba;
pub use reassemble::Packet;
pub use reassemble::reassemble;
pub use session::Profile;
pub use session::Session;
pub use session::SessionStatus;
pub use wire::datagram_header;
pub use wire::datagram_packet_bytes;
pub use wire::encode_datagram_frame;
pub use wire::encode_stream_frame;
pub use wire::stream_chunk_message;
pub use wire::stream_header;

verus! {

/// The error taxonomy of the library.
///
/// `PlatformUnsupported`, `PermissionDenied` and `ConnectionSetupFailed` are
/// fatal at startup; `FrameUnavailableTransient` and `UnexpectedFrameFormat`
/// are recovered per tick; `SendFailed` ends the session on the stream
/// profile and only the current frame on the datagram profile;
/// `InvalidBufferLength` rejects a pixel buffer whose length is not a
/// multiple of four.
#[derive(Clone, Copy, Debug, PartialEq, Eq, Structural)]
pub enum StreamError {
    PlatformUnsupported,
    PermissionDenied,
    ConnectionSetupFailed,
    FrameUnavailableTransient,
    UnexpectedFrameFormat,
    SendFailed,
    InvalidBufferLength,
}

} // verus!
