//! One captured frame: its dimensions, pixel layout, and raw payload.
//!
//! The capture collaborator hands over a tagged pixel buffer; only the
//! packed four-byte BGRA layout is handled, by converting it to RGBA. Any
//! other layout is a recoverable per-tick error, never a crash.

use vstd::prelude::*;

use crate::StreamError;
use crate::pixel::{bgra_to_rgba, swapped};

verus! {

/// The pixel layouts a capture backend may deliver.
#[derive(Clone, Copy, Debug, PartialEq, Eq, Structural)]
pub enum PixelFormat {
    Bgra,
    Bgrx,
    Bgr,
    Rgb,
    Rgbx,
    Xbgr,
    Yuv,
}

/// One captured image buffer plus its dimensions.
pub struct Frame {
    pub width: u32,
    pub height: u32,
    pub pixel_format: PixelFormat,
    pub payload: Vec<u8>,
}

impl Frame {
    /// The payload holds exactly four bytes per pixel.
    pub open spec fn wf(self) -> bool {
        self.payload@.len() == self.width * self.height * 4
    }

    /// Builds a frame, rejecting a payload whose length does not match the
    /// dimensions at four bytes per pixel.
    pub fn new(width: u32, height: u32, pixel_format: PixelFormat, payload: Vec<u8>) -> (r: Result<
        Frame,
        StreamError,
    >)
        ensures
            r is Ok <==> payload@.len() == width * height * 4,
            r matches Ok(f) ==> {
                &&& f.wf()
                &&& f.width == width
                &&& f.height == height
                &&& f.pixel_format == pixel_format
                &&& f.payload@ == payload@
            },
            r matches Err(e) ==> e == StreamError::InvalidBufferLength,
    {
        proof {
            assert(width as int * height as int * 4 < u128::MAX) by (nonlinear_arith)
                requires
                    width <= u32::MAX,
                    height <= u32::MAX,
            ;
        }
        let expected: u128 = width as u128 * height as u128 * 4;
        if payload.len() as u128 != expected {
            return Err(StreamError::InvalidBufferLength);
        }
        Ok(Frame { width, height, pixel_format, payload })
    }

    /// Prepares the frame's payload for the wire: a BGRA frame is
    /// converted to RGBA; every other layout is refused as an unexpected
    /// format, to be skipped for this tick.
    pub fn prepare_payload(&self) -> (r: Result<Vec<u8>, StreamError>)
        requires
            self.wf(),
        ensures
            r is Ok <==> self.pixel_format == PixelFormat::Bgra,
            r matches Ok(out) ==> out@ == swapped(self.payload@),
            r matches Err(e) ==> e == StreamError::UnexpectedFrameFormat,
    {
        match self.pixel_format {
            PixelFormat::Bgra => {
                proof {
                    assert(self.payload@.len() % 4 == 0) by (nonlinear_arith)
                        requires
                            self.payload@.len() == self.width * self.height * 4,
                    ;
                }
                match bgra_to_rgba(self.payload.as_slice()) {
                    Ok(out) => Ok(out),
                    Err(_) => Err(StreamError::UnexpectedFrameFormat),
                }
            },
            PixelFormat::Bgrx => Err(StreamError::UnexpectedFrameFormat),
            PixelFormat::Bgr => Err(StreamError::UnexpectedFrameFormat),
            PixelFormat::Rgb => Err(StreamError::UnexpectedFrameFormat),
            PixelFormat::Rgbx => Err(StreamError::UnexpectedFrameFormat),
            PixelFormat::Xbgr => Err(StreamError::UnexpectedFrameFormat),
            PixelFormat::Yuv => Err(StreamError::UnexpectedFrameFormat),
        }
    }
}

} // verus!
