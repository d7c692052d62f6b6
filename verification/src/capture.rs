//! One tick of the capture loop: from what the display gave to what the
//! viewers are sent.

use crate::broadcaster::{retained, Broadcaster, JPEG_QUALITY};
use crate::chunk::chunk_of;
use crate::frame::{blank, downsampled, Picture, RawFrame, RgbFrame};
use crate::jpeg::{fits_jpeg, jpeg_encoding};
use vstd::prelude::*;

verus! {

/// Milliseconds from one tick to the next: 25 frames a second.
pub const FRAME_PERIOD_MS: u64 = 40;

/// Where the chunk of a tick came from.
#[derive(Clone, Copy, Debug, PartialEq, Eq, Structural)]
pub enum ChunkSource {
    /// The frame of this tick was encoded.
    Encoded,
    /// The frame could not be encoded, and the last chunk stands in for it.
    Repeated,
    /// The frame could not be encoded and no chunk was ever made.
    Nothing,
}

/// What a tick did.
#[derive(Debug)]
pub struct TickReport {
    pub source: ChunkSource,
    /// For each viewer that the registry held, whether its channel took the
    /// chunk; empty where there was no chunk to send.
    pub accepted: Vec<bool>,
    /// How long to wait before the next tick.
    pub wait_millis: u64,
}

/// What the capture loop keeps from tick to tick: the size of the last frame
/// and the last chunk.
pub struct CaptureLoop {
    width: u32,
    height: u32,
    chunk: Option<Vec<u8>>,
}

impl CaptureLoop {
    /// The size of the last frame, which a blank frame takes over.
    pub closed spec fn size(&self) -> (u32, u32) {
        (self.width, self.height)
    }

    /// The last chunk, if a frame was ever encoded.
    pub closed spec fn last_chunk(&self) -> Option<Seq<u8>> {
        match self.chunk {
            Some(chunk) => Some(chunk@),
            None => None,
        }
    }

    /// A zero-filled frame of the kept size fits in memory.
    pub closed spec fn wf(&self) -> bool {
        self.width * self.height * 3 <= usize::MAX
    }

    /// The frame of a tick: the downsampled capture, or a zero-filled frame of
    /// the last size where the capture failed.
    pub open spec fn frame_of(&self, captured: Option<RawFrame>) -> Picture {
        match captured {
            Some(raw) => downsampled(raw@),
            None => blank(self.size().0 as nat, self.size().1 as nat),
        }
    }

    /// Whether the frame of a tick can be encoded.
    pub open spec fn encodes(&self, captured: Option<RawFrame>) -> bool {
        let frame = self.frame_of(captured);
        fits_jpeg(frame.width as u32, frame.height as u32)
    }

    /// The chunk of a tick: the frame encoded and framed, or the last chunk
    /// where the frame cannot be encoded.
    pub open spec fn chunk_of_tick(&self, captured: Option<RawFrame>) -> Option<Seq<u8>> {
        let frame = self.frame_of(captured);
        if self.encodes(captured) {
            Some(
                chunk_of(
                    jpeg_encoding(
                        frame.bytes,
                        frame.width as u32,
                        frame.height as u32,
                        JPEG_QUALITY,
                    ),
                ),
            )
        } else {
            self.last_chunk()
        }
    }

    /// Where the chunk of a tick comes from.
    pub open spec fn source_of_tick(&self, captured: Option<RawFrame>) -> ChunkSource {
        if self.encodes(captured) {
            ChunkSource::Encoded
        } else if self.last_chunk() is Some {
            ChunkSource::Repeated
        } else {
            ChunkSource::Nothing
        }
    }

    /// The state before the first tick: no frame seen, no chunk made.
    pub fn new() -> (state: CaptureLoop)
        ensures
            state.wf(),
            state.size() == (0u32, 0u32),
            state.last_chunk() is None,
    {
        CaptureLoop { width: 0, height: 0, chunk: None }
    }

    /// The chunk of the last tick.
    pub fn current(&self) -> (chunk: Option<&Vec<u8>>)
        ensures
            match chunk {
                Some(bytes) => self.last_chunk() == Some(bytes@),
                None => self.last_chunk() is None,
            },
    {
        self.chunk.as_ref()
    }

    /// Takes what the display gave at this tick, or `None` where the capture
    /// failed, and makes the chunk of the tick. A failed capture never stops
    /// the stream: a zero-filled frame of the last size stands in. Neither
    /// does a frame that cannot be encoded: the last chunk stays.
    pub fn advance(&mut self, captured: Option<RawFrame>) -> (source: ChunkSource)
        requires
            old(self).wf(),
        ensures
            final(self).wf(),
            final(self).size() == (
                old(self).frame_of(captured).width as u32,
                old(self).frame_of(captured).height as u32,
            ),
            final(self).last_chunk() == old(self).chunk_of_tick(captured),
            source == old(self).source_of_tick(captured),
    {
        let frame = match &captured {
            Some(raw) => RgbFrame::downsample(raw),
            None => RgbFrame::blank(self.width, self.height),
        };
        let data = frame.data();
        self.width = frame.width();
        self.height = frame.height();
        match Broadcaster::make_message_block(data.as_slice(), frame.width(), frame.height()) {
            Ok(chunk) => {
                self.chunk = Some(chunk);
                ChunkSource::Encoded
            },
            Err(_) => {
                if self.chunk.is_some() {
                    ChunkSource::Repeated
                } else {
                    ChunkSource::Nothing
                }
            },
        }
    }

    /// One tick: makes the chunk of the tick and offers it to every viewer of
    /// the registry. No viewer is waited for; the registry lets go of those
    /// whose channel does not take the chunk.
    pub fn tick(
        &mut self,
        captured: Option<RawFrame>,
        registry: &mut Broadcaster,
    ) -> (report: TickReport)
        requires
            old(self).wf(),
            old(registry).wf(),
        ensures
            final(self).wf(),
            final(registry).wf(),
            final(self).size() == (
                old(self).frame_of(captured).width as u32,
                old(self).frame_of(captured).height as u32,
            ),
            final(self).last_chunk() == old(self).chunk_of_tick(captured),
            report.source == old(self).source_of_tick(captured),
            report.wait_millis == FRAME_PERIOD_MS,
            final(registry).issued() == old(registry).issued(),
            report.source != ChunkSource::Nothing ==> report.accepted@.len() == old(registry)@.len()
                && final(registry)@ == retained(old(registry)@, report.accepted@),
            report.source == ChunkSource::Nothing ==> report.accepted@.len() == 0
                && final(registry)@ == old(registry)@,
    {
        let source = self.advance(captured);
        let accepted = match &self.chunk {
            Some(chunk) => registry.send_image(chunk.as_slice()),
            None => Vec::new(),
        };
        TickReport { source, accepted, wait_millis: FRAME_PERIOD_MS }
    }
}

} // verus!
