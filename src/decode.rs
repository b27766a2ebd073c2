use vstd::prelude::*;
use crate::error::AppError;

verus! {

/// What the packet loop observed last.
#[derive(Debug)]
pub enum PacketEvent {
    /// A packet of the given track was read.
    Packet { track_id: u32 },
    /// The stream ended (the reader reported an unexpected end of input).
    EndOfStream,
    /// Reading failed for any other reason.
    ReadFailed { cause: String },
    /// The last packet handed to the decoder was decoded.
    Decoded,
    /// The decoder rejected the last packet.
    DecodeFailed { cause: String },
}

/// What the packet loop is to do next.
#[derive(Debug)]
pub enum DecodeAction {
    /// Hand the packet to the decoder.
    Decode,
    /// Drop the packet, which belongs to another track, and read the next.
    Skip,
    /// Build the sample converter from this first decoded buffer's shape,
    /// then append its samples.
    CreateConverterAndAppend,
    /// Append the decoded samples through the existing converter.
    Append,
    /// Report the corrupt packet and go on with the next one.
    ReportAndSkip { cause: String },
    /// All packets are in: go on to downmixing and resampling.
    Finish,
    /// Stop with this error.
    Fail(AppError),
}

/// The decisions of one decode call, over the track it selected.
#[derive(Debug)]
pub struct DecodeSession {
    pub track_id: u32,
    /// The sample converter has been built.
    pub converter_ready: bool,
}

impl DecodeSession {
    pub fn new(track_id: u32) -> (r: DecodeSession)
        ensures
            r.track_id == track_id,
            !r.converter_ready,
    {
        DecodeSession { track_id, converter_ready: false }
    }

    /// Decides what follows `event`: packets of other tracks are skipped, the
    /// end of the stream finishes, any other read failure is fatal, a corrupt
    /// packet is reported and skipped, and the converter is built once, on
    /// the first decoded buffer.
    pub fn step(&mut self, event: PacketEvent) -> (a: DecodeAction)
        ensures
            final(self).track_id == old(self).track_id,
            final(self).converter_ready == (old(self).converter_ready || event is Decoded),
            a == match event {
                PacketEvent::Packet { track_id } => if track_id == old(self).track_id {
                    DecodeAction::Decode
                } else {
                    DecodeAction::Skip
                },
                PacketEvent::EndOfStream => DecodeAction::Finish,
                PacketEvent::ReadFailed { cause } => DecodeAction::Fail(AppError::DecodeError(cause)),
                PacketEvent::Decoded => if old(self).converter_ready {
                    DecodeAction::Append
                } else {
                    DecodeAction::CreateConverterAndAppend
                },
                PacketEvent::DecodeFailed { cause } => DecodeAction::ReportAndSkip { cause },
            },
    {
        match event {
            PacketEvent::Packet { track_id } => {
                if track_id == self.track_id {
                    DecodeAction::Decode
                } else {
                    DecodeAction::Skip
                }
            },
            PacketEvent::EndOfStream => DecodeAction::Finish,
            PacketEvent::ReadFailed { cause } => DecodeAction::Fail(AppError::DecodeError(cause)),
            PacketEvent::Decoded => {
                if self.converter_ready {
                    DecodeAction::Append
                } else {
                    self.converter_ready = true;
                    DecodeAction::CreateConverterAndAppend
                }
            },
            PacketEvent::DecodeFailed { cause } => DecodeAction::ReportAndSkip { cause },
        }
    }
}

} // verus!
