//! The dispatch loop of one feed, as a state machine: the driver hands it what
//! the channel, the decoder and the sink produced, and it says what to do next.
use vstd::prelude::*;
use crate::message::{label_of, AssetClass, MsgError};
use crate::publish::{envelope_text, Envelope, WsResponse};

verus! {

/// One unit received from a feed channel.
#[derive(Clone, Debug, PartialEq, Eq)]
pub enum Frame {
    Text(String),
    Binary(Vec<u8>),
    Ping(Vec<u8>),
    Pong(Vec<u8>),
    Close,
    Raw(Vec<u8>),
}

/// What one read of the channel yields.
#[derive(Clone, Debug, PartialEq, Eq)]
pub enum Received {
    Frame(Frame),
    /// The transport itself failed, with its detail.
    ReadFailed(String),
    /// The channel ended without a close frame.
    Exhausted,
}

#[derive(Clone, Copy, Debug, PartialEq, Eq, Structural)]
pub enum Phase {
    Handshaking,
    Streaming,
    Closed,
    Failed,
}

/// What the driver does after a read.
#[derive(Debug, PartialEq, Eq)]
pub enum Step {
    /// Hand the frame to the decoder.
    Decode,
    /// Nothing to forward; read the next one.
    Skip,
    /// The loop is over, with this outcome.
    Finish(Result<(), MsgError>),
}

pub open spec fn is_data(f: Frame) -> bool {
    f is Text || f is Binary
}

/// The detail of the read error that ends a loop whose transport failed.
pub open spec fn read_error_detail(ac: AssetClass, d: Seq<char>) -> Seq<char> {
    label_of(ac) + " WebSocket error: "@ + d
}

/// The dispatch loop of one asset class.
pub struct Dispatcher {
    pub asset_class: AssetClass,
    pub phase: Phase,
}

impl Dispatcher {
    /// A loop that has yet to send its handshake.
    pub fn new(asset_class: AssetClass) -> (r: Dispatcher)
        ensures
            r.asset_class == asset_class,
            r.phase == Phase::Handshaking,
    {
        Dispatcher { asset_class, phase: Phase::Handshaking }
    }

    /// Takes the result of sending the handshake: on success the loop streams,
    /// on failure it has failed with that error and reads no frame.
    pub fn on_handshake(&mut self, sent: Result<(), MsgError>) -> (r: Option<MsgError>)
        requires
            old(self).phase == Phase::Handshaking,
        ensures
            final(self).asset_class == old(self).asset_class,
            match sent {
                Ok(()) => final(self).phase == Phase::Streaming && r is None,
                Err(e) => final(self).phase == Phase::Failed && r == Some(e),
            },
    {
        match sent {
            Ok(()) => {
                self.phase = Phase::Streaming;
                None
            },
            Err(e) => {
                self.phase = Phase::Failed;
                Some(e)
            },
        }
    }

    /// Classifies what the channel yielded. Text and binary frames go to the
    /// decoder; ping, pong and raw frames are passed over; a close frame or the
    /// end of the channel closes the loop with success; a transport failure
    /// fails it with a read error that names the asset class.
    pub fn on_received(&mut self, rec: &Received) -> (s: Step)
        requires
            old(self).phase == Phase::Streaming,
        ensures
            final(self).asset_class == old(self).asset_class,
            match *rec {
                Received::Frame(f) => if is_data(f) {
                    s == Step::Decode && final(self).phase == Phase::Streaming
                } else if f is Close {
                    s == Step::Finish(Ok(())) && final(self).phase == Phase::Closed
                } else {
                    s == Step::Skip && final(self).phase == Phase::Streaming
                },
                Received::Exhausted => s == Step::Finish(Ok(())) && final(self).phase
                    == Phase::Closed,
                Received::ReadFailed(d) => final(self).phase == Phase::Failed && match s {
                    Step::Finish(Err(MsgError::ReadError(m))) => m@ == read_error_detail(
                        old(self).asset_class,
                        d@,
                    ),
                    _ => false,
                },
            },
    {
        match rec {
            Received::Frame(Frame::Text(_)) | Received::Frame(Frame::Binary(_)) => Step::Decode,
            Received::Frame(Frame::Close) | Received::Exhausted => {
                self.phase = Phase::Closed;
                Step::Finish(Ok(()))
            },
            Received::Frame(_) => Step::Skip,
            Received::ReadFailed(d) => {
                self.phase = Phase::Failed;
                let detail = self.asset_class.label().concat(" WebSocket error: ").concat(
                    d.as_str(),
                );
                Step::Finish(Err(MsgError::ReadError(detail)))
            },
        }
    }

    /// Takes what the decoder made of a frame: a decoded message becomes the
    /// envelope to publish, a decode failure is dropped. Neither ends the loop.
    pub fn on_decoded(&self, decoded: &Result<WsResponse, MsgError>) -> (r: Option<Envelope>)
        requires
            self.phase == Phase::Streaming,
        ensures
            match *decoded {
                Ok(resp) => r is Some && r->Some_0.content_type@ == "application/json"@
                    && r->Some_0.body@ == envelope_text(resp),
                Err(_) => r is None,
            },
    {
        match decoded {
            Ok(resp) => Some(Envelope::for_response(resp)),
            Err(_) => None,
        }
    }
}

} // verus!
