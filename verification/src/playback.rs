//! The playback controller: the state machine driving one decode per
//! render tick.
//!
//! Two states: Running and Exhausted (terminal). Each tick, `advance`
//! pulls one raw record from the snapshot source and decodes it. A
//! malformed record is skipped (the current frame is kept and playback
//! goes on: more records may follow), while end-of-stream and I/O faults
//! both end playback for good (no record will ever follow), freezing the
//! visualization on the last good frame. `advance` itself never fails:
//! it signals the terminal state through the state machine and hands any
//! fault back for an external logging collaborator.

use vstd::prelude::*;

use crate::body::{BodyState, Frame};
use crate::decode::{DecodeError, decode, spec_decode};
use crate::source::{IoError, SnapshotSource};

verus! {

/// A fault met while advancing, handed back so the caller can report it
/// to its logging collaborator. Neither fault stops `advance` from being
/// called again.
#[derive(Clone, Copy, PartialEq, Eq, Structural, Debug)]
pub enum Fault {
    /// The next record could not be decoded; it was skipped.
    Decode(DecodeError),
    /// The source could not be read; playback is over.
    Io(IoError),
}

/// The per-session playback state: the owned snapshot source, the most
/// recently decoded frame, and whether playback has ended.
pub struct PlaybackController<S: SnapshotSource> {
    source: S,
    frame: Frame,
    exhausted: bool,
}

impl<S: SnapshotSource> PlaybackController<S> {
    /// The most recently successfully decoded frame (or the seed).
    pub closed spec fn frame(&self) -> Seq<BodyState> {
        self.frame@
    }

    /// Whether playback has ended (end-of-stream or I/O fault seen).
    pub closed spec fn is_exhausted(&self) -> bool {
        self.exhausted
    }

    /// The records the owned source has yet to deliver.
    pub closed spec fn source_records(&self) -> Seq<Seq<u8>> {
        self.source.records()
    }

    /// Whether the owned source has reported end-of-stream or a fault.
    pub closed spec fn source_done(&self) -> bool {
        self.source.done()
    }

    /// Creates a controller in the Running state, owning `source` and
    /// showing the caller-supplied seed frame until real data arrives.
    pub fn new(source: S, seed: Frame) -> (c: Self)
        ensures
            c.frame() == seed@,
            !c.is_exhausted(),
            c.source_records() == source.records(),
            c.source_done() == source.done(),
    {
        PlaybackController { source, frame: seed, exhausted: false }
    }

    /// The frame the renderer should draw this tick.
    pub fn current_frame(&self) -> (f: &Frame)
        ensures
            f@ == self.frame(),
    {
        &self.frame
    }

    /// Whether playback has ended.
    pub fn exhausted(&self) -> (b: bool)
        ensures
            b == self.is_exhausted(),
    {
        self.exhausted
    }

    /// Advances playback by one tick.
    ///
    /// Once Exhausted, this is a no-op: the controller is left exactly
    /// as it was, so the current frame stays fixed forever. Otherwise
    /// one record is pulled: a decoded frame replaces the current one; a
    /// malformed record leaves the frame unchanged and playback Running,
    /// handing back the decode fault; end-of-stream and I/O faults leave
    /// the frame unchanged and end playback. `advance` never fails and
    /// never panics; the returned fault is only for logging.
    pub fn advance(&mut self) -> (fault: Option<Fault>)
        ensures
            old(self).is_exhausted() ==> *final (self) == *old(self) && fault is None,
            !old(self).is_exhausted() ==> match fault {
                None => {
                    if final (self).is_exhausted() {
                        // clean end-of-stream: freeze on the current frame
                        &&& final (self).frame() == old(self).frame()
                        &&& old(self).source_done() || old(self).source_records().len() == 0
                        &&& final (self).source_done()
                    } else {
                        // the next record decoded successfully
                        &&& old(self).source_records().len() > 0
                        &&& spec_decode(old(self).source_records()[0]) == Ok::<
                            Seq<BodyState>,
                            DecodeError,
                        >(final (self).frame())
                        &&& final (self).source_records() == old(self).source_records().skip(1)
                        &&& !final (self).source_done()
                    }
                },
                Some(Fault::Decode(e)) => {
                    // the next record was malformed: skip it and go on
                    &&& !final (self).is_exhausted()
                    &&& final (self).frame() == old(self).frame()
                    &&& old(self).source_records().len() > 0
                    &&& spec_decode(old(self).source_records()[0]) == Err::<
                        Seq<BodyState>,
                        DecodeError,
                    >(e)
                    &&& final (self).source_records() == old(self).source_records().skip(1)
                    &&& !final (self).source_done()
                },
                Some(Fault::Io(_)) => {
                    // fail closed: treat like end-of-stream
                    &&& final (self).is_exhausted()
                    &&& final (self).frame() == old(self).frame()
                    &&& final (self).source_done()
                },
            },
    {
        if self.exhausted {
            return None;
        }
        match self.source.next_record() {
            Ok(Some(rec)) => match decode(rec.as_slice()) {
                Ok(frame) => {
                    self.frame = frame;
                    None
                },
                Err(e) => Some(Fault::Decode(e)),
            },
            Ok(None) => {
                self.exhausted = true;
                None
            },
            Err(e) => {
                self.exhausted = true;
                Some(Fault::Io(e))
            },
        }
    }
}

} // verus!
