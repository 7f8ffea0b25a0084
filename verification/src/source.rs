//! The snapshot source: a forward-only cursor over the raw records of a
//! persisted time series, decoupling decoding from where the records
//! come from.

use vstd::prelude::*;

verus! {

/// A medium-level failure reading the next record. Fatal to the source:
/// playback treats it like exhaustion rather than retrying.
#[derive(Clone, Copy, PartialEq, Eq, Structural, Debug)]
pub struct IoError;

/// A provider of an ordered, finite sequence of raw records, one per
/// logical time step. Any such provider qualifies: an in-memory buffer,
/// a file, a generator.
///
/// `records()` models the records the source has yet to deliver and
/// `done()` whether it has reported end-of-stream or a fault. The
/// contract makes exhaustion idempotent: once the source has reported
/// end-of-stream, every later pull reports it again and changes nothing.
pub trait SnapshotSource: Sized {
    /// The raw records this source has yet to deliver, in order.
    spec fn records(&self) -> Seq<Seq<u8>>;

    /// Whether the source has reported end-of-stream or a fault.
    spec fn done(&self) -> bool;

    /// Pulls the next raw record: `Ok(Some(..))` delivers the first
    /// remaining record, `Ok(None)` reports end-of-stream exactly when
    /// none remain, and `Err(..)` reports an I/O fault, after which the
    /// source is finished for good.
    fn next_record(&mut self) -> (r: Result<Option<Vec<u8>>, IoError>)
        ensures
            old(self).done() ==> r == Ok::<Option<Vec<u8>>, IoError>(None) && *final (self)
                == *old(self),
            !old(self).done() ==> match r {
                Ok(Some(rec)) => {
                    &&& old(self).records().len() > 0
                    &&& rec@ == old(self).records()[0]
                    &&& final (self).records() == old(self).records().skip(1)
                    &&& !final (self).done()
                },
                Ok(None) => {
                    &&& old(self).records().len() == 0
                    &&& final (self).done()
                    &&& final (self).records() == old(self).records()
                },
                Err(_) => final (self).done(),
            },
    ;
}

/// A snapshot source over an in-memory buffer of records.
pub struct MemorySource {
    /// The remaining records, held in reverse order so that the next
    /// record to deliver is the last element.
    pending: Vec<Vec<u8>>,
    /// Whether end-of-stream has been reported.
    finished: bool,
}

impl MemorySource {
    /// Builds a source that delivers `records` in order, then reports
    /// end-of-stream.
    pub fn from_records(records: Vec<Vec<u8>>) -> (s: MemorySource)
        ensures
            s.records() == records@.map_values(|r: Vec<u8>| r@),
            !s.done(),
    {
        let ghost all = records@;
        let mut rest = records;
        let mut pending: Vec<Vec<u8>> = Vec::new();
        while rest.len() > 0
            invariant
                rest@.len() + pending@.len() == all.len(),
                rest@ == all.take(rest@.len() as int),
                forall|i: int|
                    0 <= i < pending@.len() ==> pending@[i] == all[all.len() - 1 - i],
            decreases rest@.len(),
        {
            let ghost rest0 = rest@;
            let rec = match rest.pop() {
                Some(r) => r,
                None => vstd::pervasive::unreached(),
            };
            proof {
                assert(rest0[rest0.len() - 1] == all[rest0.len() - 1]);
                assert(rest@ =~= all.take(rest@.len() as int));
            }
            pending.push(rec);
        }
        let s = MemorySource { pending, finished: false };
        proof {
            assert(s.records() =~= all.map_values(|r: Vec<u8>| r@));
        }
        s
    }
}

impl SnapshotSource for MemorySource {
    closed spec fn records(&self) -> Seq<Seq<u8>> {
        self.pending@.map_values(|r: Vec<u8>| r@).reverse()
    }

    closed spec fn done(&self) -> bool {
        self.finished
    }

    /// An in-memory buffer cannot become unreadable, so on top of the
    /// trait's contract this pull never reports an I/O fault: while
    /// records remain it is forced to deliver the first of them.
    fn next_record(&mut self) -> (r: Result<Option<Vec<u8>>, IoError>)
        ensures
            r is Ok,
    {
        if self.finished {
            return Ok(None);
        }
        let ghost pending0 = self.pending@;
        match self.pending.pop() {
            Some(rec) => {
                proof {
                    assert(self.records() =~= old(self).records().skip(1));
                }
                Ok(Some(rec))
            },
            None => {
                self.finished = true;
                proof {
                    assert(self.records() =~= old(self).records());
                }
                Ok(None)
            },
        }
    }
}

/// A snapshot source whose medium is unreadable: the first pull reports
/// an I/O fault, and every later pull reports end-of-stream.
pub struct FailingSource {
    /// Whether the fault has been reported.
    finished: bool,
}

impl FailingSource {
    /// Builds a source that fails on the first pull.
    pub fn new() -> (s: FailingSource)
        ensures
            !s.done(),
            s.records() == Seq::<Seq<u8>>::empty(),
    {
        FailingSource { finished: false }
    }
}

impl SnapshotSource for FailingSource {
    closed spec fn records(&self) -> Seq<Seq<u8>> {
        Seq::empty()
    }

    closed spec fn done(&self) -> bool {
        self.finished
    }

    /// On top of the trait's contract, the first pull is forced to
    /// report the fault: it never passes for clean end-of-stream.
    fn next_record(&mut self) -> (r: Result<Option<Vec<u8>>, IoError>)
        ensures
            !old(self).done() ==> r is Err,
    {
        if self.finished {
            Ok(None)
        } else {
            self.finished = true;
            Err(IoError)
        }
    }
}

} // verus!
