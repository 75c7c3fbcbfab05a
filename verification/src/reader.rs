//! The forward-only reader of a container and the sequence of its records.

use vstd::prelude::*;
use std::rc::Rc;
use crate::header::Header;
use crate::header::HeaderView;
use crate::outcome::ReadError;
use crate::outcome::ReadOutcome;
use crate::record::Payload;
use crate::record::PayloadView;
use crate::record::Record;
use crate::record::RecordView;

verus! {

/// What the engine answered when it was asked to open a container and to
/// read its header.
#[derive(Debug)]
pub enum Opening {
    /// The path could not be opened, or is no container.
    Refused,
    /// The container was opened, but its stream holds no valid header.
    Headerless,
    /// The container is open and this is its header.
    Ready(Header),
}

/// Why no reader was set up.
#[derive(Clone, Copy, Debug, PartialEq, Eq, Structural)]
pub enum SetupError {
    /// The container could not be opened.
    OpenError,
    /// The container has no valid header.
    HeaderError,
}

/// What the engine answered to one call for the next record: its status,
/// and the record it delivered. The payload counts only where the status
/// says that a record was read.
#[derive(Debug)]
pub struct Fetched {
    pub status: i32,
    pub payload: Payload,
}

impl Fetched {
    /// An answer that delivers a record.
    pub fn new(status: i32, payload: Payload) -> (fetched: Fetched)
        ensures
            fetched.status == status,
            fetched.payload == payload,
    {
        Fetched { status, payload }
    }

    /// An answer that delivers no record: the given status and an empty
    /// payload.
    pub fn bare(status: i32) -> (fetched: Fetched)
        ensures
            fetched.status == status,
            fetched.payload@ == PayloadView::empty(),
    {
        Fetched { status, payload: Payload::empty() }
    }
}

/// A reader of one container. It owns the header, hands a share of it to
/// every record it reads, and remembers that the stream has ended.
#[derive(Debug)]
pub struct Reader {
    header: Rc<Header>,
    finished: bool,
}

/// The mathematical content of a [`Reader`].
pub struct ReaderView {
    pub header: HeaderView,
    /// The stream has reported its end.
    pub finished: bool,
}

impl ReaderView {
    /// How a read attempt ends in this state when the engine answers with
    /// `status`. Once the stream has ended, the answer no longer counts.
    pub open spec fn outcome(self, status: i32) -> ReadOutcome {
        if self.finished {
            ReadOutcome::EndOfStream
        } else {
            ReadOutcome::spec_from_status(status)
        }
    }

    /// The state after that read attempt. The end of the stream is final;
    /// an invalid record is not.
    pub open spec fn after(self, status: i32) -> ReaderView {
        ReaderView {
            header: self.header,
            finished: self.outcome(status) == ReadOutcome::EndOfStream,
        }
    }

    /// The state after one read attempt for each of `statuses`, in order.
    pub open spec fn after_all(self, statuses: Seq<i32>) -> ReaderView
        decreases statuses.len(),
    {
        if statuses.len() == 0 {
            self
        } else {
            self.after_all(statuses.drop_last()).after(statuses.last())
        }
    }

    /// What the read attempt at `position` of a run yields, when the engine
    /// answers the attempts of the run with `statuses`.
    pub open spec fn nth_result(self, statuses: Seq<i32>, position: int) -> Result<(), ReadError> {
        self.after_all(statuses.take(position)).outcome(statuses[position]).spec_into_result()
    }
}

/// The end of the stream is final: over any run of read attempts, whatever
/// the engine answers to each, the reader that has once ended stays ended.
pub proof fn lemma_finished_stays(start: ReaderView, statuses: Seq<i32>, sooner: int, later: int)
    requires
        0 <= sooner <= later <= statuses.len(),
        start.after_all(statuses.take(sooner)).finished,
    ensures
        start.after_all(statuses.take(later)).finished,
    decreases later - sooner,
{
    if sooner < later {
        lemma_finished_stays(start, statuses, sooner, later - 1);
        assert(statuses.take(later).drop_last() =~= statuses.take(later - 1));
        assert(statuses.take(later).last() == statuses[later - 1]);
    }
}

/// End-of-stream determinism: once a read attempt of a run has reported
/// `NoMoreRecord`, every later attempt of that run reports `NoMoreRecord`
/// too, whatever the engine answers to it.
pub proof fn lemma_end_of_stream_repeats(
    start: ReaderView,
    statuses: Seq<i32>,
    ended: int,
    later: int,
)
    requires
        0 <= ended <= later < statuses.len(),
        start.nth_result(statuses, ended) == Err::<(), ReadError>(ReadError::NoMoreRecord),
    ensures
        start.nth_result(statuses, later) == Err::<(), ReadError>(ReadError::NoMoreRecord),
{
    if ended < later {
        assert(statuses.take(ended + 1).drop_last() =~= statuses.take(ended));
        assert(statuses.take(ended + 1).last() == statuses[ended]);
        assert(start.after_all(statuses.take(ended + 1)).finished);
        lemma_finished_stays(start, statuses, ended + 1, later);
    }
}

/// The header of a reader never changes: whatever the engine answers, and
/// however long the reader goes on reading, the records it binds share the
/// header that it was set up with.
pub proof fn lemma_header_is_fixed(start: ReaderView, statuses: Seq<i32>)
    ensures
        start.after_all(statuses).header == start.header,
    decreases statuses.len(),
{
    if statuses.len() > 0 {
        lemma_header_is_fixed(start, statuses.drop_last());
    }
}

/// An invalid record does not end the stream: the attempt after it is
/// answered by the engine again.
pub proof fn lemma_invalid_is_not_final(state: ReaderView, status: i32)
    requires
        state.outcome(status) == ReadOutcome::Invalid,
    ensures
        !state.after(status).finished,
        forall|next: i32| state.after(status).outcome(next) == ReadOutcome::spec_from_status(next),
{
}

impl View for Reader {
    type V = ReaderView;

    closed spec fn view(&self) -> ReaderView {
        ReaderView { header: self.header@, finished: self.finished }
    }
}

impl Reader {
    /// Sets a reader up from what the engine answered on opening. There is
    /// a reader only if the container was opened and its header was read.
    pub fn new(opening: Opening) -> (reader: Result<Reader, SetupError>)
        ensures
            match opening {
                Opening::Refused => reader matches Err(e) && e == SetupError::OpenError,
                Opening::Headerless => reader matches Err(e) && e == SetupError::HeaderError,
                Opening::Ready(header) => reader matches Ok(r) && r@ == (ReaderView {
                    header: header@,
                    finished: false,
                }),
            },
    {
        match opening {
            Opening::Refused => Err(SetupError::OpenError),
            Opening::Headerless => Err(SetupError::HeaderError),
            Opening::Ready(header) => Ok(Reader { header: Rc::new(header), finished: false }),
        }
    }

    /// The header of the container.
    pub fn header(&self) -> (header: &Header)
        ensures
            header@ == self@.header,
    {
        &*self.header
    }

    /// Whether the stream has reported its end. The engine is not to be
    /// asked for another record then.
    pub fn is_finished(&self) -> (finished: bool)
        ensures
            finished == self@.finished,
    {
        self.finished
    }

    /// Takes the engine's answer to one call for the next record.
    ///
    /// Status `0` fills `record` with the payload and binds it to the
    /// header; `-1` ends the stream for good; any other status reports an
    /// invalid record and leaves the stream open. Once the stream has ended,
    /// every further attempt reports `NoMoreRecord`, whatever the answer.
    /// Unless a record was read, `record` stays as it was.
    pub fn read(&mut self, fetched: Fetched, record: &mut Record) -> (result: Result<(), ReadError>)
        ensures
            result == old(self)@.outcome(fetched.status).spec_into_result(),
            final(self)@ == old(self)@.after(fetched.status),
            final(record)@ == if result.is_ok() {
                RecordView::bound(old(self)@.header, fetched.payload@)
            } else {
                old(record)@
            },
    {
        if self.finished {
            return Err(ReadError::NoMoreRecord);
        }
        match ReadOutcome::from_status(fetched.status) {
            ReadOutcome::Success => {
                record.bind(self.header.clone(), fetched.payload);
                Ok(())
            },
            ReadOutcome::EndOfStream => {
                self.finished = true;
                Err(ReadError::NoMoreRecord)
            },
            ReadOutcome::Invalid => Err(ReadError::Invalid),
        }
    }

    /// The records of the container from here on, as a sequence that is
    /// pulled one engine answer at a time.
    pub fn records(&mut self) -> (records: Records<'_>)
        ensures
            records@ == old(self)@,
            final(self)@ == (*final(records.reader))@,
    {
        Records { reader: self }
    }
}

/// The lazy sequence of the records of a reader.
pub struct Records<'a> {
    pub reader: &'a mut Reader,
}

impl<'a> View for Records<'a> {
    type V = ReaderView;

    open spec fn view(&self) -> ReaderView {
        (*self.reader)@
    }
}

impl<'a> Records<'a> {
    /// Whether the sequence has ended. The engine is not to be asked for
    /// another record then.
    pub fn is_finished(&self) -> (finished: bool)
        ensures
            finished == self@.finished,
    {
        self.reader.is_finished()
    }

    /// Pulls the next item of the sequence from the engine's answer to one
    /// call for the next record: a fresh record on success, the end of the
    /// sequence where the stream has ended, and an error, after which the
    /// sequence goes on, for an invalid record.
    pub fn next(&mut self, fetched: Fetched) -> (item: Option<Result<Record, ReadError>>)
        ensures
            final(self)@ == old(self)@.after(fetched.status),
            *final(final(self).reader) == *final(old(self).reader),
            match old(self)@.outcome(fetched.status) {
                ReadOutcome::Success => item matches Some(Ok(record)) && record@ == RecordView::bound(
                    old(self)@.header,
                    fetched.payload@,
                ),
                ReadOutcome::EndOfStream => item.is_none(),
                ReadOutcome::Invalid => item matches Some(Err(e)) && e == ReadError::Invalid,
            },
    {
        let mut record = Record::new();
        match self.reader.read(fetched, &mut record) {
            Err(ReadError::NoMoreRecord) => None,
            Err(e) => Some(Err(e)),
            Ok(()) => Some(Ok(record)),
        }
    }
}

} // verus!
