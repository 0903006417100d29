//! The worker that streams a byte range of an open file in bounded chunks.
//!
//! The worker owns no file. It is a state machine: for each thing that happens
//! (`ReadEvent`) it says what to do next (`ReadAction`). Whoever drives it owns
//! the file and the channel, performs the action, and reports the outcome.

use vstd::prelude::*;
use crate::sizing::{buffer_size, buffer_size_spec};

verus! {

/// A half-open interval `[start, end)` of offsets into a file.
#[derive(Clone, Copy, Debug, PartialEq, Eq)]
pub struct ByteRange {
    pub start: u64,
    pub end: u64,
}

impl ByteRange {
    /// A range is well formed when it does not end before it starts.
    pub open spec fn wf(self) -> bool {
        self.start <= self.end
    }

    /// How many bytes the range spans.
    pub open spec fn span(self) -> nat {
        if self.start <= self.end {
            (self.end - self.start) as nat
        } else {
            0
        }
    }

    /// The range that covers a whole file of `size` bytes.
    pub fn whole(size: u64) -> (range: ByteRange)
        ensures
            range == (ByteRange { start: 0, end: size }),
            range.wf(),
            range.span() == size,
    {
        ByteRange { start: 0, end: size }
    }
}

/// Where a worker stands.
#[derive(Clone, Copy, Debug, PartialEq, Eq)]
pub enum Phase {
    /// Created, not yet scheduled.
    Idle,
    /// Asked for a seek to the start of the range.
    Seeking,
    /// Asked for a read.
    Reading,
    /// Asked for a chunk to be sent.
    Sending,
    /// Asked for an error to be sent as the last item.
    Failing,
    /// Finished; nothing more will be asked for.
    Done,
}

/// What happened since the last action.
#[derive(Clone, Debug, PartialEq, Eq)]
pub enum ReadEvent {
    /// The worker has been given a thread.
    Started,
    /// The seek succeeded.
    SeekDone,
    /// The seek failed.
    SeekFailed,
    /// The read succeeded and put `length` bytes at the front of `buffer`.
    ReadDone { buffer: Vec<u8>, length: usize },
    /// The read failed.
    ReadFailed,
    /// The consumer took the item.
    Sent,
    /// The consumer is gone; the item was not delivered.
    ReceiverGone,
}

/// What the driver must do next.
#[derive(Clone, Debug, PartialEq, Eq)]
pub enum ReadAction {
    /// Seek the file to this offset.
    Seek(u64),
    /// Read once into a fresh buffer of this many bytes.
    Read(usize),
    /// Send this chunk to the consumer.
    SendChunk(Vec<u8>),
    /// Send the error that was just reported, as the last item.
    SendError,
    /// Close the channel and release the file.
    Finish,
}

/// The mathematical content of a worker.
pub struct WorkerModel {
    pub start: nat,
    pub end: nat,
    pub phase: Phase,
}

/// The mathematical content of an event.
pub enum EventModel {
    Started,
    SeekDone,
    SeekFailed,
    ReadDone { buffer: Seq<u8>, length: nat },
    ReadFailed,
    Sent,
    ReceiverGone,
}

/// The mathematical content of an action.
pub enum ActionModel {
    Seek(nat),
    Read(nat),
    SendChunk(Seq<u8>),
    SendError,
    Finish,
}

impl View for ReadEvent {
    type V = EventModel;

    open spec fn view(&self) -> EventModel {
        match *self {
            ReadEvent::Started => EventModel::Started,
            ReadEvent::SeekDone => EventModel::SeekDone,
            ReadEvent::SeekFailed => EventModel::SeekFailed,
            ReadEvent::ReadDone { buffer, length } => EventModel::ReadDone {
                buffer: buffer@,
                length: length as nat,
            },
            ReadEvent::ReadFailed => EventModel::ReadFailed,
            ReadEvent::Sent => EventModel::Sent,
            ReadEvent::ReceiverGone => EventModel::ReceiverGone,
        }
    }
}

impl View for ReadAction {
    type V = ActionModel;

    open spec fn view(&self) -> ActionModel {
        match *self {
            ReadAction::Seek(offset) => ActionModel::Seek(offset as nat),
            ReadAction::Read(size) => ActionModel::Read(size as nat),
            ReadAction::SendChunk(chunk) => ActionModel::SendChunk(chunk@),
            ReadAction::SendError => ActionModel::SendError,
            ReadAction::Finish => ActionModel::Finish,
        }
    }
}

/// The worker stops: it moves to `Done` and asks for the channel to be closed.
pub open spec fn stop(w: WorkerModel) -> (WorkerModel, ActionModel) {
    (WorkerModel { phase: Phase::Done, ..w }, ActionModel::Finish)
}

/// What follows a successful seek or send: one more read of at most
/// `MAX_BUFFER_SIZE` bytes while the range is not exhausted, else the end.
pub open spec fn next_read(w: WorkerModel) -> (WorkerModel, ActionModel) {
    if w.start < w.end {
        (
            WorkerModel { phase: Phase::Reading, ..w },
            ActionModel::Read(buffer_size_spec((w.end - w.start) as nat)),
        )
    } else {
        stop(w)
    }
}

/// A read result that can be turned into a chunk: at least one byte, no more
/// than the buffer holds, and no more than was asked for.
pub open spec fn usable_read(w: WorkerModel, buffer: Seq<u8>, length: nat) -> bool {
    &&& 0 < length <= buffer.len()
    &&& w.start < w.end
    &&& length <= buffer_size_spec((w.end - w.start) as nat)
}

/// The transition function of the worker.
///
/// * `Idle`, on `Started`: seek to the start of the range.
/// * `Seeking`, on `SeekDone`: read, or finish if the range is empty; on
///   `SeekFailed`: send the error as the only item.
/// * `Reading`, on a usable `ReadDone`: advance by `length` and send the first
///   `length` bytes of the buffer; on `ReadFailed`: send the error as the last
///   item, without a chunk for that attempt. A read of zero bytes is the end of
///   the file and ends the stream without an error.
/// * `Sending`, on `Sent`: read again, or finish if the range is exhausted; on
///   `ReceiverGone`: finish.
/// * `Failing`: finish, whether or not the error was delivered.
///
/// Any other pairing of phase and event stops the worker.
pub open spec fn step_spec(w: WorkerModel, e: EventModel) -> (WorkerModel, ActionModel) {
    match (w.phase, e) {
        (Phase::Idle, EventModel::Started) => (
            WorkerModel { phase: Phase::Seeking, ..w },
            ActionModel::Seek(w.start),
        ),
        (Phase::Seeking, EventModel::SeekDone) => next_read(w),
        (Phase::Seeking, EventModel::SeekFailed) => (
            WorkerModel { phase: Phase::Failing, ..w },
            ActionModel::SendError,
        ),
        (Phase::Reading, EventModel::ReadDone { buffer, length }) => {
            if usable_read(w, buffer, length) {
                (
                    WorkerModel { start: w.start + length, end: w.end, phase: Phase::Sending },
                    ActionModel::SendChunk(buffer.take(length as int)),
                )
            } else {
                stop(w)
            }
        },
        (Phase::Reading, EventModel::ReadFailed) => (
            WorkerModel { phase: Phase::Failing, ..w },
            ActionModel::SendError,
        ),
        (Phase::Sending, EventModel::Sent) => next_read(w),
        _ => stop(w),
    }
}

/// A worker for `range` that has not been scheduled yet.
pub open spec fn initial(range: ByteRange) -> WorkerModel {
    WorkerModel { start: range.start as nat, end: range.end as nat, phase: Phase::Idle }
}

/// The state reached, and the actions asked for, when `events` are fed in
/// order to a worker in state `w`.
pub open spec fn run(w: WorkerModel, events: Seq<EventModel>) -> (WorkerModel, Seq<ActionModel>)
    decreases events.len(),
{
    if events.len() == 0 {
        (w, Seq::empty())
    } else {
        let before = run(w, events.drop_last());
        let after = step_spec(before.0, events.last());
        (after.0, before.1.push(after.1))
    }
}

/// The bytes of the chunks among `actions`, one after the other.
pub open spec fn delivered(actions: Seq<ActionModel>) -> Seq<u8>
    decreases actions.len(),
{
    if actions.len() == 0 {
        Seq::empty()
    } else {
        let earlier = delivered(actions.drop_last());
        match actions.last() {
            ActionModel::SendChunk(chunk) => earlier + chunk,
            _ => earlier,
        }
    }
}

/// The event reports truthfully on `file`: a read that the worker in state
/// `w` turns into a chunk holds the bytes of `file` at the worker's position.
pub open spec fn truthful(file: Seq<u8>, w: WorkerModel, e: EventModel) -> bool {
    match e {
        EventModel::ReadDone { buffer, length } => w.phase == Phase::Reading && usable_read(
            w,
            buffer,
            length,
        ) ==> {
            &&& w.start + length <= file.len()
            &&& buffer.take(length as int) == file.subrange(
                w.start as int,
                (w.start + length) as int,
            )
        },
        _ => true,
    }
}

/// Every event of the run reports truthfully on `file`.
pub open spec fn reads_from(file: Seq<u8>, w: WorkerModel, events: Seq<EventModel>) -> bool
    decreases events.len(),
{
    events.len() == 0 || {
        &&& reads_from(file, w, events.drop_last())
        &&& truthful(file, run(w, events.drop_last()).0, events.last())
    }
}

/// The event is the success that the phase of `w` waits for: no failure, no
/// end of file, no consumer gone, nothing out of turn.
pub open spec fn expected(w: WorkerModel, e: EventModel) -> bool {
    match (w.phase, e) {
        (Phase::Idle, EventModel::Started) => true,
        (Phase::Seeking, EventModel::SeekDone) => true,
        (Phase::Reading, EventModel::ReadDone { buffer, length }) => usable_read(
            w,
            buffer,
            length,
        ),
        (Phase::Sending, EventModel::Sent) => true,
        _ => false,
    }
}

/// Every event of the run is the success that the worker waits for.
pub open spec fn unbroken(w: WorkerModel, events: Seq<EventModel>) -> bool
    decreases events.len(),
{
    events.len() == 0 || {
        &&& unbroken(w, events.drop_last())
        &&& expected(run(w, events.drop_last()).0, events.last())
    }
}

/// Whatever happens, a worker delivers a prefix of its range: the chunks sent
/// so far, put together, are the bytes of the file from the start of the range
/// to the worker's position, in order, without gap or overlap, and the position
/// never passes the end of the range.
pub proof fn lemma_stream_delivers_prefix(
    file: Seq<u8>,
    range: ByteRange,
    events: Seq<EventModel>,
)
    requires
        range.start <= range.end <= file.len(),
        reads_from(file, initial(range), events),
    ensures
        run(initial(range), events).0.end == range.end,
        range.start <= run(initial(range), events).0.start <= range.end,
        delivered(run(initial(range), events).1) == file.subrange(
            range.start as int,
            run(initial(range), events).0.start as int,
        ),
        delivered(run(initial(range), events).1).len() == run(initial(range), events).0.start
            - range.start,
    decreases events.len(),
{
    let start = range.start as int;
    if events.len() == 0 {
        assert(delivered(run(initial(range), events).1) =~= file.subrange(start, start));
    } else {
        let earlier = events.drop_last();
        lemma_stream_delivers_prefix(file, range, earlier);
        let before = run(initial(range), earlier);
        let after = step_spec(before.0, events.last());
        let actions = before.1.push(after.1);
        assert(actions.drop_last() =~= before.1);
        assert(actions.last() == after.1);
        assert(delivered(actions) =~= file.subrange(start, after.0.start as int));
    }
}

/// A run in which nothing goes wrong and which has come to its end has
/// delivered the whole range: the chunks put together are the bytes of the
/// file in `[start, end)`, and their lengths add up to `end - start`.
pub proof fn lemma_stream_delivers_range(
    file: Seq<u8>,
    range: ByteRange,
    events: Seq<EventModel>,
)
    requires
        range.start <= range.end <= file.len(),
        reads_from(file, initial(range), events),
        unbroken(initial(range), events),
        run(initial(range), events).0.phase == Phase::Done,
    ensures
        delivered(run(initial(range), events).1) == file.subrange(
            range.start as int,
            range.end as int,
        ),
        delivered(run(initial(range), events).1).len() == range.end - range.start,
{
    lemma_stream_delivers_prefix(file, range, events);
    if events.len() > 0 {
        lemma_stream_delivers_prefix(file, range, events.drop_last());
    }
}

/// Every chunk that a worker sends holds at least one byte and at most
/// `MAX_BUFFER_SIZE`.
pub proof fn lemma_chunk_is_bounded(w: WorkerModel, e: EventModel)
    ensures
        step_spec(w, e).1 matches ActionModel::SendChunk(chunk) ==> 0 < chunk.len()
            <= crate::sizing::MAX_BUFFER_SIZE,
{
}

/// `num_traits::FromPrimitive::from_usize` at `u64`. The crate converts with
/// `as` and answers `Some` whenever the number fits in the target type, `None`
/// otherwise. Believed of the outside code, not proved.
#[verifier::external_body]
fn u64_from_usize(n: usize) -> (converted: Option<u64>)
    ensures
        converted == if n <= u64::MAX {
            Some(n as u64)
        } else {
            None::<u64>
        },
{
    let converted: Option<u64> = num_traits::FromPrimitive::from_usize(n);
    converted
}

/// The state of one stream: the part of the range that is still to be
/// delivered, and the phase of the worker.
#[derive(Clone, Copy, Debug, PartialEq, Eq)]
pub struct ReadWorker {
    range: ByteRange,
    phase: Phase,
}

impl View for ReadWorker {
    type V = WorkerModel;

    closed spec fn view(&self) -> WorkerModel {
        WorkerModel {
            start: self.range.start as nat,
            end: self.range.end as nat,
            phase: self.phase,
        }
    }
}

/// A worker for `range`, waiting to be scheduled.
pub fn new_file_stream(range: ByteRange) -> (worker: ReadWorker)
    ensures
        worker@ == initial(range),
{
    ReadWorker { range, phase: Phase::Idle }
}

impl ReadWorker {
    /// The offset of the next byte to deliver.
    pub fn position(&self) -> (offset: u64)
        ensures
            offset == self@.start,
    {
        self.range.start
    }

    /// The offset at which the stream ends.
    pub fn end(&self) -> (offset: u64)
        ensures
            offset == self@.end,
    {
        self.range.end
    }

    /// The phase the worker is in.
    pub fn phase(&self) -> (phase: Phase)
        ensures
            phase == self@.phase,
    {
        self.phase
    }

    /// Whether the worker has finished.
    pub fn is_done(&self) -> (done: bool)
        ensures
            done == (self@.phase == Phase::Done),
    {
        match self.phase {
            Phase::Done => true,
            _ => false,
        }
    }

    fn halt(&mut self) -> (action: ReadAction)
        ensures
            (final(self)@, action@) == stop(old(self)@),
    {
        self.phase = Phase::Done;
        ReadAction::Finish
    }

    fn read_more(&mut self) -> (action: ReadAction)
        ensures
            (final(self)@, action@) == next_read(old(self)@),
    {
        if self.range.start < self.range.end {
            self.phase = Phase::Reading;
            ReadAction::Read(buffer_size(self.range.end - self.range.start))
        } else {
            self.halt()
        }
    }

    fn fail(&mut self) -> (action: ReadAction)
        ensures
            final(self)@ == (WorkerModel { phase: Phase::Failing, ..old(self)@ }),
            action@ == ActionModel::SendError,
    {
        self.phase = Phase::Failing;
        ReadAction::SendError
    }

    fn take_chunk(&mut self, buffer: Vec<u8>, length: usize) -> (action: ReadAction)
        requires
            old(self)@.phase == Phase::Reading,
        ensures
            (final(self)@, action@) == step_spec(
                old(self)@,
                EventModel::ReadDone { buffer: buffer@, length: length as nat },
            ),
    {
        if length == 0 || length > buffer.len() || self.range.start >= self.range.end {
            return self.halt();
        }
        if length > buffer_size(self.range.end - self.range.start) {
            return self.halt();
        }
        match u64_from_usize(length) {
            Some(advance) => {
                let mut chunk = buffer;
                chunk.truncate(length);
                self.range.start = self.range.start + advance;
                self.phase = Phase::Sending;
                ReadAction::SendChunk(chunk)
            },
            None => self.halt(),
        }
    }

    /// Take one event and say what to do next, as [`step_spec`] defines it.
    pub fn step(&mut self, event: ReadEvent) -> (action: ReadAction)
        ensures
            (final(self)@, action@) == step_spec(old(self)@, event@),
    {
        match self.phase {
            Phase::Idle => match event {
                ReadEvent::Started => {
                    self.phase = Phase::Seeking;
                    ReadAction::Seek(self.range.start)
                },
                _ => self.halt(),
            },
            Phase::Seeking => match event {
                ReadEvent::SeekDone => self.read_more(),
                ReadEvent::SeekFailed => self.fail(),
                _ => self.halt(),
            },
            Phase::Reading => match event {
                ReadEvent::ReadDone { buffer, length } => self.take_chunk(buffer, length),
                ReadEvent::ReadFailed => self.fail(),
                _ => self.halt(),
            },
            Phase::Sending => match event {
                ReadEvent::Sent => self.read_more(),
                _ => self.halt(),
            },
            Phase::Failing => self.halt(),
            Phase::Done => self.halt(),
        }
    }
}

} // verus!
