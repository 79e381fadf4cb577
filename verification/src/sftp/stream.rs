//! The download stream: a remote file's bytes, handed on chunk by chunk.
//!
//! The stream reads nothing itself. `poll_read` is a transition function:
//! it takes what has just happened and returns what the caller has to do
//! next. A read from the remote file is asked for only when the consumer
//! asks for bytes, and the bytes read are handed on as they came.

use vstd::prelude::*;

verus! {

/// The most that is read from the remote file at a time.
pub const CHUNK_SIZE: usize = 4096;

/// Where a download stands.
#[derive(Clone, Copy, Debug, PartialEq, Eq, Structural)]
pub enum StreamState {
    /// Waiting for the consumer to ask for bytes.
    Idle,
    /// A read of up to `limit` bytes from the remote file is under way.
    Reading { limit: usize },
    /// The bytes read last are with the consumer.
    Draining,
    /// The stream has ended. It never leaves this state.
    Closed,
}

/// What has just happened to a download.
pub enum StreamEvent<'a> {
    /// The consumer is ready for up to `capacity` more bytes.
    Demand { capacity: usize },
    /// The remote read returned `data`; no bytes mean the end of the file.
    Read { data: &'a [u8] },
    /// The remote read failed.
    ReadFailed,
    /// The consumer has taken the bytes handed to it.
    Drained,
    /// The response was aborted.
    Abort,
}

/// An event with the bytes it carries.
pub enum StreamEventView {
    Demand { capacity: usize },
    Read { data: Seq<u8> },
    ReadFailed,
    Drained,
    Abort,
}

impl<'a> View for StreamEvent<'a> {
    type V = StreamEventView;

    open spec fn view(&self) -> StreamEventView {
        match self {
            StreamEvent::Demand { capacity } => StreamEventView::Demand { capacity: *capacity },
            StreamEvent::Read { data } => StreamEventView::Read { data: data@ },
            StreamEvent::ReadFailed => StreamEventView::ReadFailed,
            StreamEvent::Drained => StreamEventView::Drained,
            StreamEvent::Abort => StreamEventView::Abort,
        }
    }
}

/// What the caller of a download has to do next.
pub enum StreamAction<'a> {
    /// Read up to `limit` bytes from the remote file.
    Read { limit: usize },
    /// Hand `data` to the consumer; more may follow.
    Deliver { data: &'a [u8] },
    /// Nothing to hand on now; the stream goes on.
    Wait,
    /// The stream has ended: tell the consumer and release the remote file.
    End,
}

/// An action with the bytes it carries.
pub enum StreamActionView {
    Read { limit: usize },
    Deliver { data: Seq<u8> },
    Wait,
    End,
}

impl<'a> View for StreamAction<'a> {
    type V = StreamActionView;

    open spec fn view(&self) -> StreamActionView {
        match self {
            StreamAction::Read { limit } => StreamActionView::Read { limit: *limit },
            StreamAction::Deliver { data } => StreamActionView::Deliver { data: data@ },
            StreamAction::Wait => StreamActionView::Wait,
            StreamAction::End => StreamActionView::End,
        }
    }
}

/// How much to read for a consumer that is ready for `capacity` bytes.
pub open spec fn read_limit(capacity: usize) -> usize {
    if capacity < CHUNK_SIZE {
        capacity
    } else {
        CHUNK_SIZE
    }
}

/// One step of a download.
///
/// A closed stream stays closed, and an abort closes the stream. When the
/// consumer asks for bytes, a read of at most one chunk, and of no more
/// than the consumer has room for, is asked for. The bytes that the read
/// returns are handed on as they are; a read that returns none (the end
/// of the file), that fails, or that returns more than was asked for,
/// ends the stream. Once the consumer has taken the bytes, the stream
/// waits for it to ask again. An event that the state does not wait for
/// ends the stream.
pub open spec fn stream_step(state: StreamState, event: StreamEventView) -> (
    StreamState,
    StreamActionView,
) {
    match (state, event) {
        (StreamState::Idle, StreamEventView::Demand { capacity }) => if capacity == 0 {
            (StreamState::Idle, StreamActionView::Wait)
        } else {
            (
                StreamState::Reading { limit: read_limit(capacity) },
                StreamActionView::Read { limit: read_limit(capacity) },
            )
        },
        (StreamState::Reading { limit }, StreamEventView::Read { data }) => if 0 < data.len()
            <= limit {
            (StreamState::Draining, StreamActionView::Deliver { data })
        } else {
            (StreamState::Closed, StreamActionView::End)
        },
        (StreamState::Draining, StreamEventView::Drained) => (
            StreamState::Idle,
            StreamActionView::Wait,
        ),
        _ => (StreamState::Closed, StreamActionView::End),
    }
}

/// The download stream of one remote file.
pub struct AsyncSftp {
    state: StreamState,
}

impl View for AsyncSftp {
    type V = StreamState;

    closed spec fn view(&self) -> StreamState {
        self.state
    }
}

impl AsyncSftp {
    /// A stream that has delivered nothing yet.
    pub fn new() -> (stream: AsyncSftp)
        ensures
            stream@ == StreamState::Idle,
    {
        AsyncSftp { state: StreamState::Idle }
    }

    /// Where the download stands.
    pub fn state(&self) -> (state: StreamState)
        ensures
            state == self@,
    {
        self.state
    }

    /// One step of the download: see `stream_step`.
    pub fn poll_read<'a>(&mut self, event: StreamEvent<'a>) -> (action: StreamAction<'a>)
        ensures
            (final(self)@, action@) == stream_step(old(self)@, event@),
    {
        match (self.state, event) {
            (StreamState::Idle, StreamEvent::Demand { capacity }) => {
                if capacity == 0 {
                    StreamAction::Wait
                } else {
                    let limit = if capacity < CHUNK_SIZE {
                        capacity
                    } else {
                        CHUNK_SIZE
                    };
                    self.state = StreamState::Reading { limit };
                    StreamAction::Read { limit }
                }
            },
            (StreamState::Reading { limit }, StreamEvent::Read { data }) => {
                if 0 < data.len() && data.len() <= limit {
                    self.state = StreamState::Draining;
                    StreamAction::Deliver { data }
                } else {
                    self.state = StreamState::Closed;
                    StreamAction::End
                }
            },
            (StreamState::Draining, StreamEvent::Drained) => {
                self.state = StreamState::Idle;
                StreamAction::Wait
            },
            _ => {
                self.state = StreamState::Closed;
                StreamAction::End
            },
        }
    }
}

/// The state of a stream that started in `state` and saw `events`.
pub open spec fn state_after(state: StreamState, events: Seq<StreamEventView>) -> StreamState
    decreases events.len(),
{
    if events.len() == 0 {
        state
    } else {
        stream_step(state_after(state, events.drop_last()), events.last()).0
    }
}

/// What the caller was told to do on the last of `events`.
pub open spec fn last_action(state: StreamState, events: Seq<StreamEventView>) -> StreamActionView
    recommends
        events.len() > 0,
{
    stream_step(state_after(state, events.drop_last()), events.last()).1
}

/// All the bytes handed to the consumer in the course of `events`, in
/// the order in which they were handed on.
pub open spec fn delivered(state: StreamState, events: Seq<StreamEventView>) -> Seq<u8>
    decreases events.len(),
{
    if events.len() == 0 {
        Seq::empty()
    } else {
        match last_action(state, events) {
            StreamActionView::Deliver { data } => delivered(state, events.drop_last()) + data,
            _ => delivered(state, events.drop_last()),
        }
    }
}

/// The chunks one after the other: the content they were cut from.
pub open spec fn concat(chunks: Seq<Seq<u8>>) -> Seq<u8>
    decreases chunks.len(),
{
    if chunks.len() == 0 {
        Seq::empty()
    } else {
        concat(chunks.drop_last()) + chunks.last()
    }
}

/// The events of a download in which the remote reads return `chunks` one
/// after the other: before each read the consumer asks for bytes (for
/// `capacities[i]` of them before read `i`), and after it the consumer
/// takes what was read.
pub open spec fn transfer(chunks: Seq<Seq<u8>>, capacities: Seq<usize>) -> Seq<StreamEventView>
    decreases chunks.len(),
{
    if chunks.len() == 0 {
        Seq::empty()
    } else {
        transfer(chunks.drop_last(), capacities.drop_last()) + seq![
            StreamEventView::Demand { capacity: capacities[chunks.len() - 1] },
            StreamEventView::Read { data: chunks.last() },
            StreamEventView::Drained,
        ]
    }
}

/// An event that ends the stream in whatever state it arrives: a failed
/// read, a read that returns no bytes, an abort.
pub open spec fn ends_stream(event: StreamEventView) -> bool {
    match event {
        StreamEventView::ReadFailed => true,
        StreamEventView::Abort => true,
        StreamEventView::Read { data } => data.len() == 0,
        _ => false,
    }
}

/// One more event: the stream takes one step from where it stood.
pub proof fn lemma_one_more_event(
    state: StreamState,
    events: Seq<StreamEventView>,
    event: StreamEventView,
)
    ensures
        state_after(state, events.push(event)) == stream_step(state_after(state, events), event).0,
        last_action(state, events.push(event)) == stream_step(state_after(state, events), event).1,
        delivered(state, events.push(event)) == match stream_step(
            state_after(state, events),
            event,
        ).1 {
            StreamActionView::Deliver { data } => delivered(state, events) + data,
            _ => delivered(state, events),
        },
{
    assert(events.push(event).drop_last() =~= events);
}

/// Events seen one after the other add up: the state after both runs is
/// the state after the second run started where the first ended, and what
/// was delivered is what the first run delivered followed by what the
/// second did.
pub proof fn lemma_events_in_sequence(
    state: StreamState,
    first: Seq<StreamEventView>,
    second: Seq<StreamEventView>,
)
    ensures
        state_after(state, first + second) == state_after(state_after(state, first), second),
        delivered(state, first + second) == delivered(state, first) + delivered(
            state_after(state, first),
            second,
        ),
    decreases second.len(),
{
    if second.len() == 0 {
        assert(first + second =~= first);
        assert(delivered(state, first) + Seq::<u8>::empty() =~= delivered(state, first));
    } else {
        let all = first + second;
        assert(all.drop_last() =~= first + second.drop_last());
        assert(all.last() == second.last());
        lemma_events_in_sequence(state, first, second.drop_last());
        let middle = state_after(state, first);
        match last_action(middle, second) {
            StreamActionView::Deliver { data } => {
                assert(delivered(state, first) + (delivered(middle, second.drop_last()) + data)
                    =~= delivered(state, first) + delivered(middle, second.drop_last()) + data);
            },
            _ => {},
        }
    }
}

/// A closed stream stays closed, asks for no read and delivers nothing,
/// whatever happens to it.
pub proof fn lemma_closed_is_final(events: Seq<StreamEventView>)
    ensures
        state_after(StreamState::Closed, events) == StreamState::Closed,
        delivered(StreamState::Closed, events) == Seq::<u8>::empty(),
        events.len() > 0 ==> last_action(StreamState::Closed, events) == StreamActionView::End,
    decreases events.len(),
{
    if events.len() > 0 {
        lemma_closed_is_final(events.drop_last());
    }
}

/// A download delivers the file as it is: when the remote reads return
/// the file's content chunk by chunk, each chunk no larger than what was
/// asked for, and then the end of the file, the bytes handed to the
/// consumer are exactly the content, in its order, and the stream is
/// closed.
pub proof fn lemma_download_delivers_file(
    chunks: Seq<Seq<u8>>,
    capacities: Seq<usize>,
    last_capacity: usize,
)
    requires
        capacities.len() == chunks.len(),
        forall|i: int|
            0 <= i < chunks.len() ==> 0 < (#[trigger] chunks[i]).len() <= read_limit(capacities[i]),
        last_capacity > 0,
    ensures
        ({
            let events = transfer(chunks, capacities) + seq![
                StreamEventView::Demand { capacity: last_capacity },
                StreamEventView::Read { data: Seq::empty() },
            ];
            &&& delivered(StreamState::Idle, events) == concat(chunks)
            &&& state_after(StreamState::Idle, events) == StreamState::Closed
            &&& last_action(StreamState::Idle, events) == StreamActionView::End
        }),
{
    lemma_transfer_hands_on_chunks(chunks, capacities);
    let body = transfer(chunks, capacities);
    let demand = StreamEventView::Demand { capacity: last_capacity };
    let end = StreamEventView::Read { data: Seq::empty() };
    let tail = seq![demand, end];
    let events = body + tail;
    lemma_events_in_sequence(StreamState::Idle, body, tail);
    let none = Seq::<StreamEventView>::empty();
    lemma_one_more_event(StreamState::Idle, none, demand);
    lemma_one_more_event(StreamState::Idle, none.push(demand), end);
    assert(concat(chunks) + Seq::<u8>::empty() =~= concat(chunks));
    assert(events =~= (body + seq![demand]).push(end));
    lemma_events_in_sequence(StreamState::Idle, body, seq![demand]);
    lemma_one_more_event(StreamState::Idle, body + seq![demand], end);
}

/// After the chunks were read and taken one by one, the stream is idle
/// again and has handed on the chunks in their order.
pub proof fn lemma_transfer_hands_on_chunks(chunks: Seq<Seq<u8>>, capacities: Seq<usize>)
    requires
        capacities.len() == chunks.len(),
        forall|i: int|
            0 <= i < chunks.len() ==> 0 < (#[trigger] chunks[i]).len() <= read_limit(capacities[i]),
    ensures
        state_after(StreamState::Idle, transfer(chunks, capacities)) == StreamState::Idle,
        delivered(StreamState::Idle, transfer(chunks, capacities)) == concat(chunks),
    decreases chunks.len(),
{
    if chunks.len() > 0 {
        let earlier = transfer(chunks.drop_last(), capacities.drop_last());
        lemma_transfer_hands_on_chunks(chunks.drop_last(), capacities.drop_last());
        let capacity = capacities[chunks.len() - 1];
        let chunk = chunks.last();
        let demand = StreamEventView::Demand { capacity };
        let read = StreamEventView::Read { data: chunk };
        let round = seq![demand, read, StreamEventView::Drained];
        lemma_events_in_sequence(StreamState::Idle, earlier, round);
        let none = Seq::<StreamEventView>::empty();
        lemma_one_more_event(StreamState::Idle, none, demand);
        lemma_one_more_event(StreamState::Idle, none.push(demand), read);
        lemma_one_more_event(
            StreamState::Idle,
            none.push(demand).push(read),
            StreamEventView::Drained,
        );
        assert(state_after(StreamState::Idle, none) == StreamState::Idle);
        assert(round =~= none.push(demand).push(read).push(StreamEventView::Drained));
        assert(Seq::<u8>::empty() + chunk =~= chunk);
    }
}

/// A failed read ends the stream, and so does the end of the file or an
/// abort: whatever was seen before and whatever is seen afterwards, the
/// stream is closed, nothing more is delivered, and every later event is
/// answered with the end of the stream, so that no read is asked for
/// again.
pub proof fn lemma_failed_read_ends_stream(
    before: Seq<StreamEventView>,
    failure: StreamEventView,
    after: Seq<StreamEventView>,
)
    requires
        ends_stream(failure),
    ensures
        state_after(StreamState::Idle, before + seq![failure] + after) == StreamState::Closed,
        last_action(StreamState::Idle, before + seq![failure] + after) == StreamActionView::End,
        delivered(StreamState::Idle, before + seq![failure] + after) == delivered(
            StreamState::Idle,
            before,
        ),
{
    let until = before + seq![failure];
    assert(until.drop_last() =~= before);
    assert(until.last() == failure);
    assert(state_after(StreamState::Idle, until) == StreamState::Closed);
    assert(delivered(StreamState::Idle, until) == delivered(StreamState::Idle, before));
    lemma_events_in_sequence(StreamState::Idle, until, after);
    lemma_closed_is_final(after);
    assert(delivered(StreamState::Idle, before) + Seq::<u8>::empty() =~= delivered(
        StreamState::Idle,
        before,
    ));
    let all = until + after;
    if after.len() == 0 {
        assert(all =~= until);
    } else {
        assert(all.drop_last() =~= until + after.drop_last());
        assert(all.last() == after.last());
        lemma_events_in_sequence(StreamState::Idle, until, after.drop_last());
        lemma_closed_is_final(after.drop_last());
    }
}

/// The discipline of a single step, whatever the state and the event: a
/// read is asked for only when the consumer asks for bytes, and then for
/// at least one byte, at most a chunk and no more than the consumer has
/// room for; and the bytes handed on are the bytes that the read has just
/// returned, none kept back and none from an earlier read.
pub proof fn lemma_step_discipline(state: StreamState, event: StreamEventView)
    ensures
        stream_step(state, event).1 matches StreamActionView::Read { limit } ==> {
            &&& event matches StreamEventView::Demand { capacity }
            &&& 0 < limit <= capacity
            &&& limit <= CHUNK_SIZE
            &&& stream_step(state, event).0 == StreamState::Reading { limit }
        },
        stream_step(state, event).1 matches StreamActionView::Deliver { data } ==> {
            &&& event == StreamEventView::Read { data }
            &&& data.len() > 0
        },
        state == StreamState::Closed ==> stream_step(state, event) == (
            StreamState::Closed,
            StreamActionView::End,
        ),
{
}

} // verus!
