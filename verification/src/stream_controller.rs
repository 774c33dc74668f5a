use vstd::prelude::*;
use crate::channels::silence;

verus! {

/// A command for the task that owns a hardware stream.
#[derive(Clone, Copy, Debug, PartialEq, Eq, Structural)]
pub enum StreamCommand {
    Play,
    Stop,
}

/// The direction of a stream.
#[derive(Clone, Copy, Debug, PartialEq, Eq, Structural)]
pub enum StreamType {
    Input,
    Output,
}

/// The last known state of a stream.
#[derive(Clone, Copy, Debug, PartialEq, Eq, Structural)]
pub enum StreamState {
    Stopped,
    Running,
}

/// What is known of the hardware stream of a controller.
#[derive(Clone, Copy, Debug, PartialEq, Eq, Structural)]
pub enum StreamHandle {
    /// No stream was constructed yet.
    Absent,
    /// The construction was asked for and its outcome is awaited.
    Building,
    /// The stream exists.
    Present,
    /// The stream failed; the controller takes no further action.
    Failed,
}

/// What the owner of the hardware stream has to do for one command.
#[derive(Clone, Copy, Debug, PartialEq, Eq, Structural)]
pub enum StreamAction {
    /// Construct the hardware stream, start it, and report the outcome.
    BuildAndStart,
    /// Start the stream that exists.
    Start,
    /// Pause the stream that exists.
    Pause,
    /// There is no stream to act on.
    Nothing,
}

/// The failure of a hardware stream, in construction or in use.
#[derive(Clone, Copy, Debug, PartialEq, Eq, Structural)]
pub enum StreamFailure {
    /// The hardware stream could not be constructed.
    Construction,
}

/// What reaches the controller from the task that owns a stream: a command
/// taken from the queue, the outcome of a construction, or the news that
/// starting or pausing the stream failed.
pub enum StreamEvent {
    Command(StreamCommand),
    Built(bool),
    Failed,
}

/// The action that a command asks for, given what is known of the stream.
pub open spec fn action_for(handle: StreamHandle, command: StreamCommand) -> StreamAction {
    match (handle, command) {
        (StreamHandle::Absent, StreamCommand::Play) => StreamAction::BuildAndStart,
        (StreamHandle::Present, StreamCommand::Play) => StreamAction::Start,
        (StreamHandle::Present, StreamCommand::Stop) => StreamAction::Pause,
        _ => StreamAction::Nothing,
    }
}

/// What is known of the stream after a command was taken.
pub open spec fn handle_after(handle: StreamHandle, command: StreamCommand) -> StreamHandle {
    if handle == StreamHandle::Absent && command == StreamCommand::Play {
        StreamHandle::Building
    } else {
        handle
    }
}

/// The state after a command was taken: only a stream that exists changes
/// its state.
pub open spec fn state_after(
    handle: StreamHandle,
    state: StreamState,
    command: StreamCommand,
) -> StreamState {
    if handle == StreamHandle::Present {
        match command {
            StreamCommand::Play => StreamState::Running,
            StreamCommand::Stop => StreamState::Stopped,
        }
    } else {
        state
    }
}

/// What is known of the stream after the outcome of a construction: only
/// an awaited outcome counts.
pub open spec fn handle_built(handle: StreamHandle, built: bool) -> StreamHandle {
    if handle == StreamHandle::Building {
        if built {
            StreamHandle::Present
        } else {
            StreamHandle::Failed
        }
    } else {
        handle
    }
}

/// What is known of the stream after an event. While a construction is
/// awaited no command is taken.
pub open spec fn handle_on(handle: StreamHandle, event: StreamEvent) -> StreamHandle {
    match event {
        StreamEvent::Command(command) => handle_after(handle, command),
        StreamEvent::Built(built) => handle_built(handle, built),
        StreamEvent::Failed => StreamHandle::Failed,
    }
}

/// Whether an event makes the owner construct the hardware stream.
pub open spec fn constructs(handle: StreamHandle, event: StreamEvent) -> bool {
    event matches StreamEvent::Command(command) && action_for(handle, command)
        == StreamAction::BuildAndStart
}

/// How often the hardware stream is constructed over a run of events.
pub open spec fn constructions(handle: StreamHandle, events: Seq<StreamEvent>) -> nat
    decreases events.len(),
{
    if events.len() == 0 {
        0
    } else {
        let rest = constructions(handle_on(handle, events.first()), events.drop_first());
        if constructs(handle, events.first()) {
            rest + 1
        } else {
            rest
        }
    }
}

/// Whatever commands and outcomes arrive, the hardware stream is
/// constructed at most once, and never again once a construction was asked
/// for, whether it succeeded or failed.
pub proof fn lemma_constructed_at_most_once(handle: StreamHandle, events: Seq<StreamEvent>)
    ensures
        constructions(handle, events) <= 1,
        handle != StreamHandle::Absent ==> constructions(handle, events) == 0,
    decreases events.len(),
{
    if events.len() > 0 {
        lemma_constructed_at_most_once(handle_on(handle, events.first()), events.drop_first());
    }
}

/// Stop followed by Play on a stream that exists pauses and restarts it,
/// without constructing it again.
pub proof fn lemma_stop_then_play_resumes()
    ensures
        action_for(StreamHandle::Present, StreamCommand::Stop) == StreamAction::Pause,
        handle_after(StreamHandle::Present, StreamCommand::Stop) == StreamHandle::Present,
        action_for(StreamHandle::Present, StreamCommand::Play) == StreamAction::Start,
        state_after(StreamHandle::Present, StreamState::Stopped, StreamCommand::Play)
            == StreamState::Running,
{
}

/// The control side of one direction's stream: the commands that wait for
/// the owning task, in the order of their submission, what is known of the
/// hardware stream, and the last known state.
#[derive(Debug)]
pub struct StreamController {
    pub stream_type: StreamType,
    pub state: StreamState,
    pub handle: StreamHandle,
    pub pending: Vec<StreamCommand>,
}

impl StreamController {
    /// A stream is Running only if it exists.
    pub open spec fn wf(&self) -> bool {
        self.handle != StreamHandle::Present ==> self.state == StreamState::Stopped
    }

    /// A controller in state Stopped, with no hardware stream and no command
    /// waiting.
    pub fn new(stream_type: StreamType) -> (controller: Self)
        ensures
            controller.wf(),
            controller.stream_type == stream_type,
            controller.state == StreamState::Stopped,
            controller.handle == StreamHandle::Absent,
            controller.pending@ == Seq::<StreamCommand>::empty(),
    {
        StreamController {
            stream_type,
            state: StreamState::Stopped,
            handle: StreamHandle::Absent,
            pending: Vec::new(),
        }
    }

    /// Submits a command. It waits behind the commands submitted before it;
    /// the state does not change until the owning task takes it.
    pub fn send_command(&mut self, command: StreamCommand)
        ensures
            final(self).pending@ == old(self).pending@.push(command),
            final(self).state == old(self).state,
            final(self).handle == old(self).handle,
            final(self).stream_type == old(self).stream_type,
    {
        self.pending.push(command);
    }

    /// The last known state.
    pub fn get_state(&self) -> (state: StreamState)
        ensures
            state == self.state,
    {
        self.state
    }

    /// Takes the command that has waited longest and says what the owner of
    /// the hardware stream has to do for it. `None` when no command waits,
    /// or while the outcome of a construction is awaited: commands then
    /// stay in the queue. A controller whose stream failed takes its
    /// commands and asks for nothing.
    pub fn process_next(&mut self) -> (action: Option<StreamAction>)
        requires
            old(self).wf(),
        ensures
            final(self).wf(),
            final(self).stream_type == old(self).stream_type,
            old(self).pending@.len() == 0 || old(self).handle == StreamHandle::Building
                ==> action.is_none() && *final(self) == *old(self),
            old(self).pending@.len() > 0 && old(self).handle != StreamHandle::Building ==> {
                let command = old(self).pending@[0];
                &&& action == Some(action_for(old(self).handle, command))
                &&& final(self).handle == handle_after(old(self).handle, command)
                &&& final(self).state == state_after(old(self).handle, old(self).state, command)
                &&& final(self).pending@ == old(self).pending@.skip(1)
            },
    {
        if self.pending.len() == 0 {
            return None;
        }
        match self.handle {
            StreamHandle::Building => None,
            StreamHandle::Absent => {
                let command = self.pending.remove(0);
                assert(self.pending@ =~= old(self).pending@.skip(1));
                match command {
                    StreamCommand::Play => {
                        self.handle = StreamHandle::Building;
                        Some(StreamAction::BuildAndStart)
                    },
                    StreamCommand::Stop => Some(StreamAction::Nothing),
                }
            },
            StreamHandle::Present => {
                let command = self.pending.remove(0);
                assert(self.pending@ =~= old(self).pending@.skip(1));
                match command {
                    StreamCommand::Play => {
                        self.state = StreamState::Running;
                        Some(StreamAction::Start)
                    },
                    StreamCommand::Stop => {
                        self.state = StreamState::Stopped;
                        Some(StreamAction::Pause)
                    },
                }
            },
            StreamHandle::Failed => {
                let _ = self.pending.remove(0);
                assert(self.pending@ =~= old(self).pending@.skip(1));
                Some(StreamAction::Nothing)
            },
        }
    }

    /// Takes the outcome of the construction that `BuildAndStart` asked
    /// for. A stream that was built and started is Running. A failed
    /// construction is reported as an error and is final: the controller
    /// stays Stopped and never asks for the stream again. An outcome that
    /// was not awaited changes nothing.
    pub fn construction_finished(&mut self, built: bool) -> (result: Result<(), StreamFailure>)
        requires
            old(self).wf(),
        ensures
            final(self).wf(),
            final(self).stream_type == old(self).stream_type,
            final(self).pending@ == old(self).pending@,
            final(self).handle == handle_built(old(self).handle, built),
            final(self).state == if old(self).handle == StreamHandle::Building {
                if built {
                    StreamState::Running
                } else {
                    StreamState::Stopped
                }
            } else {
                old(self).state
            },
            result == if old(self).handle == StreamHandle::Building && !built {
                Err::<(), StreamFailure>(StreamFailure::Construction)
            } else {
                Ok::<(), StreamFailure>(())
            },
    {
        match self.handle {
            StreamHandle::Building => {
                if built {
                    self.handle = StreamHandle::Present;
                    self.state = StreamState::Running;
                    Ok(())
                } else {
                    self.handle = StreamHandle::Failed;
                    self.state = StreamState::Stopped;
                    Err(StreamFailure::Construction)
                }
            },
            _ => Ok(()),
        }
    }

    /// Takes the news that starting or pausing the stream failed: the
    /// failure is final, and the controller is Stopped from then on.
    pub fn stream_failed(&mut self)
        ensures
            final(self).wf(),
            final(self).handle == StreamHandle::Failed,
            final(self).state == StreamState::Stopped,
            final(self).stream_type == old(self).stream_type,
            final(self).pending@ == old(self).pending@,
    {
        self.handle = StreamHandle::Failed;
        self.state = StreamState::Stopped;
    }
}

/// The samples captured so far, with the capacity that ends a recording.
#[derive(Debug)]
pub struct SampleBuffer {
    pub samples: Vec<i32>,
    pub capacity: usize,
}

impl SampleBuffer {
    /// The buffer never holds more than its capacity.
    pub open spec fn wf(&self) -> bool {
        self.samples@.len() <= self.capacity
    }

    /// An empty buffer that is full at `capacity` samples.
    pub fn with_capacity(capacity: usize) -> (buffer: Self)
        ensures
            buffer.wf(),
            buffer.capacity == capacity,
            buffer.samples@ == Seq::<i32>::empty(),
    {
        SampleBuffer { samples: Vec::new(), capacity }
    }
}

/// The buffer and the record flag after one delivery of captured samples.
///
/// With the flag down nothing changes. A delivery that leaves room is
/// appended whole. One that reaches or exceeds the capacity is cut at the
/// capacity and brings the flag down.
pub open spec fn input_step(samples: Seq<i32>, capacity: nat, recording: bool, data: Seq<i32>) -> (
    Seq<i32>,
    bool,
) {
    if !recording {
        (samples, false)
    } else if samples.len() + data.len() >= capacity {
        (samples + data.take(capacity - samples.len()), false)
    } else {
        (samples + data, true)
    }
}

/// The buffer and the record flag after a run of deliveries.
pub open spec fn input_run(
    samples: Seq<i32>,
    capacity: nat,
    recording: bool,
    deliveries: Seq<Seq<i32>>,
) -> (Seq<i32>, bool)
    decreases deliveries.len(),
{
    if deliveries.len() == 0 {
        (samples, recording)
    } else {
        let (next, flag) = input_step(samples, capacity, recording, deliveries.first());
        input_run(next, capacity, flag, deliveries.drop_first())
    }
}

/// With the record flag down no delivery changes the buffer.
pub proof fn lemma_idle_run(samples: Seq<i32>, capacity: nat, deliveries: Seq<Seq<i32>>)
    ensures
        input_run(samples, capacity, false, deliveries) == (samples, false),
    decreases deliveries.len(),
{
    if deliveries.len() > 0 {
        lemma_idle_run(samples, capacity, deliveries.drop_first());
    }
}

/// Every run of deliveries into a recording buffer leaves the samples that
/// were delivered, in order, cut at the capacity. The flag is down exactly
/// when a delivery came that reached the capacity, and the buffer is then
/// full.
pub proof fn lemma_recording_run(samples: Seq<i32>, capacity: nat, deliveries: Seq<Seq<i32>>)
    requires
        samples.len() <= capacity,
    ensures
        ({
            let all = samples + deliveries.flatten();
            let (recorded, recording) = input_run(samples, capacity, true, deliveries);
            &&& recorded == if all.len() <= capacity {
                all
            } else {
                all.take(capacity as int)
            }
            &&& recording == (deliveries.len() == 0 || all.len() < capacity)
            &&& !recording ==> recorded.len() == capacity
        }),
    decreases deliveries.len(),
{
    let all = samples + deliveries.flatten();
    if deliveries.len() == 0 {
        assert(deliveries.flatten() =~= Seq::<i32>::empty());
        assert(all =~= samples);
    } else {
        let data = deliveries.first();
        let rest = deliveries.drop_first();
        assert(deliveries.flatten() == data + rest.flatten());
        if samples.len() + data.len() >= capacity {
            let cut = samples + data.take(capacity - samples.len());
            lemma_idle_run(cut, capacity, rest);
            assert(all.len() >= capacity);
            if all.len() <= capacity {
                assert(cut =~= all);
            } else {
                assert(cut =~= all.take(capacity as int));
            }
        } else {
            lemma_recording_run(samples + data, capacity, rest);
            assert((samples + data) + rest.flatten() =~= all);
        }
    }
}

/// The input callback: takes one delivery of captured samples.
///
/// While `recording` is false nothing changes. Otherwise the samples are
/// appended as long as they leave room; the delivery that reaches or
/// exceeds the capacity is cut at the capacity, `recording` becomes false,
/// and the result says that the waiting caller is to be signalled.
pub fn input_callback(buffer: &mut SampleBuffer, recording: &mut bool, data: &[i32]) -> (completed:
    bool)
    requires
        old(buffer).wf(),
    ensures
        final(buffer).wf(),
        final(buffer).capacity == old(buffer).capacity,
        (final(buffer).samples@, *final(recording)) == input_step(
            old(buffer).samples@,
            old(buffer).capacity as nat,
            *old(recording),
            data@,
        ),
        completed == (*old(recording) && old(buffer).samples@.len() + data@.len() >= old(
            buffer,
        ).capacity),
        completed ==> final(buffer).samples@.len() == final(buffer).capacity,
{
    if !*recording {
        return false;
    }
    let room: usize = buffer.capacity - buffer.samples.len();
    let fills = data.len() >= room;
    let count: usize = if fills {
        room
    } else {
        data.len()
    };
    let mut i: usize = 0;
    while i < count
        invariant
            i <= count <= data@.len(),
            count <= room,
            room == buffer.capacity - old(buffer).samples@.len(),
            buffer.capacity == old(buffer).capacity,
            buffer.samples@ == old(buffer).samples@ + data@.take(i as int),
        decreases count - i,
    {
        buffer.samples.push(data[i]);
        assert(data@.take(i + 1) =~= data@.take(i as int).push(data@[i as int]));
        assert(buffer.samples@ =~= old(buffer).samples@ + data@.take(i + 1));
        i += 1;
    }
    if fills {
        *recording = false;
    } else {
        assert(data@.take(count as int) =~= data@);
    }
    fills
}

/// The samples that an output callback emits for `len` slots when it reads
/// `source` from index `at`: the buffered samples as far as they reach,
/// then silence.
pub open spec fn emitted(source: Seq<i32>, at: int, len: nat) -> Seq<i32> {
    Seq::new(
        len,
        |i: int|
            if at + i < source.len() {
                source[at + i]
            } else {
                0i32
            },
    )
}

/// The output callback's own state: its copy of the samples being played
/// and the index of the next one.
#[derive(Debug)]
pub struct OutputCallback {
    pub pending: Vec<i32>,
    pub cursor: usize,
}

impl OutputCallback {
    /// The cursor stays inside the copy.
    pub open spec fn wf(&self) -> bool {
        self.cursor <= self.pending@.len()
    }

    /// The samples that the next call reads: the copy, or the shared buffer
    /// when the copy is empty.
    pub open spec fn source(&self, shared: Seq<i32>) -> Seq<i32> {
        if self.pending@.len() == 0 {
            shared
        } else {
            self.pending@
        }
    }

    /// The index in `source` of the next sample to emit.
    pub open spec fn position(&self) -> int {
        if self.pending@.len() == 0 {
            0
        } else {
            self.cursor as int
        }
    }

    /// A callback state with an empty copy.
    pub fn new() -> (callback: Self)
        ensures
            callback.wf(),
            callback.pending@ == Seq::<i32>::empty(),
            callback.cursor == 0,
    {
        OutputCallback { pending: Vec::new(), cursor: 0 }
    }

    /// Fills one delivery of output slots.
    ///
    /// While `playing` is false every slot is silence and nothing else
    /// changes. Otherwise an empty copy is first refilled from `shared`;
    /// the slots get the next samples of the copy and, where it runs out
    /// before the last slot, silence. In that case `playing` becomes false,
    /// the copy and `shared` are emptied, and the result says that the
    /// waiting caller is to be signalled.
    pub fn fill(&mut self, shared: &mut Vec<i32>, playing: &mut bool, data: &mut [i32]) -> (completed:
        bool)
        requires
            old(self).wf(),
        ensures
            final(self).wf(),
            final(data)@.len() == old(data)@.len(),
            !*old(playing) ==> {
                &&& !completed
                &&& !*final(playing)
                &&& final(data)@ == silence(old(data)@.len())
                &&& *final(self) == *old(self)
                &&& final(shared)@ == old(shared)@
            },
            *old(playing) ==> {
                let source = old(self).source(old(shared)@);
                let at = old(self).position();
                &&& final(data)@ == emitted(source, at, old(data)@.len())
                &&& completed == (source.len() - at < old(data)@.len())
                &&& *final(playing) == !completed
                &&& completed ==> final(self).pending@ == Seq::<i32>::empty() && final(self).cursor
                    == 0 && final(shared)@ == Seq::<i32>::empty()
                &&& !completed ==> final(self).pending@ == source && final(self).cursor == at
                    + old(data)@.len() && final(shared)@ == old(shared)@
            },
    {
        let len = data.len();
        if !*playing {
            let mut i: usize = 0;
            while i < len
                invariant
                    i <= len,
                    data@.len() == len,
                    forall|j: int| 0 <= j < i ==> data@[j] == 0i32,
                decreases len - i,
            {
                data[i] = 0;
                i += 1;
            }
            assert(data@ =~= silence(len as nat));
            return false;
        }
        if self.pending.len() == 0 {
            self.pending = shared.clone();
            self.cursor = 0;
        }
        let ghost source = old(self).source(old(shared)@);
        let ghost at = old(self).position();
        assert(self.pending@ == source);
        assert(self.cursor == at);
        let available: usize = self.pending.len() - self.cursor;
        let completed = available < len;
        let mut i: usize = 0;
        while i < len
            invariant
                i <= len,
                data@.len() == len,
                self.pending@ == source,
                self.cursor == at,
                at <= source.len(),
                available == source.len() - at,
                forall|j: int| 0 <= j < i ==> data@[j] == emitted(source, at, len as nat)[j],
            decreases len - i,
        {
            if i < available {
                assert(at + i < self.pending.len());
                data[i] = self.pending[self.cursor + i];
            } else {
                data[i] = 0;
            }
            i += 1;
        }
        assert(data@ =~= emitted(source, at, len as nat));
        if completed {
            *playing = false;
            self.pending.clear();
            self.cursor = 0;
            shared.clear();
        } else {
            self.cursor = self.cursor + len;
        }
        completed
    }
}

} // verus!
