use vstd::prelude::*;
use crate::channels::{
    channel_samples, deinterleave, frame_count, interleave, is_channel_set,
    lemma_deinterleave_interleave, lemma_deinterleave_shape, lemma_slot, lemma_slot_in_range,
};
use crate::sample_formats::SampleFormat;
use crate::sample_rates::SampleRate;
use crate::methods::find_device;
use crate::stream_controller::{
    input_run, lemma_recording_run, SampleBuffer, StreamCommand, StreamController, StreamHandle,
    StreamState, StreamType,
};

verus! {

/// The sample format used when none is asked for.
pub const DEFAULT_SAMPLE_FORMAT: SampleFormat = SampleFormat::F32;

/// The sample rate used when none is asked for.
pub const DEFAULT_SAMPLE_RATE: SampleRate = SampleRate::SR44100;

/// A sample representation with a fixed mapping to and from the integer
/// domain that the streams work in.
///
/// The two `_spec` functions say what the mapping is; `to_i32` and
/// `from_i32` compute it. A type that implements the trait in ordinary Rust
/// gives each pair the same body.
pub trait Sample: Send + Sync + Clone {
    /// The integer-domain value of the sample.
    spec fn to_i32_spec(&self) -> i32;

    /// The sample that stands for an integer-domain value.
    spec fn from_i32_spec(value: i32) -> Self;

    fn to_i32(&self) -> (value: i32)
        ensures
            value == self.to_i32_spec(),
    ;

    fn from_i32(value: i32) -> (sample: Self)
        ensures
            sample == Self::from_i32_spec(value),
    ;
}

impl Sample for i32 {
    open spec fn to_i32_spec(&self) -> i32 {
        *self
    }

    open spec fn from_i32_spec(value: i32) -> i32 {
        value
    }

    fn to_i32(&self) -> (value: i32) {
        *self
    }

    fn from_i32(value: i32) -> (sample: i32) {
        value
    }
}

/// The integer-domain values of a channel sample set.
pub open spec fn to_integer_domain<T: Sample>(x: Seq<Seq<T>>) -> Seq<Seq<i32>> {
    x.map_values(|channel: Seq<T>| channel.map_values(|sample: T| sample.to_i32_spec()))
}

/// The samples that stand for a channel sample set of integer-domain
/// values.
pub open spec fn from_integer_domain<T: Sample>(x: Seq<Seq<i32>>) -> Seq<Seq<T>> {
    x.map_values(|channel: Seq<i32>| channel.map_values(|value: i32| T::from_i32_spec(value)))
}

/// Integer samples are their own integer-domain values.
pub proof fn lemma_integer_samples(x: Seq<Seq<i32>>)
    ensures
        to_integer_domain::<i32>(x) == x,
        from_integer_domain::<i32>(x) == x,
{
    assert forall|c: int| 0 <= c < x.len() implies #[trigger] to_integer_domain::<i32>(x)[c]
        == x[c] && from_integer_domain::<i32>(x)[c] == x[c] by {
        assert(to_integer_domain::<i32>(x)[c] =~= x[c]);
        assert(from_integer_domain::<i32>(x)[c] =~= x[c]);
    }
    assert(to_integer_domain::<i32>(x) =~= x);
    assert(from_integer_domain::<i32>(x) =~= x);
}

/// The integer-domain values of a channel sample set are a channel sample
/// set with as many frames.
pub proof fn lemma_integer_domain_shape<T: Sample>(x: Seq<Seq<T>>)
    requires
        is_channel_set(x),
    ensures
        is_channel_set(to_integer_domain(x)),
        to_integer_domain(x).len() == x.len(),
        frame_count(to_integer_domain(x)) == frame_count(x),
{
    assert forall|c: int| 0 <= c < x.len() implies (#[trigger] to_integer_domain(x)[c]).len()
        == x[c].len() by {}
}

/// Round trip through the buffers: integer samples that are interleaved for
/// the output buffer and taken apart again as a recording of as many
/// channels are the samples that went in.
pub proof fn lemma_flatten_convert_round_trip(x: Seq<Seq<i32>>)
    requires
        is_channel_set(x),
    ensures
        from_integer_domain::<i32>(deinterleave(interleave(to_integer_domain::<i32>(x)), x.len()))
            == x,
{
    lemma_integer_samples(x);
    lemma_deinterleave_interleave(x);
    lemma_integer_samples(deinterleave(interleave(x), x.len()));
}

/// A recording of whole frames comes back as one channel for each input
/// channel, each with one sample for each frame.
pub proof fn lemma_recording_shape<T: Sample>(samples: Seq<i32>, frames: nat, channels: nat)
    requires
        samples.len() == frames * channels,
    ensures
        from_integer_domain::<T>(deinterleave(samples, channels)).len() == channels,
        forall|c: int|
            0 <= c < channels ==> (#[trigger] from_integer_domain::<T>(
                deinterleave(samples, channels),
            )[c]).len() == frames,
{
    lemma_deinterleave_shape(samples, frames, channels);
}

/// Every run of deliveries that ends a recording of `frames` frames leaves
/// the first `frames` frames that were delivered, and they come back as one
/// channel for each input channel, each with `frames` samples.
pub proof fn lemma_recording_run_shape<T: Sample>(
    frames: nat,
    channels: nat,
    deliveries: Seq<Seq<i32>>,
)
    ensures
        ({
            let (recorded, recording) = input_run(
                Seq::empty(),
                frames * channels,
                true,
                deliveries,
            );
            let back = from_integer_domain::<T>(deinterleave(recorded, channels));
            !recording ==> {
                &&& recorded == deliveries.flatten().take((frames * channels) as int)
                &&& back.len() == channels
                &&& forall|c: int| 0 <= c < channels ==> (#[trigger] back[c]).len() == frames
            }
        }),
{
    let capacity = frames * channels;
    let (recorded, recording) = input_run(Seq::empty(), capacity, true, deliveries);
    lemma_recording_run(Seq::empty(), capacity, deliveries);
    if !recording {
        let all = Seq::<i32>::empty() + deliveries.flatten();
        assert(all =~= deliveries.flatten());
        assert(all.take(all.len() as int) =~= all);
        lemma_recording_shape::<T>(recorded, frames, channels);
    }
}

/// Why a call on an audio instance was refused.
#[derive(Clone, Copy, Debug, PartialEq, Eq, Structural)]
pub enum AudioError {
    /// The data has another number of channels than the output device.
    ChannelCountMismatch { expected: usize, actual: usize },
    /// No timing trigger was found within two seconds of the recording.
    CorruptedTimingSignal,
    /// A timing channel was given as zero; channels are counted from one.
    InvalidTimingChannel,
    /// No audio host was set up before the instance was asked for.
    HostNotInitialized,
    /// The host lists no output device of the name asked for.
    DeviceNotFound,
    /// The device gave no default configuration for a direction.
    StreamConfigError,
}

/// Why no instance can be created from what the audio host answered; `None`
/// where one can. The host is looked at first, then the device, then its
/// two configurations.
pub open spec fn construction_error(
    host_initialized: bool,
    device_names: Seq<String>,
    device_name: Seq<char>,
    output_channels: Option<u16>,
    input_channels: Option<u16>,
) -> Option<AudioError> {
    if !host_initialized {
        Some(AudioError::HostNotInitialized)
    } else if forall|j: int| 0 <= j < device_names.len() ==> (#[trigger] device_names[j])@
        != device_name {
        Some(AudioError::DeviceNotFound)
    } else if output_channels.is_none() || input_channels.is_none() {
        Some(AudioError::StreamConfigError)
    } else {
        None
    }
}

/// The commands that wait on a controller once it has been made sure that
/// its stream runs: a Play is added where the last known state is Stopped.
pub open spec fn woken(controller: StreamController) -> Seq<StreamCommand> {
    if controller.state == StreamState::Stopped {
        controller.pending@.push(StreamCommand::Play)
    } else {
        controller.pending@
    }
}

/// The control state of one audio device: the two stream controllers, the
/// buffers shared with the stream callbacks, and the flag of each wait
/// pair.
#[derive(Debug)]
pub struct AudioInstance {
    pub sample_rate: SampleRate,
    pub sample_format: SampleFormat,
    pub input_buffer: SampleBuffer,
    pub output_buffer: Vec<i32>,
    pub input_stream_controller: StreamController,
    pub output_stream_controller: StreamController,
    pub play_wait: bool,
    pub record_wait: bool,
    pub number_of_output_channels: u16,
    pub number_of_input_channels: u16,
}

impl AudioInstance {
    /// The parts are well formed and each controller has its direction.
    pub open spec fn wf(&self) -> bool {
        &&& self.input_buffer.wf()
        &&& self.input_stream_controller.wf()
        &&& self.output_stream_controller.wf()
        &&& self.input_stream_controller.stream_type == StreamType::Input
        &&& self.output_stream_controller.stream_type == StreamType::Output
    }

    /// The settings that no call changes are the same in both.
    pub open spec fn same_settings(&self, other: &AudioInstance) -> bool {
        &&& self.sample_rate == other.sample_rate
        &&& self.sample_format == other.sample_format
        &&& self.number_of_output_channels == other.number_of_output_channels
        &&& self.number_of_input_channels == other.number_of_input_channels
    }

    /// The input side is the same in both.
    pub open spec fn same_input_side(&self, other: &AudioInstance) -> bool {
        &&& self.input_buffer == other.input_buffer
        &&& self.input_stream_controller == other.input_stream_controller
        &&& self.record_wait == other.record_wait
    }

    /// The output side is the same in both.
    pub open spec fn same_output_side(&self, other: &AudioInstance) -> bool {
        &&& self.output_buffer == other.output_buffer
        &&& self.output_stream_controller == other.output_stream_controller
        &&& self.play_wait == other.play_wait
    }

    /// A controller was made sure to run: where its last known state was
    /// Stopped a Play was submitted, and nothing else changed on it.
    pub open spec fn started(before: StreamController, after: StreamController) -> bool {
        &&& after.pending@ == woken(before)
        &&& after.state == before.state
        &&& after.handle == before.handle
        &&& after.stream_type == before.stream_type
    }

    /// The instance is as `with_channels` makes it for these settings.
    pub open spec fn is_fresh(
        &self,
        sample_rate: Option<SampleRate>,
        sample_format: Option<SampleFormat>,
        number_of_output_channels: u16,
        number_of_input_channels: u16,
    ) -> bool {
        &&& self.wf()
        &&& self.sample_rate == match sample_rate {
            Some(rate) => rate,
            None => DEFAULT_SAMPLE_RATE,
        }
        &&& self.sample_format == match sample_format {
            Some(format) => format,
            None => DEFAULT_SAMPLE_FORMAT,
        }
        &&& self.number_of_output_channels == number_of_output_channels
        &&& self.number_of_input_channels == number_of_input_channels
        &&& self.output_buffer@ == Seq::<i32>::empty()
        &&& self.input_buffer.samples@ == Seq::<i32>::empty()
        &&& self.input_buffer.capacity == 0
        &&& self.play_wait
        &&& !self.record_wait
        &&& self.output_stream_controller.state == StreamState::Stopped
        &&& self.input_stream_controller.state == StreamState::Stopped
        &&& self.output_stream_controller.handle == StreamHandle::Absent
        &&& self.input_stream_controller.handle == StreamHandle::Absent
        &&& self.output_stream_controller.pending@ == seq![StreamCommand::Play]
        &&& self.input_stream_controller.pending@ == seq![StreamCommand::Play]
    }

    /// Creates the instance for the device named `device_name`, from what
    /// the audio host answered: whether a host is there, the names of its
    /// output devices, and the channel counts of the device's default
    /// output and input configuration, each `None` where the query failed.
    ///
    /// The errors come as `construction_error` says, and then no controller
    /// is made and no Play is sent. Otherwise both controllers are created
    /// with a Play submitted, so that the streams are warm before the first
    /// call.
    pub fn new(
        sample_rate: Option<SampleRate>,
        sample_format: Option<SampleFormat>,
        host_initialized: bool,
        device_names: &Vec<String>,
        device_name: &String,
        output_channels: Option<u16>,
        input_channels: Option<u16>,
    ) -> (result: Result<Self, AudioError>)
        ensures
            match construction_error(
                host_initialized,
                device_names@,
                device_name@,
                output_channels,
                input_channels,
            ) {
                Some(error) => result matches Err(e) && e == error,
                None => result matches Ok(instance) && instance.is_fresh(
                    sample_rate,
                    sample_format,
                    output_channels.unwrap(),
                    input_channels.unwrap(),
                ),
            },
    {
        if !host_initialized {
            return Err(AudioError::HostNotInitialized);
        }
        if find_device(device_names, device_name).is_none() {
            return Err(AudioError::DeviceNotFound);
        }
        match (output_channels, input_channels) {
            (Some(outputs), Some(inputs)) => Ok(
                Self::with_channels(sample_rate, sample_format, outputs, inputs),
            ),
            _ => Err(AudioError::StreamConfigError),
        }
    }

    /// An instance for a device with the given channel counts. Both
    /// controllers are created with a Play submitted.
    pub fn with_channels(
        sample_rate: Option<SampleRate>,
        sample_format: Option<SampleFormat>,
        number_of_output_channels: u16,
        number_of_input_channels: u16,
    ) -> (instance: Self)
        ensures
            instance.is_fresh(
                sample_rate,
                sample_format,
                number_of_output_channels,
                number_of_input_channels,
            ),
    {
        let sample_rate = match sample_rate {
            Some(rate) => rate,
            None => DEFAULT_SAMPLE_RATE,
        };
        let sample_format = match sample_format {
            Some(format) => format,
            None => DEFAULT_SAMPLE_FORMAT,
        };
        let mut output_stream_controller = StreamController::new(StreamType::Output);
        output_stream_controller.send_command(StreamCommand::Play);
        let mut input_stream_controller = StreamController::new(StreamType::Input);
        input_stream_controller.send_command(StreamCommand::Play);
        assert(output_stream_controller.pending@ =~= seq![StreamCommand::Play]);
        assert(input_stream_controller.pending@ =~= seq![StreamCommand::Play]);
        AudioInstance {
            sample_rate,
            sample_format,
            input_buffer: SampleBuffer::with_capacity(0),
            output_buffer: Vec::new(),
            input_stream_controller,
            output_stream_controller,
            play_wait: true,
            record_wait: false,
            number_of_output_channels,
            number_of_input_channels,
        }
    }

    /// Starts the playback of a channel sample set.
    ///
    /// Data with another number of channels than the output device is
    /// refused, and nothing changes. Otherwise the output stream is made
    /// sure to run, the interleaved data becomes the output buffer and the
    /// play flag is raised; playback is over when the output callback
    /// clears the flag.
    pub fn play<T: Sample>(&mut self, output_data: Vec<Vec<T>>) -> (result: Result<
        (),
        AudioError,
    >)
        requires
            old(self).wf(),
            output_data@.len() == old(self).number_of_output_channels ==> is_channel_set(
                channel_samples(output_data@),
            ),
        ensures
            final(self).wf(),
            output_data@.len() != old(self).number_of_output_channels ==> result == Err::<
                (),
                AudioError,
            >(
                AudioError::ChannelCountMismatch {
                    expected: old(self).number_of_output_channels as usize,
                    actual: output_data@.len() as usize,
                },
            ) && *final(self) == *old(self),
            output_data@.len() == old(self).number_of_output_channels ==> {
                &&& result == Ok::<(), AudioError>(())
                &&& final(self).output_buffer@ == interleave(
                    to_integer_domain(channel_samples(output_data@)),
                )
                &&& final(self).play_wait
                &&& Self::started(
                    old(self).output_stream_controller,
                    final(self).output_stream_controller,
                )
                &&& final(self).same_settings(old(self))
                &&& final(self).same_input_side(old(self))
            },
    {
        if self.number_of_output_channels as usize != output_data.len() {
            return Err(
                AudioError::ChannelCountMismatch {
                    expected: self.number_of_output_channels as usize,
                    actual: output_data.len(),
                },
            );
        }
        self.ensure_stream_running(StreamType::Output);
        let flattened_output_data = self.flatten_output_data(output_data);
        self.output_buffer = flattened_output_data;
        self.play_wait = true;
        Ok(())
    }

    /// Makes sure that the stream of one direction runs: where its last
    /// known state is Stopped, a Play is submitted to its controller.
    pub fn ensure_stream_running(&mut self, stream_type: StreamType)
        requires
            old(self).wf(),
        ensures
            final(self).wf(),
            final(self).same_settings(old(self)),
            final(self).input_buffer == old(self).input_buffer,
            final(self).output_buffer == old(self).output_buffer,
            final(self).play_wait == old(self).play_wait,
            final(self).record_wait == old(self).record_wait,
            stream_type == StreamType::Input ==> Self::started(
                old(self).input_stream_controller,
                final(self).input_stream_controller,
            ) && final(self).output_stream_controller == old(self).output_stream_controller,
            stream_type == StreamType::Output ==> Self::started(
                old(self).output_stream_controller,
                final(self).output_stream_controller,
            ) && final(self).input_stream_controller == old(self).input_stream_controller,
    {
        match stream_type {
            StreamType::Input => {
                if self.input_stream_controller.get_state() == StreamState::Stopped {
                    self.input_stream_controller.send_command(StreamCommand::Play);
                }
            },
            StreamType::Output => {
                if self.output_stream_controller.get_state() == StreamState::Stopped {
                    self.output_stream_controller.send_command(StreamCommand::Play);
                }
            },
        }
    }

    /// Starts a recording of `frames` frames.
    ///
    /// The input stream is made sure to run, the input buffer is emptied
    /// and sized to `frames` samples for each input channel, and the record
    /// flag is raised; the recording is over when the input callback has
    /// filled the buffer and cleared the flag.
    pub fn record(&mut self, frames: usize)
        requires
            old(self).wf(),
            frames * old(self).number_of_input_channels <= usize::MAX,
        ensures
            final(self).wf(),
            final(self).input_buffer.samples@ == Seq::<i32>::empty(),
            final(self).input_buffer.capacity == frames * old(self).number_of_input_channels,
            final(self).record_wait,
            Self::started(old(self).input_stream_controller, final(self).input_stream_controller),
            final(self).same_settings(old(self)),
            final(self).same_output_side(old(self)),
    {
        self.ensure_stream_running(StreamType::Input);
        self.input_buffer = SampleBuffer::with_capacity(
            frames * (self.number_of_input_channels as usize),
        );
        self.record_wait = true;
    }

    /// Starts playback and recording together: the recording is as long as
    /// the first channel of the data.
    ///
    /// Data with another number of channels than the output device is
    /// refused, and nothing changes.
    pub fn play_record<T: Sample>(&mut self, output_data: Vec<Vec<T>>) -> (result: Result<
        (),
        AudioError,
    >)
        requires
            old(self).wf(),
            output_data@.len() == old(self).number_of_output_channels ==> is_channel_set(
                channel_samples(output_data@),
            ) && frame_count(channel_samples(output_data@)) * old(self).number_of_input_channels
                <= usize::MAX,
        ensures
            final(self).wf(),
            output_data@.len() != old(self).number_of_output_channels ==> result == Err::<
                (),
                AudioError,
            >(
                AudioError::ChannelCountMismatch {
                    expected: old(self).number_of_output_channels as usize,
                    actual: output_data@.len() as usize,
                },
            ) && *final(self) == *old(self),
            output_data@.len() == old(self).number_of_output_channels ==> {
                &&& result == Ok::<(), AudioError>(())
                &&& final(self).output_buffer@ == interleave(
                    to_integer_domain(channel_samples(output_data@)),
                )
                &&& final(self).play_wait
                &&& Self::started(
                    old(self).output_stream_controller,
                    final(self).output_stream_controller,
                )
                &&& final(self).input_buffer.samples@ == Seq::<i32>::empty()
                &&& final(self).input_buffer.capacity == frame_count(
                    channel_samples(output_data@),
                ) * old(self).number_of_input_channels
                &&& final(self).record_wait
                &&& Self::started(
                    old(self).input_stream_controller,
                    final(self).input_stream_controller,
                )
                &&& final(self).same_settings(old(self))
            },
    {
        if self.number_of_output_channels as usize != output_data.len() {
            return Err(
                AudioError::ChannelCountMismatch {
                    expected: self.number_of_output_channels as usize,
                    actual: output_data.len(),
                },
            );
        }
        let frames: usize = if output_data.len() == 0 {
            0
        } else {
            output_data[0].len()
        };
        self.ensure_stream_running(StreamType::Output);
        self.ensure_stream_running(StreamType::Input);
        let flattened_data = self.flatten_output_data(output_data);
        self.output_buffer = flattened_data;
        self.play_wait = true;
        self.input_buffer = SampleBuffer::with_capacity(
            frames * (self.number_of_input_channels as usize),
        );
        self.record_wait = true;
        Ok(())
    }

    /// Submits a Stop to both controllers, as is due before the instance is
    /// given up.
    pub fn stop(&mut self)
        requires
            old(self).wf(),
        ensures
            final(self).wf(),
            final(self).output_stream_controller.pending@ == old(
                self,
            ).output_stream_controller.pending@.push(StreamCommand::Stop),
            final(self).input_stream_controller.pending@ == old(
                self,
            ).input_stream_controller.pending@.push(StreamCommand::Stop),
            final(self).output_stream_controller.state == old(self).output_stream_controller.state,
            final(self).input_stream_controller.state == old(self).input_stream_controller.state,
            final(self).output_stream_controller.handle == old(
                self,
            ).output_stream_controller.handle,
            final(self).input_stream_controller.handle == old(self).input_stream_controller.handle,
            final(self).same_settings(old(self)),
            final(self).input_buffer == old(self).input_buffer,
            final(self).output_buffer == old(self).output_buffer,
            final(self).play_wait == old(self).play_wait,
            final(self).record_wait == old(self).record_wait,
    {
        self.output_stream_controller.send_command(StreamCommand::Stop);
        self.input_stream_controller.send_command(StreamCommand::Stop);
    }

    /// The recording that the input buffer holds, one sequence for each
    /// input channel.
    pub fn recorded_channels<T: Sample>(&self) -> (channels: Vec<Vec<T>>)
        ensures
            channel_samples(channels@) == from_integer_domain::<T>(
                deinterleave(self.input_buffer.samples@, self.number_of_input_channels as nat),
            ),
            channels@.len() == self.number_of_input_channels,
    {
        let recorded_data = self.input_buffer.samples.clone();
        self.convert_to_channel_data(recorded_data)
    }

    /// Interleaves a channel sample set: frame by frame, and within a frame
    /// channel by channel.
    pub fn flatten_output_data<T: Sample>(&self, output_data: Vec<Vec<T>>) -> (flat: Vec<i32>)
        requires
            is_channel_set(channel_samples(output_data@)),
        ensures
            flat@ == interleave(to_integer_domain(channel_samples(output_data@))),
    {
        let ghost x = to_integer_domain(channel_samples(output_data@));
        proof {
            lemma_integer_domain_shape(channel_samples(output_data@));
        }
        let channels = output_data.len();
        let frames: usize = if channels == 0 {
            0
        } else {
            output_data[0].len()
        };
        let mut flat: Vec<i32> = Vec::new();
        let mut f: usize = 0;
        while f < frames
            invariant
                x == to_integer_domain(channel_samples(output_data@)),
                is_channel_set(channel_samples(output_data@)),
                is_channel_set(x),
                channels == output_data@.len(),
                frames == frame_count(x),
                f <= frames,
                flat@.len() == f * channels,
                forall|i: int|
                    0 <= i < flat@.len() ==> flat@[i] == x[i % (channels as int)][i / (
                    channels as int)],
            decreases frames - f,
        {
            let mut c: usize = 0;
            while c < channels
                invariant
                    x == to_integer_domain(channel_samples(output_data@)),
                    is_channel_set(channel_samples(output_data@)),
                    is_channel_set(x),
                    channels == output_data@.len(),
                    frames == frame_count(x),
                    f < frames,
                    c <= channels,
                    flat@.len() == f * channels + c,
                    forall|i: int|
                        0 <= i < flat@.len() ==> flat@[i] == x[i % (channels as int)][i / (
                        channels as int)],
                decreases channels - c,
            {
                proof {
                    lemma_slot(f as int, c as int, channels as int);
                    let given = channel_samples(output_data@);
                    assert(given[c as int] == output_data@[c as int]@);
                    assert(given[c as int].len() == given[0].len());
                    assert(x[c as int].len() == x[0].len());
                    assert(x[c as int][f as int] == output_data@[c as int]@[f as int].to_i32_spec());
                }
                flat.push(output_data[c][f].to_i32());
                c += 1;
            }
            proof {
                assert((f + 1) * channels == f * channels + channels) by (nonlinear_arith);
            }
            f += 1;
        }
        assert(flat@ =~= interleave(x));
        flat
    }

    /// Takes an interleaved buffer apart into one sequence for each input
    /// channel. Samples after the last whole frame are left out.
    pub fn convert_to_channel_data<T: Sample>(&self, input_buffer: Vec<i32>) -> (channel_recordings:
        Vec<Vec<T>>)
        ensures
            channel_samples(channel_recordings@) == from_integer_domain::<T>(
                deinterleave(input_buffer@, self.number_of_input_channels as nat),
            ),
            channel_recordings@.len() == self.number_of_input_channels,
    {
        let channels = self.number_of_input_channels as usize;
        let mut channel_recordings: Vec<Vec<T>> = Vec::new();
        if channels == 0 {
            assert(channel_samples(channel_recordings@) =~= from_integer_domain::<T>(
                deinterleave(input_buffer@, 0),
            ));
            return channel_recordings;
        }
        let frames: usize = input_buffer.len() / channels;
        let ghost taken = deinterleave(input_buffer@, channels as nat);
        let ghost want = from_integer_domain::<T>(taken);
        let mut c: usize = 0;
        while c < channels
            invariant
                0 < channels,
                c <= channels,
                frames == input_buffer@.len() / (channels as nat),
                taken == deinterleave(input_buffer@, channels as nat),
                want == from_integer_domain::<T>(taken),
                channel_recordings@.len() == c,
                forall|k: int| 0 <= k < c ==> (#[trigger] channel_recordings@[k])@ == want[k],
            decreases channels - c,
        {
            let mut channel: Vec<T> = Vec::new();
            let mut f: usize = 0;
            while f < frames
                invariant
                    0 < channels,
                    c < channels,
                    f <= frames,
                    frames == input_buffer@.len() / (channels as nat),
                    taken == deinterleave(input_buffer@, channels as nat),
                    want == from_integer_domain::<T>(taken),
                    channel@.len() == f,
                    forall|k: int| 0 <= k < f ==> channel@[k] == want[c as int][k],
                decreases frames - f,
            {
                proof {
                    lemma_slot_in_range(f as int, c as int, frames as int, channels as int);
                    assert(frames * channels <= input_buffer@.len()) by (nonlinear_arith)
                        requires
                            frames == input_buffer@.len() / (channels as nat),
                            0 < channels,
                    ;
                    assert(0 <= f * channels) by (nonlinear_arith)
                        requires
                            0 <= f,
                            0 <= channels,
                    ;
                    assert(f * channels + c < input_buffer@.len());
                    assert(input_buffer@.len() == input_buffer.len());
                }
                channel.push(T::from_i32(input_buffer[f * channels + c]));
                f += 1;
            }
            assert(channel@ =~= want[c as int]);
            channel_recordings.push(channel);
            c += 1;
        }
        assert(channel_samples(channel_recordings@) =~= want);
        channel_recordings
    }
}

} // verus!
