use vstd::prelude::*;
use crate::audio_class::{lemma_integer_samples, AudioError, AudioInstance};
use crate::channels::{
    channel_samples, deinterleave, frame_count, interleave, is_channel_set,
    lemma_deinterleave_shape, silence,
};
use crate::stream_controller::{input_run, lemma_recording_run};
use crate::methods::{append_samples, format_signal_for_multichannel, silent_samples, solo_channel};

verus! {

/// The samples at the start of a recording that are taken for switch-on
/// noise and never count as a trigger.
pub const NOISE_WINDOW: usize = 24000;

/// The latest index at which the timing trigger may arrive.
pub const LATEST_TRIGGER: usize = 96000;

/// The samples between the trigger and the start of the payload.
pub const TRIGGER_OFFSET: usize = 15;

/// `signal` repeated from its start until `len` samples are filled.
pub open spec fn tiled(signal: Seq<i32>, len: nat) -> Seq<i32> {
    if signal.len() == 0 {
        Seq::empty()
    } else {
        Seq::new(len, |i: int| signal[i % (signal.len() as int)])
    }
}

/// A signal tiled to its own length is the signal.
pub proof fn lemma_tiled_whole(signal: Seq<i32>)
    ensures
        tiled(signal, signal.len()) == signal,
{
    if signal.len() > 0 {
        assert forall|i: int| 0 <= i < signal.len() implies tiled(signal, signal.len())[i]
            == signal[i] by {
            vstd::arithmetic::div_mod::lemma_small_mod(i as nat, signal.len());
        }
    }
    assert(tiled(signal, signal.len()) =~= signal);
}

/// Channel `c` of the calibration signal: half a second of silence, then
/// the chirp on the timing channel, then the tiled training signal on the
/// training channel; silence wherever a segment is not placed.
pub open spec fn calibration_channel(
    c: int,
    training_signal: Seq<i32>,
    payload_len: nat,
    training_index: int,
    timing_index: int,
    fs: u32,
    chirp: Seq<i32>,
) -> Seq<i32> {
    silence((fs / 2) as nat) + (if c == timing_index {
        chirp
    } else {
        silence(chirp.len())
    }) + (if c == training_index {
        tiled(training_signal, payload_len)
    } else {
        silence(payload_len)
    })
}

/// The calibration signal for `output_channels` channels.
pub open spec fn calibration_signal(
    training_signal: Seq<i32>,
    payload_len: nat,
    training_index: int,
    timing_index: int,
    fs: u32,
    output_channels: nat,
    chirp: Seq<i32>,
) -> Seq<Seq<i32>> {
    Seq::new(
        output_channels,
        |c: int|
            calibration_channel(
                c,
                training_signal,
                payload_len,
                training_index,
                timing_index,
                fs,
                chirp,
            ),
    )
}

/// Index `i` of a loopback recording is a trigger: it lies after the noise
/// window and its sample, divided by the largest sample after the window,
/// is at least one fifth. A recording without a positive sample after the
/// window has no trigger.
pub open spec fn is_trigger(loopback: Seq<i32>, i: int) -> bool {
    &&& NOISE_WINDOW <= i < loopback.len()
    &&& loopback[i] > 0
    &&& forall|j: int| NOISE_WINDOW <= j < loopback.len() ==> #[trigger] loopback[j] <= 5 * loopback[i]
}

/// Index `i` is the last trigger of the recording.
pub open spec fn is_last_trigger(loopback: Seq<i32>, i: int) -> bool {
    &&& is_trigger(loopback, i)
    &&& forall|j: int| i < j ==> !#[trigger] is_trigger(loopback, j)
}

/// The last trigger, where the recording has one.
pub open spec fn last_trigger(loopback: Seq<i32>) -> int {
    choose|i: int| is_last_trigger(loopback, i)
}

/// The sample at which the aligned recording starts: the fixed offset after
/// the last trigger. There is none where the recording has no trigger or
/// its last trigger comes after the latest index allowed.
pub open spec fn start_sample(loopback: Seq<i32>) -> Option<int> {
    if (exists|i: int| is_last_trigger(loopback, i)) && last_trigger(loopback) <= LATEST_TRIGGER {
        Some(last_trigger(loopback) + TRIGGER_OFFSET)
    } else {
        None
    }
}

/// A recording has at most one last trigger.
pub proof fn lemma_last_trigger_unique(loopback: Seq<i32>, i: int)
    requires
        is_last_trigger(loopback, i),
    ensures
        last_trigger(loopback) == i,
{
    let j = last_trigger(loopback);
    assert(is_last_trigger(loopback, j));
    if i < j {
        assert(!is_trigger(loopback, j));
    }
    if j < i {
        assert(!is_trigger(loopback, i));
    }
}

/// A recording that is silent but for one positive sample, which lies after
/// the noise window and no later than the latest trigger index, starts the
/// fixed offset after that sample.
pub proof fn lemma_single_peak_start(loopback: Seq<i32>, k: int)
    requires
        NOISE_WINDOW < k <= LATEST_TRIGGER,
        k < loopback.len(),
        loopback[k] > 0,
        forall|i: int| 0 <= i < loopback.len() && i != k ==> loopback[i] == 0,
    ensures
        start_sample(loopback) == Some(k + TRIGGER_OFFSET),
{
    assert(is_trigger(loopback, k));
    assert forall|j: int| k < j implies !#[trigger] is_trigger(loopback, j) by {
        if j < loopback.len() {
            assert(loopback[j] == 0);
        }
    }
    assert(is_last_trigger(loopback, k));
    lemma_last_trigger_unique(loopback, k);
}

/// A recording in which no sample after the noise window is positive has no
/// start sample.
pub proof fn lemma_quiet_has_no_start(loopback: Seq<i32>)
    requires
        forall|i: int| NOISE_WINDOW <= i < loopback.len() ==> loopback[i] <= 0,
    ensures
        start_sample(loopback).is_none(),
{
    assert forall|i: int| !is_last_trigger(loopback, i) by {
        if NOISE_WINDOW <= i < loopback.len() {
            assert(loopback[i] <= 0);
        }
    }
}

/// A recording with a trigger after the latest index allowed has no start
/// sample.
pub proof fn lemma_late_trigger_has_no_start(loopback: Seq<i32>, k: int)
    requires
        is_trigger(loopback, k),
        k > LATEST_TRIGGER,
    ensures
        start_sample(loopback).is_none(),
{
    if exists|i: int| is_last_trigger(loopback, i) {
        let j = last_trigger(loopback);
        assert(is_last_trigger(loopback, j));
        if j < k {
            assert(!is_trigger(loopback, k));
        }
    }
}

/// A channel sample set with the first `start` samples dropped from every
/// channel; a channel shorter than that is left empty.
pub open spec fn aligned(x: Seq<Seq<i32>>, start: int) -> Seq<Seq<i32>> {
    Seq::new(
        x.len(),
        |c: int|
            if start <= x[c].len() {
                x[c].skip(start)
            } else {
                Seq::empty()
            },
    )
}

/// Alignment keeps the channels equally long: each loses `start` samples,
/// or all of them where it has fewer.
pub proof fn lemma_aligned_is_channel_set(x: Seq<Seq<i32>>, start: int)
    requires
        is_channel_set(x),
        0 <= start,
    ensures
        is_channel_set(aligned(x, start)),
        aligned(x, start).len() == x.len(),
        forall|c: int|
            0 <= c < x.len() ==> (#[trigger] aligned(x, start)[c]).len() == if start
                <= x[0].len() {
                x[0].len() - start
            } else {
                0
            },
{
    assert forall|c: int| 0 <= c < x.len() implies (#[trigger] aligned(x, start)[c]).len() == if start
        <= x[0].len() {
        x[0].len() - start
    } else {
        0
    } by {
        assert(x[c].len() == x[0].len());
    }
}

/// Every run of deliveries that ends a recording of `frames` frames, once
/// aligned on a channel with a start sample: each input channel comes back
/// from its start sample on, and all have the same reduced length.
pub proof fn lemma_aligned_run(
    frames: nat,
    channels: nat,
    deliveries: Seq<Seq<i32>>,
    timing_channel: int,
)
    requires
        1 <= timing_channel <= channels,
    ensures
        ({
            let (buffer, recording) = input_run(Seq::empty(), frames * channels, true, deliveries);
            let recorded = deinterleave(buffer, channels);
            !recording ==> (start_sample(recorded[timing_channel - 1]) matches Some(start) ==> {
                let out = aligned(recorded, start);
                &&& out.len() == channels
                &&& forall|c: int|
                    0 <= c < channels ==> #[trigger] out[c] == if start <= frames {
                        recorded[c].skip(start)
                    } else {
                        Seq::empty()
                    }
                &&& forall|c: int|
                    0 <= c < channels ==> (#[trigger] out[c]).len() == if start <= frames {
                        frames - start
                    } else {
                        0
                    }
            })
        }),
{
    let (buffer, recording) = input_run(Seq::empty(), frames * channels, true, deliveries);
    lemma_recording_run(Seq::empty(), frames * channels, deliveries);
    if !recording {
        lemma_deinterleave_shape(buffer, frames, channels);
    }
}

/// `signal` repeated from its start until `len` samples are filled.
pub fn tile_signal(signal: &Vec<i32>, len: usize) -> (payload: Vec<i32>)
    requires
        len > 0 ==> signal@.len() > 0,
    ensures
        payload@ == tiled(signal@, len as nat),
{
    let mut payload: Vec<i32> = Vec::new();
    let mut i: usize = 0;
    while i < len
        invariant
            i <= len,
            len > 0 ==> signal@.len() > 0,
            payload@.len() == i,
            forall|j: int| 0 <= j < i ==> payload@[j] == signal@[j % (signal@.len() as int)],
        decreases len - i,
    {
        payload.push(signal[i % signal.len()]);
        i += 1;
    }
    assert(payload@ =~= tiled(signal@, len as nat));
    payload
}

/// The samples of `channel` from index `start` on; none where the channel
/// is shorter.
pub fn samples_from(channel: &Vec<i32>, start: usize) -> (rest: Vec<i32>)
    ensures
        rest@ == if start <= channel@.len() {
            channel@.skip(start as int)
        } else {
            Seq::empty()
        },
{
    let mut rest: Vec<i32> = Vec::new();
    let mut i: usize = start;
    while i < channel.len()
        invariant
            start <= i,
            start <= channel@.len() ==> i <= channel@.len() && rest@ == channel@.subrange(
                start as int,
                i as int,
            ),
            start > channel@.len() ==> rest@ == Seq::<i32>::empty(),
        decreases channel@.len() - i,
    {
        rest.push(channel[i]);
        assert(channel@.subrange(start as int, i + 1) =~= channel@.subrange(
            start as int,
            i as int,
        ).push(channel@[i as int]));
        i += 1;
    }
    if start <= channel.len() {
        assert(channel@.subrange(start as int, i as int) =~= channel@.skip(start as int));
    }
    rest
}

impl AudioInstance {
    /// Starts playback and recording of the calibration signal for a
    /// training signal: the payload is the training signal, so that every
    /// channel holds the gap, the chirp and as many samples as the training
    /// signal has. Channels are counted from one.
    pub fn aligned_play_record(
        &mut self,
        training_signal: Vec<i32>,
        training_channel: usize,
        timing_channel_out: usize,
        number_of_output_channels: usize,
        chirp: &Vec<i32>,
    ) -> (result: Result<(), AudioError>)
        requires
            old(self).wf(),
            1 <= training_channel <= number_of_output_channels,
            1 <= timing_channel_out <= number_of_output_channels,
            (old(self).sample_rate.spec_hz() / 2 + chirp@.len() + training_signal@.len()) * old(
                self,
            ).number_of_input_channels <= usize::MAX,
        ensures
            final(self).wf(),
            number_of_output_channels != old(self).number_of_output_channels ==> result == Err::<
                (),
                AudioError,
            >(
                AudioError::ChannelCountMismatch {
                    expected: old(self).number_of_output_channels as usize,
                    actual: number_of_output_channels,
                },
            ) && *final(self) == *old(self),
            number_of_output_channels == old(self).number_of_output_channels ==> {
                let fs = old(self).sample_rate.spec_hz();
                let signal = calibration_signal(
                    training_signal@,
                    training_signal@.len(),
                    training_channel - 1,
                    timing_channel_out - 1,
                    fs,
                    number_of_output_channels as nat,
                    chirp@,
                );
                &&& result == Ok::<(), AudioError>(())
                &&& final(self).output_buffer@ == interleave(signal)
                &&& final(self).play_wait
                &&& Self::started(
                    old(self).output_stream_controller,
                    final(self).output_stream_controller,
                )
                &&& final(self).input_buffer.samples@ == Seq::<i32>::empty()
                &&& final(self).input_buffer.capacity == frame_count(signal) * old(
                    self,
                ).number_of_input_channels
                &&& final(self).record_wait
                &&& Self::started(
                    old(self).input_stream_controller,
                    final(self).input_stream_controller,
                )
                &&& final(self).same_settings(old(self))
            },
    {
        let fs = self.sample_rate.hz();
        let assembled = self.assemble_signal(
            &training_signal,
            training_signal.len(),
            training_channel,
            timing_channel_out,
            fs,
            number_of_output_channels,
            chirp,
        );
        match assembled {
            Ok(output_data) => {
                proof {
                    let signal = channel_samples(output_data@);
                    let payload_len = training_signal@.len();
                    assert forall|c: int| 0 <= c < signal.len() implies (#[trigger] signal[c]).len()
                        == (fs / 2) as nat + chirp@.len() + payload_len by {
                        assert(signal[c] == calibration_channel(
                            c,
                            training_signal@,
                            payload_len,
                            training_channel - 1,
                            timing_channel_out - 1,
                            fs,
                            chirp@,
                        ));
                    }
                    lemma_integer_samples(signal);
                    let frames = frame_count(signal) as int;
                    let bound = (fs / 2) as int + chirp@.len() + training_signal@.len();
                    let inputs = self.number_of_input_channels as int;
                    assert(frames * inputs <= bound * inputs) by (nonlinear_arith)
                        requires
                            0 <= frames <= bound,
                            0 <= inputs,
                    ;
                }
                self.play_record(output_data)
            },
            Err(error) => Err(error),
        }
    }

    /// Assembles the calibration signal with `duration` seconds of payload;
    /// see `assemble_signal`.
    pub fn assemble_signal_with_loopback(
        &self,
        training_signal: &Vec<i32>,
        duration: usize,
        training_channel: usize,
        timing_output: usize,
        fs: u32,
        number_of_output_channels: usize,
        chirp: &Vec<i32>,
    ) -> (result: Result<Vec<Vec<i32>>, AudioError>)
        requires
            1 <= training_channel <= number_of_output_channels,
            1 <= timing_output <= number_of_output_channels,
            duration * fs <= usize::MAX,
            duration * fs > 0 ==> training_signal@.len() > 0,
        ensures
            result matches Ok(channels) && channel_samples(channels@) == calibration_signal(
                training_signal@,
                (duration * fs) as nat,
                training_channel - 1,
                timing_output - 1,
                fs,
                number_of_output_channels as nat,
                chirp@,
            ),
    {
        self.assemble_signal(
            training_signal,
            duration * (fs as usize),
            training_channel,
            timing_output,
            fs,
            number_of_output_channels,
            chirp,
        )
    }

    /// Assembles the calibration signal: on every channel half a second of
    /// silence, then the chirp, then `payload_len` samples of payload. The
    /// chirp stands on the timing channel and the training signal, repeated
    /// to fill the payload, on the training channel; every other segment is
    /// silence. Channels are counted from one.
    pub fn assemble_signal(
        &self,
        training_signal: &Vec<i32>,
        payload_len: usize,
        training_channel: usize,
        timing_output: usize,
        fs: u32,
        number_of_output_channels: usize,
        chirp: &Vec<i32>,
    ) -> (result: Result<Vec<Vec<i32>>, AudioError>)
        requires
            1 <= training_channel <= number_of_output_channels,
            1 <= timing_output <= number_of_output_channels,
            payload_len > 0 ==> training_signal@.len() > 0,
        ensures
            result matches Ok(channels) && channel_samples(channels@) == calibration_signal(
                training_signal@,
                payload_len as nat,
                training_channel - 1,
                timing_output - 1,
                fs,
                number_of_output_channels as nat,
                chirp@,
            ),
    {
        let timing_index = timing_output - 1;
        let training_index = training_channel - 1;
        let payload = tile_signal(training_signal, payload_len);
        let ghost payload_samples = payload@;
        assert(payload_samples.len() == payload_len);
        let training_vec = format_signal_for_multichannel(
            payload,
            training_index,
            number_of_output_channels,
        );
        let chirp_copy = samples_from(chirp, 0);
        assert(chirp_copy@ =~= chirp@);
        let chirp_vec = format_signal_for_multichannel(
            chirp_copy,
            timing_index,
            number_of_output_channels,
        );
        let ghost want = calibration_signal(
            training_signal@,
            payload_len as nat,
            training_index as int,
            timing_index as int,
            fs,
            number_of_output_channels as nat,
            chirp@,
        );
        let mut assembled: Vec<Vec<i32>> = Vec::new();
        let mut c: usize = 0;
        while c < number_of_output_channels
            invariant
                c <= number_of_output_channels,
                payload_samples == tiled(training_signal@, payload_len as nat),
                payload_samples.len() == payload_len,
                channel_samples(training_vec@) == solo_channel(
                    payload_samples,
                    training_index as int,
                    number_of_output_channels as nat,
                ),
                channel_samples(chirp_vec@) == solo_channel(
                    chirp@,
                    timing_index as int,
                    number_of_output_channels as nat,
                ),
                want == calibration_signal(
                    training_signal@,
                    payload_len as nat,
                    training_index as int,
                    timing_index as int,
                    fs,
                    number_of_output_channels as nat,
                    chirp@,
                ),
                assembled@.len() == c,
                forall|k: int| 0 <= k < c ==> (#[trigger] assembled@[k])@ == want[k],
            decreases number_of_output_channels - c,
        {
            let mut gap = silent_samples((fs / 2) as usize);
            proof {
                assert(channel_samples(training_vec@).len() == number_of_output_channels);
                assert(channel_samples(chirp_vec@).len() == number_of_output_channels);
                assert(training_vec@.len() == number_of_output_channels);
                assert(chirp_vec@.len() == number_of_output_channels);
                assert(channel_samples(chirp_vec@)[c as int] == chirp_vec@[c as int]@);
                assert(channel_samples(training_vec@)[c as int] == training_vec@[c as int]@);
            }
            append_samples(&mut gap, &chirp_vec[c]);
            append_samples(&mut gap, &training_vec[c]);
            proof {
                if payload_len == 0 {
                    assert(tiled(training_signal@, 0) =~= silence(0));
                }
                assert(gap@ =~= want[c as int]);
            }
            assembled.push(gap);
            c += 1;
        }
        assert(channel_samples(assembled@) =~= want);
        Ok(assembled)
    }

    /// Finds the sample at which the aligned recording starts, from the
    /// recording of the loopback channel.
    pub fn find_start(&self, loopback: &Vec<i32>) -> (result: Result<usize, AudioError>)
        ensures
            result == match start_sample(loopback@) {
                Some(start) => Ok::<usize, AudioError>(start as usize),
                None => Err::<usize, AudioError>(AudioError::CorruptedTimingSignal),
            },
            start_sample(loopback@) matches Some(start) ==> start <= LATEST_TRIGGER
                + TRIGGER_OFFSET,
    {
        let len = loopback.len();
        let ghost s = loopback@;
        let mut peak: i32 = 0;
        let mut i: usize = NOISE_WINDOW;
        while i < len
            invariant
                s == loopback@,
                len == s.len(),
                NOISE_WINDOW <= i,
                peak >= 0,
                forall|j: int| NOISE_WINDOW <= j < i && j < len ==> s[j] <= peak,
                peak > 0 ==> exists|j: int| NOISE_WINDOW <= j < i && j < len && s[j] == peak,
            decreases len - i,
        {
            if loopback[i] > peak {
                peak = loopback[i];
            }
            i += 1;
        }
        if peak == 0 {
            proof {
                lemma_quiet_has_no_start(s);
            }
            return Err(AudioError::CorruptedTimingSignal);
        }
        let ghost top = choose|j: int| NOISE_WINDOW <= j < len && s[j] == peak;
        let mut last: usize = len - 1;
        while 5 * (loopback[last] as i64) < peak as i64
            invariant
                s == loopback@,
                len == s.len(),
                NOISE_WINDOW <= top <= last < len,
                s[top] == peak,
                peak > 0,
                forall|j: int| NOISE_WINDOW <= j < len ==> s[j] <= peak,
                forall|j: int| last < j < len ==> 5 * s[j] < peak,
            decreases last,
        {
            last -= 1;
        }
        proof {
            assert(is_trigger(s, last as int));
            assert forall|j: int| last < j implies !#[trigger] is_trigger(s, j) by {
                if j < len {
                    assert(s[top] <= 5 * s[j] || !is_trigger(s, j));
                }
            }
            assert(is_last_trigger(s, last as int));
            lemma_last_trigger_unique(s, last as int);
        }
        if last > LATEST_TRIGGER {
            return Err(AudioError::CorruptedTimingSignal);
        }
        Ok(last + TRIGGER_OFFSET)
    }

    /// Aligns a recording to the timing trigger found on its channel
    /// `timing_channel`, counted from one: the samples before the start
    /// sample are dropped from every channel, in place, and the aligned
    /// recording is returned. Where no start sample is found the recording
    /// is left as it is.
    pub fn align_with_loopback(&self, array: &mut Vec<Vec<i32>>, timing_channel: usize) -> (result:
        Result<Vec<Vec<i32>>, AudioError>)
        requires
            timing_channel <= old(array)@.len(),
        ensures
            timing_channel == 0 ==> result == Err::<Vec<Vec<i32>>, AudioError>(
                AudioError::InvalidTimingChannel,
            ) && *final(array) == *old(array),
            timing_channel > 0 ==> match start_sample(old(array)@[timing_channel - 1]@) {
                Some(start) => {
                    &&& result matches Ok(channels) && channel_samples(channels@) == aligned(
                        channel_samples(old(array)@),
                        start,
                    )
                    &&& channel_samples(final(array)@) == aligned(
                        channel_samples(old(array)@),
                        start,
                    )
                },
                None => result == Err::<Vec<Vec<i32>>, AudioError>(
                    AudioError::CorruptedTimingSignal,
                ) && *final(array) == *old(array),
            },
    {
        if timing_channel == 0 {
            return Err(AudioError::InvalidTimingChannel);
        }
        let start_sample = match self.find_start(&array[timing_channel - 1]) {
            Ok(start) => start,
            Err(error) => {
                return Err(error);
            },
        };
        let ghost want = aligned(channel_samples(old(array)@), start_sample as int);
        let count = array.len();
        let mut channels: Vec<Vec<i32>> = Vec::new();
        let mut c: usize = 0;
        while c < count
            invariant
                c <= count,
                count == old(array)@.len(),
                array@.len() == count,
                want == aligned(channel_samples(old(array)@), start_sample as int),
                channels@.len() == c,
                forall|k: int| 0 <= k < c ==> (#[trigger] channels@[k])@ == want[k],
                forall|k: int| 0 <= k < c ==> (#[trigger] array@[k])@ == want[k],
                forall|k: int| c <= k < count ==> #[trigger] array@[k] == old(array)@[k],
            decreases count - c,
        {
            let ghost before = array@;
            let rest = samples_from(&array[c], start_sample);
            let copy = samples_from(&array[c], start_sample);
            assert(channel_samples(old(array)@)[c as int] == old(array)@[c as int]@);
            array[c] = rest;
            assert(array@ == before.update(c as int, rest));
            channels.push(copy);
            c += 1;
        }
        assert(channel_samples(channels@) =~= want);
        assert(channel_samples(array@) =~= want);
        Ok(channels)
    }

    /// The recording that the input buffer holds, aligned to the timing
    /// trigger on input channel `timing_channel_in`, counted from one.
    pub fn aligned_recording(&self, timing_channel_in: usize) -> (result: Result<
        Vec<Vec<i32>>,
        AudioError,
    >)
        requires
            timing_channel_in <= self.number_of_input_channels,
        ensures
            timing_channel_in == 0 ==> result == Err::<Vec<Vec<i32>>, AudioError>(
                AudioError::InvalidTimingChannel,
            ),
            timing_channel_in > 0 ==> {
                let recorded = deinterleave(
                    self.input_buffer.samples@,
                    self.number_of_input_channels as nat,
                );
                match start_sample(recorded[timing_channel_in - 1]) {
                    Some(start) => result matches Ok(channels) && channel_samples(channels@)
                        == aligned(recorded, start),
                    None => result == Err::<Vec<Vec<i32>>, AudioError>(
                        AudioError::CorruptedTimingSignal,
                    ),
                }
            },
    {
        let mut recorded_data = self.recorded_channels::<i32>();
        proof {
            let recorded = channel_samples(recorded_data@);
            lemma_integer_samples(
                deinterleave(self.input_buffer.samples@, self.number_of_input_channels as nat),
            );
            assert(recorded.len() == self.number_of_input_channels);
            if timing_channel_in > 0 {
                assert(recorded[timing_channel_in - 1] == recorded_data@[timing_channel_in - 1]@);
            }
        }
        self.align_with_loopback(&mut recorded_data, timing_channel_in)
    }
}

} // verus!
