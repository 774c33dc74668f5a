use vstd::prelude::*;
use hound::Error;
use crate::channels::{channel_samples, silence};

verus! {

/// A signal on one channel out of `output_channels`, and silence of the
/// same length on every other.
pub open spec fn solo_channel(signal: Seq<i32>, playback_index: int, output_channels: nat) -> Seq<
    Seq<i32>,
> {
    Seq::new(
        output_channels,
        |c: int|
            if c == playback_index {
                signal
            } else {
                silence(signal.len())
            },
    )
}

/// `len` samples of silence.
pub fn silent_samples(len: usize) -> (samples: Vec<i32>)
    ensures
        samples@ == silence(len as nat),
{
    let mut samples: Vec<i32> = Vec::new();
    let mut i: usize = 0;
    while i < len
        invariant
            i <= len,
            samples@.len() == i,
            forall|j: int| 0 <= j < i ==> samples@[j] == 0i32,
        decreases len - i,
    {
        samples.push(0);
        i += 1;
    }
    assert(samples@ =~= silence(len as nat));
    samples
}

/// Appends the samples of `tail` to `samples`.
pub fn append_samples(samples: &mut Vec<i32>, tail: &Vec<i32>)
    ensures
        final(samples)@ == old(samples)@ + tail@,
{
    let mut i: usize = 0;
    while i < tail.len()
        invariant
            i <= tail@.len(),
            samples@ == old(samples)@ + tail@.take(i as int),
        decreases tail@.len() - i,
    {
        samples.push(tail[i]);
        assert(tail@.take(i + 1) =~= tail@.take(i as int).push(tail@[i as int]));
        assert(samples@ =~= old(samples)@ + tail@.take(i + 1));
        i += 1;
    }
    assert(tail@.take(tail@.len() as int) =~= tail@);
}

/// Convert from a single channel signal to a multi-channel signal.
///
/// Puts the signal in the channel at `playback_index`, counted from zero,
/// and silence in all other channels.
pub fn format_signal_for_multichannel(
    signal: Vec<i32>,
    playback_index: usize,
    output_channels: usize,
) -> (multi_channel_data: Vec<Vec<i32>>)
    requires
        playback_index < output_channels,
    ensures
        channel_samples(multi_channel_data@) == solo_channel(
            signal@,
            playback_index as int,
            output_channels as nat,
        ),
        multi_channel_data@.len() == output_channels,
{
    let len = signal.len();
    let mut multi_channel_data: Vec<Vec<i32>> = Vec::new();
    let mut c: usize = 0;
    while c < output_channels
        invariant
            c <= output_channels,
            len == signal@.len(),
            multi_channel_data@.len() == c,
            forall|k: int|
                0 <= k < c ==> (#[trigger] multi_channel_data@[k])@ == silence(len as nat),
        decreases output_channels - c,
    {
        let channel = silent_samples(len);
        multi_channel_data.push(channel);
        c += 1;
    }
    multi_channel_data[playback_index] = signal;
    assert(channel_samples(multi_channel_data@) =~= solo_channel(
        signal@,
        playback_index as int,
        output_channels as nat,
    ));
    multi_channel_data
}

/// The place of the first device of the given name in a list of device
/// names, where there is one.
pub fn find_device(names: &Vec<String>, device_name: &String) -> (found: Option<usize>)
    ensures
        match found {
            Some(index) => {
                &&& index < names@.len()
                &&& names@[index as int]@ == device_name@
                &&& forall|j: int| 0 <= j < index ==> (#[trigger] names@[j])@ != device_name@
            },
            None => forall|j: int| 0 <= j < names@.len() ==> (#[trigger] names@[j])@ != device_name@,
        },
{
    let mut i: usize = 0;
    while i < names.len()
        invariant
            i <= names@.len(),
            forall|j: int| 0 <= j < i ==> (#[trigger] names@[j])@ != device_name@,
        decreases names@.len() - i,
    {
        if names[i] == *device_name {
            return Some(i);
        }
        i += 1;
    }
    None
}

/// How the samples of a WAVE stream are stored.
#[derive(Clone, Copy, Debug, PartialEq, Eq, Structural)]
pub enum WavSampleKind {
    /// Floating values, normally from -1.0 to 1.0.
    Float,
    /// Integer values.
    Int,
}

/// What the header of a WAVE stream declares.
#[derive(Clone, Copy, Debug, PartialEq, Eq, Structural)]
pub struct WavHeader {
    pub channels: u16,
    pub sample_rate: u32,
    pub bits_per_sample: u16,
    pub sample_format: WavSampleKind,
}

/// Why a WAVE stream gave no samples.
#[derive(Debug, PartialEq, Eq)]
pub enum WavError {
    /// The stream ended early or could not be read; the reason is given.
    Io(String),
    /// The stream is not well-formed WAVE data; the reason is given.
    Format(String),
    /// A sample has more bits than the destination type.
    TooWide,
    /// The number of samples is not a multiple of the number of channels.
    UnfinishedSample,
    /// The format is not supported.
    Unsupported,
    /// The samples are not of the kind that was asked for.
    InvalidSampleFormat,
    /// The stream has another sample rate than the audio interface.
    SampleRateMismatch { expected: u32, found: u32 },
    /// The stream holds 32-bit floating samples, which have to be scaled to
    /// the integer domain by the caller.
    FloatSamples,
}

/// The header that the WAVE decoder reads from a byte stream, or the error
/// with which it refuses the stream.
pub uninterp spec fn wav_header(bytes: Seq<u8>) -> Result<WavHeader, WavError>;

/// The samples that the WAVE decoder reads from a byte stream as 32-bit
/// integers, all channels interleaved, or the error with which it refuses
/// the stream or one of its samples.
pub uninterp spec fn wav_int_samples(bytes: Seq<u8>) -> Result<Seq<i32>, WavError>;

/// Reads the header of a WAVE stream.
///
/// Trusted: calls `hound::WavReader::new` on the bytes, copies the fields
/// of `WavReader::spec` and tells the variants of `hound::Error` apart. The
/// contract claims only that the outcome is a function of the bytes, the
/// one named by `wav_header`.
#[verifier::external_body]
fn read_wav_header(bytes: &Vec<u8>) -> (header: Result<WavHeader, WavError>)
    ensures
        header == wav_header(bytes@),
{
    let spec = match hound::WavReader::new(bytes.as_slice()) {
        Ok(reader) => reader.spec(),
        Err(Error::IoError(error)) => return Err(WavError::Io(error.to_string())),
        Err(Error::FormatError(reason)) => return Err(WavError::Format(reason.to_owned())),
        Err(Error::TooWide) => return Err(WavError::TooWide),
        Err(Error::UnfinishedSample) => return Err(WavError::UnfinishedSample),
        Err(Error::Unsupported) => return Err(WavError::Unsupported),
        Err(Error::InvalidSampleFormat) => return Err(WavError::InvalidSampleFormat),
    };
    let sample_format = match spec.sample_format {
        hound::SampleFormat::Float => WavSampleKind::Float,
        hound::SampleFormat::Int => WavSampleKind::Int,
    };
    Ok(WavHeader { channels: spec.channels, sample_rate: spec.sample_rate, bits_per_sample: spec.bits_per_sample, sample_format })
}

/// Reads all samples of a WAVE stream as 32-bit integers.
///
/// Trusted: calls `hound::WavReader::new` on the bytes, collects
/// `WavReader::into_samples` for `i32` and tells the variants of
/// `hound::Error` apart. The contract claims only that the outcome is a
/// function of the bytes, the one named by `wav_int_samples`.
#[verifier::external_body]
fn read_wav_int_samples(bytes: &Vec<u8>) -> (samples: Result<Vec<i32>, WavError>)
    ensures
        match samples {
            Ok(read) => wav_int_samples(bytes@) == Ok::<Seq<i32>, WavError>(read@),
            Err(error) => wav_int_samples(bytes@) == Err::<Seq<i32>, WavError>(error),
        },
{
    let read = match hound::WavReader::new(bytes.as_slice()) {
        Ok(reader) => reader.into_samples::<i32>().collect::<Result<Vec<i32>, Error>>(),
        Err(error) => Err(error),
    };
    match read {
        Ok(samples) => Ok(samples),
        Err(Error::IoError(error)) => Err(WavError::Io(error.to_string())),
        Err(Error::FormatError(reason)) => Err(WavError::Format(reason.to_owned())),
        Err(Error::TooWide) => Err(WavError::TooWide),
        Err(Error::UnfinishedSample) => Err(WavError::UnfinishedSample),
        Err(Error::Unsupported) => Err(WavError::Unsupported),
        Err(Error::InvalidSampleFormat) => Err(WavError::InvalidSampleFormat),
    }
}

/// Why a stream with this header gives no integer samples for an audio
/// interface that runs at `fs`; `None` where it does.
pub open spec fn header_refusal(header: WavHeader, fs: u32) -> Option<WavError> {
    if header.sample_rate != fs {
        Some(WavError::SampleRateMismatch { expected: fs, found: header.sample_rate })
    } else if header.sample_format == WavSampleKind::Int {
        None
    } else if header.bits_per_sample == 32 {
        Some(WavError::FloatSamples)
    } else {
        Some(WavError::Unsupported)
    }
}

/// Checks the header of a WAVE stream against the sample rate of the audio
/// interface and the sample kinds that can be read as integers.
pub fn check_wav_header(header: &WavHeader, fs: u32) -> (result: Result<(), WavError>)
    ensures
        result == match header_refusal(*header, fs) {
            Some(error) => Err::<(), WavError>(error),
            None => Ok::<(), WavError>(()),
        },
{
    if header.sample_rate != fs {
        return Err(WavError::SampleRateMismatch { expected: fs, found: header.sample_rate });
    }
    match header.sample_format {
        WavSampleKind::Int => Ok(()),
        WavSampleKind::Float => {
            if header.bits_per_sample == 32 {
                Err(WavError::FloatSamples)
            } else {
                Err(WavError::Unsupported)
            }
        },
    }
}

/// Read a WAV file from a byte array.
///
/// The samples come back as the decoder reads them for a stream of integer
/// samples at the rate `fs`. A stream that the decoder refuses gives the
/// decoder's error; one with another rate, or with floating samples, is
/// refused as `header_refusal` says.
pub fn read_wave_file_dart(byte_data: Vec<u8>, fs: u32) -> (result: Result<Vec<i32>, WavError>)
    ensures
        match wav_header(byte_data@) {
            Err(error) => result == Err::<Vec<i32>, WavError>(error),
            Ok(header) => match header_refusal(header, fs) {
                Some(error) => result == Err::<Vec<i32>, WavError>(error),
                None => match wav_int_samples(byte_data@) {
                    Ok(samples) => result matches Ok(read) && read@ == samples,
                    Err(error) => result == Err::<Vec<i32>, WavError>(error),
                },
            },
        },
{
    let header = match read_wav_header(&byte_data) {
        Ok(header) => header,
        Err(error) => {
            return Err(error);
        },
    };
    match check_wav_header(&header, fs) {
        Ok(()) => {},
        Err(error) => {
            return Err(error);
        },
    }
    read_wav_int_samples(&byte_data)
}

} // verus!
