use vstd::prelude::*;

verus! {

/// The sample rates an audio stream can be opened with.
#[derive(Clone, Copy, Debug, PartialEq, Eq, Structural)]
pub enum SampleRate {
    /// 44.1KHz sample rate.
    SR44100,
    /// 48KHz sample rate.
    SR48000,
    /// 96KHz sample rate.
    SR96000,
    /// 192KHz sample rate.
    SR192000,
}

impl SampleRate {
    /// The rate in samples per second.
    pub open spec fn spec_hz(self) -> u32 {
        match self {
            SampleRate::SR44100 => 44100u32,
            SampleRate::SR48000 => 48000u32,
            SampleRate::SR96000 => 96000u32,
            SampleRate::SR192000 => 192000u32,
        }
    }

    /// The rate in samples per second.
    #[verifier::when_used_as_spec(spec_hz)]
    pub fn hz(self) -> (rate: u32)
        ensures
            rate == self.spec_hz(),
            rate >= 44100,
    {
        match self {
            SampleRate::SR44100 => 44100u32,
            SampleRate::SR48000 => 48000u32,
            SampleRate::SR96000 => 96000u32,
            SampleRate::SR192000 => 192000u32,
        }
    }

    /// The name of the rate.
    pub open spec fn name(self) -> Seq<char> {
        match self {
            SampleRate::SR44100 => "44.1KHz"@,
            SampleRate::SR48000 => "48KHz"@,
            SampleRate::SR96000 => "96KHz"@,
            SampleRate::SR192000 => "192KHz"@,
        }
    }

    /// The name of the rate as text.
    pub fn to_string(&self) -> (text: String)
        ensures
            text@ == self.name(),
    {
        match self {
            SampleRate::SR44100 => "44.1KHz".to_owned(),
            SampleRate::SR48000 => "48KHz".to_owned(),
            SampleRate::SR96000 => "96KHz".to_owned(),
            SampleRate::SR192000 => "192KHz".to_owned(),
        }
    }
}

} // verus!
