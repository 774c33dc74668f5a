use vstd::prelude::*;

verus! {

/// The sample formats a device can be opened with.
#[derive(Clone, Copy, Debug, PartialEq, Eq, Structural)]
pub enum SampleFormat {
    /// Floating samples from -1.0 to 1.0, with 0.0 as the origin.
    F32,
    /// Signed 32-bit samples, with 0 as the origin.
    I32,
    /// Signed 16-bit samples, with 0 as the origin.
    I16,
    /// Signed 8-bit samples, with 0 as the origin.
    I8,
    /// Unsigned 32-bit samples.
    U32,
    /// Unsigned 16-bit samples.
    U16,
    /// Unsigned 8-bit samples.
    U8,
}

impl SampleFormat {
    /// The name of the format.
    pub open spec fn name(self) -> Seq<char> {
        match self {
            SampleFormat::I8 => "i8"@,
            SampleFormat::I16 => "i16"@,
            SampleFormat::I32 => "i32"@,
            SampleFormat::U8 => "u8"@,
            SampleFormat::U16 => "u16"@,
            SampleFormat::U32 => "u32"@,
            SampleFormat::F32 => "f32"@,
        }
    }

    /// The name of the format as text.
    pub fn to_string(&self) -> (text: String)
        ensures
            text@ == self.name(),
    {
        match self {
            SampleFormat::I8 => "i8".to_owned(),
            SampleFormat::I16 => "i16".to_owned(),
            SampleFormat::I32 => "i32".to_owned(),
            SampleFormat::U8 => "u8".to_owned(),
            SampleFormat::U16 => "u16".to_owned(),
            SampleFormat::U32 => "u32".to_owned(),
            SampleFormat::F32 => "f32".to_owned(),
        }
    }
}

} // verus!
