use vstd::prelude::*;
use vstd::string::StringExecFns;

verus! {

/// Error type for when the audio device is missing.
#[derive(Debug)]
pub enum MissingDeviceError {
    Error(String),
}

impl MissingDeviceError {
    /// The message that the error carries.
    pub open spec fn message(&self) -> Seq<char> {
        match self {
            MissingDeviceError::Error(message) => message@,
        }
    }

    /// The error for an audio host that cannot be reached.
    pub fn host_unavailable() -> (error: Self)
        ensures
            error.message() == "Failed to connect to Focusrite Host"@,
    {
        MissingDeviceError::Error("Failed to connect to Focusrite Host".to_owned())
    }

    /// The error for a device that the host does not list.
    pub fn device_not_found() -> (error: Self)
        ensures
            error.message() == "Device not found"@,
    {
        MissingDeviceError::Error("Device not found".to_owned())
    }

    /// The error as text: the message behind `Error: `.
    pub fn to_string(&self) -> (text: String)
        ensures
            text@ == "Error: "@ + self.message(),
    {
        match self {
            MissingDeviceError::Error(message) => "Error: ".to_owned().concat(message.as_str()),
        }
    }
}

} // verus!
