use vstd::prelude::*;
use vstd::string::StringExecFns;

verus! {

/// Error taxonomy of the player. Construction-time failures surface
/// synchronously from loading; mid-stream failures move the engine to the
/// error state and are reported through an event.
#[derive(Debug, Clone)]
pub enum AudioError {
    /// Failed to initialize the audio player.
    InitializationError(String),
    /// Failed to open or probe the audio source.
    LoadError(String),
    /// Playback error.
    PlaybackError(String),
    /// Illegal state transition or operation for the current state.
    InvalidState(String),
    /// Missing required atoms or an unsupported container layout.
    UnsupportedFormat(String),
    /// No output device, or the output stream could not be built.
    DeviceError(String),
    /// Thread or synchronization error.
    ThreadError(String),
    /// Filesystem error.
    IoError(String),
    /// Mid-stream codec or container failure.
    DecodingError(String),
    /// HTTP failure, timeout, or unsatisfiable range.
    NetworkError(String),
    /// Generic error.
    Other(String),
}

impl AudioError {
    /// The human-readable form of the error: a category prefix and the detail.
    pub open spec fn spec_message(&self) -> Seq<char> {
        match self {
            AudioError::InitializationError(m) => "Initialization error: "@ + m@,
            AudioError::LoadError(m) => "Load error: "@ + m@,
            AudioError::PlaybackError(m) => "Playback error: "@ + m@,
            AudioError::InvalidState(m) => "Invalid state: "@ + m@,
            AudioError::UnsupportedFormat(m) => "Unsupported format: "@ + m@,
            AudioError::DeviceError(m) => "Device error: "@ + m@,
            AudioError::ThreadError(m) => "Thread error: "@ + m@,
            AudioError::IoError(m) => "IO error: "@ + m@,
            AudioError::DecodingError(m) => "Decoding error: "@ + m@,
            AudioError::NetworkError(m) => "Network error: "@ + m@,
            AudioError::Other(m) => "Error: "@ + m@,
        }
    }

    pub fn message(&self) -> (r: String)
        ensures
            r@ == self.spec_message(),
    {
        match self {
            AudioError::InitializationError(m) => String::from_str("Initialization error: ").concat(m.as_str()),
            AudioError::LoadError(m) => String::from_str("Load error: ").concat(m.as_str()),
            AudioError::PlaybackError(m) => String::from_str("Playback error: ").concat(m.as_str()),
            AudioError::InvalidState(m) => String::from_str("Invalid state: ").concat(m.as_str()),
            AudioError::UnsupportedFormat(m) => String::from_str("Unsupported format: ").concat(m.as_str()),
            AudioError::DeviceError(m) => String::from_str("Device error: ").concat(m.as_str()),
            AudioError::ThreadError(m) => String::from_str("Thread error: ").concat(m.as_str()),
            AudioError::IoError(m) => String::from_str("IO error: ").concat(m.as_str()),
            AudioError::DecodingError(m) => String::from_str("Decoding error: ").concat(m.as_str()),
            AudioError::NetworkError(m) => String::from_str("Network error: ").concat(m.as_str()),
            AudioError::Other(m) => String::from_str("Error: ").concat(m.as_str()),
        }
    }
}

} // verus!
