use vstd::prelude::*;

verus! {

/// Track parameters a demuxer reports for the selected audio track.
#[derive(Debug, Clone, Copy, PartialEq, Eq, Structural)]
pub struct TrackInfo {
    /// Sample rate in hertz.
    pub sample_rate: u32,
    /// Channel count.
    pub channels: u16,
    /// Track duration in milliseconds; zero when unknown.
    pub duration_ms: u64,
}

/// The format a renderer is opened with.
#[derive(Debug, Clone, Copy, PartialEq, Eq, Structural)]
pub struct AudioSpec {
    /// Sample rate in hertz.
    pub sample_rate: u32,
    /// Channel count.
    pub channels: u16,
    /// Buffer size in frames.
    pub buffer_size: usize,
}

impl Default for AudioSpec {
    /// The default output shape: stereo at 48 kHz with a small buffer.
    fn default() -> (s: Self)
        ensures
            s.sample_rate == 48000,
            s.channels == 2,
            s.buffer_size == 1024,
    {
        Self { sample_rate: 48000, channels: 2, buffer_size: 1024 }
    }
}

/// The format a decoded stream carries.
#[derive(Debug, Clone, Copy, PartialEq, Eq, Structural)]
pub struct AudioFormat {
    /// Sample rate in hertz.
    pub sample_rate: u32,
    /// Channel count.
    pub channels: u16,
    /// Bits per sample of the source material.
    pub bits_per_sample: u16,
    /// Stream duration in milliseconds; zero when unknown.
    pub duration_ms: u64,
}

/// Converts between a decoded stream's rate and channel shape and the
/// output device's. It only carries the two shapes; the sample arithmetic
/// itself works on floating-point PCM and lives with the renderer side.
#[derive(Debug, Clone, Copy, PartialEq, Eq, Structural)]
pub struct Resampler {
    pub input_rate: u32,
    pub output_rate: u32,
    pub input_channels: u16,
    pub output_channels: u16,
}

impl Resampler {
    pub fn new(input_rate: u32, output_rate: u32, input_channels: u16, output_channels: u16) -> (r:
        Self)
        ensures
            r.input_rate == input_rate,
            r.output_rate == output_rate,
            r.input_channels == input_channels,
            r.output_channels == output_channels,
    {
        Self { input_rate, output_rate, input_channels, output_channels }
    }
}

/// Whether any conversion is needed at all: a rate or a channel-count
/// mismatch between the decoded stream and the output device.
pub fn needs_resampling(
    input_rate: u32,
    output_rate: u32,
    input_channels: u16,
    output_channels: u16,
) -> (r: bool)
    ensures
        r == (input_rate != output_rate || input_channels != output_channels),
{
    input_rate != output_rate || input_channels != output_channels
}

/// Effective output sample rate: the device-selected rate when it is set,
/// otherwise the decoder's rate, otherwise the given default.
pub fn effective_output_rate(selected_rate: u32, decoder_rate: Option<u32>, default_rate: u32) -> (r:
    u32)
    ensures
        selected_rate > 0 ==> r == selected_rate,
        selected_rate == 0 && decoder_rate is Some ==> r == decoder_rate->0,
        selected_rate == 0 && decoder_rate is None ==> r == default_rate,
{
    if selected_rate > 0 {
        selected_rate
    } else if let Some(rate) = decoder_rate {
        rate
    } else {
        default_rate
    }
}

} // verus!
