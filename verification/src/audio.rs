//! Audio capture's error kinds and the stream configuration a device gives.
use crate::format::{decimal, push_str, push_u64};
use vstd::prelude::*;

verus! {

/// Errors of the capture, resample and segmentation pipeline.
#[derive(Debug)]
pub enum AudioError {
    /// No input device on the host.
    NoInputDevice,
    /// Listing the devices failed.
    DeviceEnumeration(String),
    /// The device's default configuration could not be read.
    DefaultConfig(String),
    /// The device refuses the requested stream configuration.
    UnsupportedConfig { device: String, requested_hz: u32 },
    /// Building the stream failed.
    StreamBuild(String),
    /// Starting the stream failed.
    StreamPlay(String),
    /// The resampler could not be set up.
    ResamplerInit(String),
    /// The resampler failed while running.
    Resampler(String),
    /// Raising the capture thread's priority failed (capture goes on).
    RtPromotion(String),
    /// The consumer of the audio went away.
    ConsumerDropped,
}

/// The message of an audio error.
pub open spec fn audio_error_text(e: AudioError) -> Seq<char> {
    match e {
        AudioError::NoInputDevice => "no input audio device available on host"@,
        AudioError::DeviceEnumeration(d) => "device enumeration failed: "@ + d@,
        AudioError::DefaultConfig(d) => "default config query failed: "@ + d@,
        AudioError::UnsupportedConfig { device, requested_hz } => "stream configuration unsupported: requested "@
            + decimal(requested_hz as nat) + "Hz on device '"@ + device@ + seq!['\''],
        AudioError::StreamBuild(d) => "stream build failed: "@ + d@,
        AudioError::StreamPlay(d) => "stream play failed: "@ + d@,
        AudioError::ResamplerInit(d) => "resampler init failed: "@ + d@,
        AudioError::Resampler(d) => "resampler runtime error: "@ + d@,
        AudioError::RtPromotion(d) => "RT thread promotion failed: "@ + d@,
        AudioError::ConsumerDropped => "downstream consumer dropped"@,
    }
}

impl AudioError {
    /// The error's message.
    pub fn message(&self) -> (m: String)
        ensures
            m@ == audio_error_text(*self),
    {
        let mut m = String::new();
        match self {
            AudioError::NoInputDevice => push_str(&mut m, "no input audio device available on host"),
            AudioError::DeviceEnumeration(d) => {
                push_str(&mut m, "device enumeration failed: ");
                push_str(&mut m, d.as_str());
            },
            AudioError::DefaultConfig(d) => {
                push_str(&mut m, "default config query failed: ");
                push_str(&mut m, d.as_str());
            },
            AudioError::UnsupportedConfig { device, requested_hz } => {
                push_str(&mut m, "stream configuration unsupported: requested ");
                push_u64(&mut m, *requested_hz as u64);
                push_str(&mut m, "Hz on device '");
                push_str(&mut m, device.as_str());
                push_str(&mut m, "'");
                proof {
                    reveal_strlit("'");
                    assert(m@ =~= audio_error_text(*self));
                }
            },
            AudioError::StreamBuild(d) => {
                push_str(&mut m, "stream build failed: ");
                push_str(&mut m, d.as_str());
            },
            AudioError::StreamPlay(d) => {
                push_str(&mut m, "stream play failed: ");
                push_str(&mut m, d.as_str());
            },
            AudioError::ResamplerInit(d) => {
                push_str(&mut m, "resampler init failed: ");
                push_str(&mut m, d.as_str());
            },
            AudioError::Resampler(d) => {
                push_str(&mut m, "resampler runtime error: ");
                push_str(&mut m, d.as_str());
            },
            AudioError::RtPromotion(d) => {
                push_str(&mut m, "RT thread promotion failed: ");
                push_str(&mut m, d.as_str());
            },
            AudioError::ConsumerDropped => push_str(&mut m, "downstream consumer dropped"),
        }
        m
    }
}

/// The stream configuration negotiated with a device.
#[derive(Debug, Clone, Copy, PartialEq, Eq, Structural)]
pub struct AudioConfig {
    /// Sample rate the device reports, in hertz.
    pub sample_rate: u32,
    /// Channel count.
    pub channels: u16,
    /// Samples per callback the device suggests.
    pub buffer_size: u32,
}

} // verus!
