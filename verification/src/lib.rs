//! Vọng: the verified core of a desktop transcription recorder.
//!
//! The library holds the decision logic of the recorder: voice-activity
//! segmentation, reconnect backoff, first-run wizard navigation, toast and
//! dictionary bookkeeping, transcript formatting and the small text
//! protocols the application persists.
use vstd::prelude::*;

pub mod clock;
pub mod reconnect;
pub mod utterance;
pub mod vad;
pub mod text;
pub mod format;
pub mod wizard;
pub mod toast;
pub mod dictionary;
pub mod i18n;
pub mod storage;
pub mod session_detail;
pub mod voice_typing;
pub mod stt;
pub mod consent;
pub mod summary;
pub mod ui;
pub mod audio;
pub mod key_probe;

verus! {

} // verus!
