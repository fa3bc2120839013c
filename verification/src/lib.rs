//! Playback core for PCM audio received from a media stream.
//!
//! Packets of planar PCM are checked, metered, fitted to the device's rate and channels
//! and queued; the device callback drains the queue, and a presentation timeline that
//! runs alongside moves the playhead by which video is timed. A small state machine opens
//! the output device, and opens it again when it fails or falls silent.
//!
//! - [`output`]: the state of an output and its operations
//! - [`pcm`], [`resample`]: packets, samples, rates and channels
//! - [`ring`], [`timeline`]: the queued samples and their presentation times
//! - [`devices`]: listing devices and finding one
//! - [`worker`]: opening, keeping and closing the device stream
//! - [`laws`]: what holds across operations

pub mod devices;
pub mod laws;
pub mod output;
pub mod pcm;
pub mod resample;
pub mod ring;
pub mod timeline;
pub mod worker;

pub use devices::{list_output_devices, AudioOutputDevice};
pub use output::{AudioLevels, AudioOutput, AudioOutputStatus};
