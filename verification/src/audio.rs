//! The recording flags that the hotkey listener, the audio worker and the overlay
//! share.
use vstd::prelude::*;

use std::sync::atomic::{AtomicBool, AtomicU32};
use std::sync::Arc;

pub use crate::paths::recording_output_path;

verus! {

/// Shared state of a recording, visible to every thread that holds a clone.
#[derive(Clone)]
pub struct RecordingState {
    /// Current input level for the visualizer, RMS times 1000.
    pub volume_level: Arc<AtomicU32>,
    /// Recording is wanted.
    pub is_recording: Arc<AtomicBool>,
    /// The microphone stream is running.
    pub mic_ready: Arc<AtomicBool>,
    /// The output file of the current recording cycle is finished.
    pub recording_ready: Arc<AtomicBool>,
}

impl RecordingState {
    /// Silent, not recording, microphone not running, and no recording pending.
    pub fn new() -> Self {
        RecordingState {
            volume_level: Arc::new(AtomicU32::new(0)),
            is_recording: Arc::new(AtomicBool::new(false)),
            mic_ready: Arc::new(AtomicBool::new(false)),
            recording_ready: Arc::new(AtomicBool::new(true)),
        }
    }

    /// Sets whether recording is wanted.
    pub fn set_recording(&self, recording: bool) {
        self.is_recording.store(recording, std::sync::atomic::Ordering::SeqCst);
    }

    /// Whether recording is wanted.
    pub fn is_recording(&self) -> bool {
        self.is_recording.load(std::sync::atomic::Ordering::SeqCst)
    }
}

/// The three flags of a recording, as plain values.
#[derive(Debug, Clone, Copy, PartialEq, Eq, Structural)]
pub struct RecordingFlags {
    pub is_recording: bool,
    pub mic_ready: bool,
    pub recording_ready: bool,
}

/// What happens to the recording worker.
#[derive(Debug, Clone, Copy, PartialEq, Eq, Structural)]
pub enum RecorderEvent {
    /// Recording was asked for; the worker starts.
    Requested,
    /// No input device, no input configuration, or the input stream could not be built
    /// or started.
    InputFailed,
    /// The temporary WAV file could not be created.
    WriterFailed,
    /// The input stream runs.
    StreamStarted,
    /// Recording was no longer wanted and the stream was dropped.
    StreamStopped,
    /// The recording was post-processed and saved (or that failed): the cycle is over.
    CycleFinished,
}

/// The flags after an event of the recording worker. A request marks recording as
/// wanted with the microphone not yet running and the output not finished; a failure of
/// the input stops recording and the microphone; a failure of the writer stops recording
/// only; a running stream sets the microphone ready; a stopped stream clears it; the end
/// of the cycle marks the output finished. Failures leave the output unfinished.
pub open spec fn spec_recorder_step(f: RecordingFlags, e: RecorderEvent) -> RecordingFlags {
    match e {
        RecorderEvent::Requested => RecordingFlags {
            is_recording: true,
            mic_ready: false,
            recording_ready: false,
        },
        RecorderEvent::InputFailed => RecordingFlags { is_recording: false, mic_ready: false, ..f },
        RecorderEvent::WriterFailed => RecordingFlags { is_recording: false, ..f },
        RecorderEvent::StreamStarted => RecordingFlags { mic_ready: true, ..f },
        RecorderEvent::StreamStopped => RecordingFlags { mic_ready: false, ..f },
        RecorderEvent::CycleFinished => RecordingFlags { recording_ready: true, ..f },
    }
}

/// The flags after an event of the recording worker.
pub fn recorder_step(f: RecordingFlags, e: RecorderEvent) -> (r: RecordingFlags)
    ensures
        r == spec_recorder_step(f, e),
{
    match e {
        RecorderEvent::Requested => RecordingFlags {
            is_recording: true,
            mic_ready: false,
            recording_ready: false,
        },
        RecorderEvent::InputFailed => RecordingFlags { is_recording: false, mic_ready: false, ..f },
        RecorderEvent::WriterFailed => RecordingFlags { is_recording: false, ..f },
        RecorderEvent::StreamStarted => RecordingFlags { mic_ready: true, ..f },
        RecorderEvent::StreamStopped => RecordingFlags { mic_ready: false, ..f },
        RecorderEvent::CycleFinished => RecordingFlags { recording_ready: true, ..f },
    }
}

impl RecordingState {
    /// The flags as they are now.
    pub fn flags(&self) -> RecordingFlags {
        RecordingFlags {
            is_recording: self.is_recording.load(std::sync::atomic::Ordering::SeqCst),
            mic_ready: self.mic_ready.load(std::sync::atomic::Ordering::SeqCst),
            recording_ready: self.recording_ready.load(std::sync::atomic::Ordering::SeqCst),
        }
    }

    /// Stores the fields of `recorder_step`'s result that the event changes, and leaves the
    /// others to the threads that also write them.
    pub fn apply(&self, e: RecorderEvent) {
        let next = recorder_step(self.flags(), e);
        match e {
            RecorderEvent::Requested => {
                self.is_recording.store(next.is_recording, std::sync::atomic::Ordering::SeqCst);
                self.mic_ready.store(next.mic_ready, std::sync::atomic::Ordering::SeqCst);
                self.recording_ready.store(next.recording_ready, std::sync::atomic::Ordering::SeqCst);
            },
            RecorderEvent::InputFailed => {
                self.is_recording.store(next.is_recording, std::sync::atomic::Ordering::SeqCst);
                self.mic_ready.store(next.mic_ready, std::sync::atomic::Ordering::SeqCst);
            },
            RecorderEvent::WriterFailed => {
                self.is_recording.store(next.is_recording, std::sync::atomic::Ordering::SeqCst);
            },
            RecorderEvent::StreamStarted | RecorderEvent::StreamStopped => {
                self.mic_ready.store(next.mic_ready, std::sync::atomic::Ordering::SeqCst);
            },
            RecorderEvent::CycleFinished => {
                self.recording_ready.store(next.recording_ready, std::sync::atomic::Ordering::SeqCst);
            },
        }
    }
}

/// Law: the output of a recording cycle is only marked finished at the end of the cycle;
/// every other event leaves an unfinished output unfinished.
pub proof fn law_output_finished_only_at_cycle_end(f: RecordingFlags, e: RecorderEvent)
    requires
        !f.recording_ready,
        e != RecorderEvent::CycleFinished,
    ensures
        !spec_recorder_step(f, e).recording_ready,
{
}

/// Law: a failure of the input always leaves recording not wanted and the microphone off.
pub proof fn law_input_failure_stops_recording(f: RecordingFlags)
    ensures
        !spec_recorder_step(f, RecorderEvent::InputFailed).is_recording,
        !spec_recorder_step(f, RecorderEvent::InputFailed).mic_ready,
{
}

impl Default for RecordingState {
    fn default() -> (s: Self) {
        RecordingState::new()
    }
}

} // verus!
