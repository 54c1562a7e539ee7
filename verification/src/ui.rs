//! The overlay's state machine: downloading the model, showing the input level while
//! recording, and transcribing; what each frame shows and which worker it starts.
use vstd::prelude::*;

verus! {

/// The page that the tray's About entry opens.
pub const ABOUT_URL: &'static str = "https://github.com/mayankgujrathi/dictation-rs";

/// What a tray menu entry asks for.
#[derive(Debug, Clone, Copy, PartialEq, Eq, Structural)]
pub enum TrayCommand {
    /// Quit the program.
    Exit,
    /// Open the About page.
    About,
    /// An entry that does nothing.
    Ignore,
}

/// The command of the tray menu entry with the given id: `exit` or `about`.
pub fn tray_command(id: &str) -> (r: TrayCommand)
    ensures
        r == if id@ == "exit"@ {
            TrayCommand::Exit
        } else if id@ == "about"@ {
            TrayCommand::About
        } else {
            TrayCommand::Ignore
        },
{
    if crate::text::str_eq(id, "exit") {
        TrayCommand::Exit
    } else if crate::text::str_eq(id, "about") {
        TrayCommand::About
    } else {
        TrayCommand::Ignore
    }
}

/// Number of level bars in the visualizer.
pub const HISTORY_LEN: usize = 8;

/// How long an error stays on screen before the overlay goes back to recording mode.
pub const ERROR_DISPLAY_MS: u64 = 1000;

/// The phase the overlay is in.
#[derive(Debug, Clone, Copy, PartialEq, Eq, Structural)]
pub enum UIState {
    ModelDownloading,
    VisualizerRecording,
    Transcribing,
}

/// What the overlay remembers between frames.
#[derive(Debug, Clone, Copy, PartialEq, Eq, Structural)]
pub struct OverlayState {
    pub ui_state: UIState,
    /// A recording was seen running in this cycle.
    pub saw_recording_active: bool,
    /// The download worker was started.
    pub download_spawned: bool,
    /// The transcription worker of this cycle was started.
    pub transcription_spawned: bool,
    /// When an error of this cycle was first shown, in milliseconds.
    pub transcription_rendered_at: Option<u64>,
}

/// What the overlay reads at the start of a frame.
#[derive(Debug, Clone, Copy, PartialEq, Eq, Structural)]
pub struct FrameInputs {
    pub should_exit: bool,
    pub is_recording: bool,
    pub mic_ready: bool,
    pub recording_ready: bool,
    /// Download progress in percent.
    pub download_progress: u32,
    /// `Some(true)` when the transcription failed, `Some(false)` when it succeeded.
    pub transcription_status: Option<bool>,
    pub now_ms: u64,
}

/// What a frame shows.
#[derive(Debug, Clone, Copy, PartialEq, Eq, Structural)]
pub enum OverlayView {
    /// The window is closed.
    Close,
    /// The download progress bar.
    DownloadProgress,
    /// The input level bars.
    Levels,
    /// A one-pixel window that keeps the event loop alive.
    Idle,
    /// The transcription is starting; nothing is drawn this frame.
    StartTranscribing,
    /// "Transcribing..." or, after a failure, "Error".
    TranscribingLabel { error: bool },
    /// The same label drawn one last time as the cycle ends; then the window goes idle.
    LabelThenIdle { error: bool },
}

/// What the program does after a frame.
#[derive(Debug, Clone, Copy, PartialEq, Eq, Structural)]
pub struct FrameEffects {
    pub view: OverlayView,
    pub spawn_download: bool,
    pub spawn_transcription: bool,
    /// The transcription result slot is emptied for the next cycle.
    pub clear_transcription_status: bool,
}

/// The state at the start of a new recording cycle.
pub open spec fn reset_cycle(s: OverlayState) -> OverlayState {
    OverlayState {
        ui_state: UIState::VisualizerRecording,
        saw_recording_active: false,
        transcription_spawned: false,
        transcription_rendered_at: None,
        ..s
    }
}

/// The effects of a frame that changes nothing outside the overlay.
pub open spec fn show(view: OverlayView) -> FrameEffects {
    FrameEffects {
        view,
        spawn_download: false,
        spawn_transcription: false,
        clear_transcription_status: false,
    }
}

/// One frame of the overlay.
///
/// An exit request closes the window. While the model downloads, the progress is shown,
/// the download worker is started once, and at 100 percent the overlay turns to
/// recording. While recording runs (wanted and the microphone running) the level bars are
/// shown; once it stops, the overlay turns to transcribing if the recording's output is
/// finished, and otherwise idles. While transcribing, the worker is started once and its
/// label is shown; a success ends the cycle at once, a failure is shown for one second
/// first; the frame that ends the cycle draws the label one last time, then idles.
pub open spec fn spec_overlay_frame(s: OverlayState, i: FrameInputs) -> (OverlayState, FrameEffects) {
    if i.should_exit {
        (s, show(OverlayView::Close))
    } else {
        match s.ui_state {
            UIState::ModelDownloading => {
                let spawn = !s.download_spawned;
                let next = OverlayState {
                    download_spawned: true,
                    ui_state: if i.download_progress >= 100 {
                        UIState::VisualizerRecording
                    } else {
                        UIState::ModelDownloading
                    },
                    ..s
                };
                (next, FrameEffects { spawn_download: spawn, ..show(OverlayView::DownloadProgress) })
            },
            UIState::VisualizerRecording => {
                if i.is_recording && i.mic_ready {
                    (OverlayState { saw_recording_active: true, ..s }, show(OverlayView::Levels))
                } else if s.saw_recording_active && i.recording_ready {
                    (
                        OverlayState { ui_state: UIState::Transcribing, ..s },
                        show(OverlayView::StartTranscribing),
                    )
                } else {
                    (s, show(OverlayView::Idle))
                }
            },
            UIState::Transcribing => {
                let spawn = !s.transcription_spawned;
                let s1 = OverlayState { transcription_spawned: true, ..s };
                let label = OverlayView::TranscribingLabel { error: i.transcription_status == Some(true) };
                match i.transcription_status {
                    Some(false) => (
                        reset_cycle(s1),
                        FrameEffects {
                            view: OverlayView::LabelThenIdle { error: false },
                            spawn_download: false,
                            spawn_transcription: spawn,
                            clear_transcription_status: true,
                        },
                    ),
                    Some(true) => match s1.transcription_rendered_at {
                        None => (
                            OverlayState { transcription_rendered_at: Some(i.now_ms), ..s1 },
                            FrameEffects { spawn_transcription: spawn, ..show(label) },
                        ),
                        Some(t) => if i.now_ms >= t && i.now_ms - t >= ERROR_DISPLAY_MS {
                            (
                                reset_cycle(s1),
                                FrameEffects {
                                    view: OverlayView::LabelThenIdle { error: true },
                                    spawn_download: false,
                                    spawn_transcription: spawn,
                                    clear_transcription_status: true,
                                },
                            )
                        } else {
                            (s1, FrameEffects { spawn_transcription: spawn, ..show(label) })
                        },
                    },
                    None => (s1, FrameEffects { spawn_transcription: spawn, ..show(label) }),
                }
            },
        }
    }
}

/// The overlay's first state: recording mode when the model is already there, else the
/// download.
pub fn initial_overlay_state(model_ready: bool) -> (s: OverlayState)
    ensures
        s.ui_state == (if model_ready {
            UIState::VisualizerRecording
        } else {
            UIState::ModelDownloading
        }),
        !s.saw_recording_active,
        !s.download_spawned,
        !s.transcription_spawned,
        s.transcription_rendered_at is None,
{
    OverlayState {
        ui_state: if model_ready {
            UIState::VisualizerRecording
        } else {
            UIState::ModelDownloading
        },
        saw_recording_active: false,
        download_spawned: false,
        transcription_spawned: false,
        transcription_rendered_at: None,
    }
}

/// Decides one frame of the overlay.
pub fn overlay_frame(s: &mut OverlayState, inputs: FrameInputs) -> (e: FrameEffects)
    ensures
        (*final(s), e) == spec_overlay_frame(*old(s), inputs),
{
    if inputs.should_exit {
        return FrameEffects {
            view: OverlayView::Close,
            spawn_download: false,
            spawn_transcription: false,
            clear_transcription_status: false,
        };
    }
    let quiet = FrameEffects {
        view: OverlayView::Idle,
        spawn_download: false,
        spawn_transcription: false,
        clear_transcription_status: false,
    };
    match s.ui_state {
        UIState::ModelDownloading => {
            let spawn = !s.download_spawned;
            s.download_spawned = true;
            if inputs.download_progress >= 100 {
                s.ui_state = UIState::VisualizerRecording;
            }
            FrameEffects { view: OverlayView::DownloadProgress, spawn_download: spawn, ..quiet }
        },
        UIState::VisualizerRecording => {
            if inputs.is_recording && inputs.mic_ready {
                s.saw_recording_active = true;
                FrameEffects { view: OverlayView::Levels, ..quiet }
            } else if s.saw_recording_active && inputs.recording_ready {
                s.ui_state = UIState::Transcribing;
                FrameEffects { view: OverlayView::StartTranscribing, ..quiet }
            } else {
                quiet
            }
        },
        UIState::Transcribing => {
            let spawn = !s.transcription_spawned;
            s.transcription_spawned = true;
            let error = match inputs.transcription_status {
                Some(b) => b,
                None => false,
            };
            let label = FrameEffects {
                view: OverlayView::TranscribingLabel { error },
                spawn_transcription: spawn,
                ..quiet
            };
            let done = FrameEffects {
                view: OverlayView::LabelThenIdle { error },
                spawn_transcription: spawn,
                clear_transcription_status: true,
                ..quiet
            };
            match inputs.transcription_status {
                Some(false) => {
                    s.ui_state = UIState::VisualizerRecording;
                    s.saw_recording_active = false;
                    s.transcription_spawned = false;
                    s.transcription_rendered_at = None;
                    done
                },
                Some(true) => match s.transcription_rendered_at {
                    None => {
                        s.transcription_rendered_at = Some(inputs.now_ms);
                        label
                    },
                    Some(t) => {
                        if inputs.now_ms >= t && inputs.now_ms - t >= ERROR_DISPLAY_MS {
                            s.ui_state = UIState::VisualizerRecording;
                            s.saw_recording_active = false;
                            s.transcription_spawned = false;
                            s.transcription_rendered_at = None;
                            done
                        } else {
                            label
                        }
                    },
                },
                None => label,
            }
        },
    }
}

/// The last `capacity` levels after a new one is recorded, oldest first.
pub open spec fn spec_push_level(history: Seq<u32>, level: u32, capacity: nat) -> Seq<u32> {
    let h = history.push(level);
    if h.len() > capacity {
        h.drop_first()
    } else {
        h
    }
}

/// Records a new input level in the visualizer history, dropping the oldest when the
/// history holds more than `capacity` levels.
pub fn push_level(history: &mut Vec<u32>, level: u32, capacity: usize)
    ensures
        final(history)@ == spec_push_level(old(history)@, level, capacity as nat),
{
    history.push(level);
    if history.len() > capacity {
        history.remove(0);
        assert(final(history)@ =~= old(history)@.push(level).drop_first());
    }
}

/// The history of a fresh overlay: `HISTORY_LEN` silent levels.
pub fn initial_history() -> (h: Vec<u32>)
    ensures
        h@.len() == HISTORY_LEN,
        forall|i: int| 0 <= i < HISTORY_LEN ==> h@[i] == 0,
{
    let mut h: Vec<u32> = Vec::new();
    let mut i: usize = 0;
    while i < HISTORY_LEN
        invariant
            i <= HISTORY_LEN,
            h@.len() == i,
            forall|k: int| 0 <= k < i ==> h@[k] == 0,
        decreases HISTORY_LEN - i,
    {
        h.push(0);
        i += 1;
    }
    h
}

// ---------------------------------------------------------------------------
// Laws of the overlay
// ---------------------------------------------------------------------------

/// Law: the overlay only turns to transcribing from recording mode, after a recording was
/// seen running, once it has stopped and its output is finished.
pub proof fn law_transcribes_only_finished_recordings(s: OverlayState, i: FrameInputs)
    requires
        s.ui_state != UIState::Transcribing,
        spec_overlay_frame(s, i).0.ui_state == UIState::Transcribing,
    ensures
        s.ui_state == UIState::VisualizerRecording,
        s.saw_recording_active,
        i.recording_ready,
        !(i.is_recording && i.mic_ready),
        !i.should_exit,
{
}

/// Law: a successful transcription ends the cycle at once: back to recording mode, with
/// nothing of the cycle remembered and the result slot emptied.
pub proof fn law_success_ends_cycle(s: OverlayState, i: FrameInputs)
    requires
        s.ui_state == UIState::Transcribing,
        !i.should_exit,
        i.transcription_status == Some(false),
    ensures
        ({
            let (next, e) = spec_overlay_frame(s, i);
            &&& next.ui_state == UIState::VisualizerRecording
            &&& !next.saw_recording_active
            &&& !next.transcription_spawned
            &&& next.transcription_rendered_at is None
            &&& e.clear_transcription_status
        }),
{
}

/// Law: after a failure the error stays on screen until one second has passed since it
/// was first shown.
pub proof fn law_error_shown_for_a_second(s: OverlayState, i: FrameInputs, t: u64)
    requires
        s.ui_state == UIState::Transcribing,
        !i.should_exit,
        i.transcription_status == Some(true),
        s.transcription_rendered_at == Some(t),
        i.now_ms < t + ERROR_DISPLAY_MS,
    ensures
        spec_overlay_frame(s, i).0.ui_state == UIState::Transcribing,
        spec_overlay_frame(s, i).1.view == (OverlayView::TranscribingLabel { error: true }),
{
}

/// Law: each worker is started at most once per cycle: a frame never asks for a worker
/// that the state says is already running.
pub proof fn law_workers_start_once(s: OverlayState, i: FrameInputs)
    ensures
        spec_overlay_frame(s, i).1.spawn_download ==> !s.download_spawned,
        spec_overlay_frame(s, i).1.spawn_transcription ==> !s.transcription_spawned,
        spec_overlay_frame(s, i).1.spawn_download ==> spec_overlay_frame(s, i).0.download_spawned,
{
}

/// Law: the frame that ends a transcription cycle, after a success or once the error has
/// been shown, leaves the overlay ready for the next recording: back in recording mode,
/// with no recording seen, no transcription worker started and no error on screen.
pub proof fn law_cycle_end_resets(s: OverlayState, i: FrameInputs)
    ensures
        spec_overlay_frame(s, i).1.view matches OverlayView::LabelThenIdle { .. } ==> {
            let next = spec_overlay_frame(s, i).0;
            &&& next.ui_state == UIState::VisualizerRecording
            &&& !next.transcription_spawned
            &&& !next.saw_recording_active
            &&& next.transcription_rendered_at is None
            &&& next.download_spawned == s.download_spawned
        },
{
}

/// Law: the first transcribing frame of a cycle starts the transcription worker.
pub proof fn law_transcribing_starts_worker(s: OverlayState, i: FrameInputs)
    requires
        s.ui_state == UIState::Transcribing,
        !s.transcription_spawned,
        !i.should_exit,
    ensures
        spec_overlay_frame(s, i).1.spawn_transcription,
        spec_overlay_frame(s, i).0.transcription_spawned || spec_overlay_frame(s, i).1.view
            matches OverlayView::LabelThenIdle { .. },
{
}

/// Law: after a cycle ends, the next recording is transcribed again: from the state that
/// ends a cycle, a recording that runs and then finishes leads to a frame that starts the
/// transcription worker.
pub proof fn law_next_cycle_is_transcribed(
    s: OverlayState,
    end: FrameInputs,
    rec: FrameInputs,
    done: FrameInputs,
    next: FrameInputs,
)
    requires
        spec_overlay_frame(s, end).1.view matches OverlayView::LabelThenIdle { .. },
        !rec.should_exit && rec.is_recording && rec.mic_ready,
        !done.should_exit && !(done.is_recording && done.mic_ready) && done.recording_ready,
        !next.should_exit,
    ensures
        ({
            let s1 = spec_overlay_frame(s, end).0;
            let s2 = spec_overlay_frame(s1, rec).0;
            let s3 = spec_overlay_frame(s2, done).0;
            &&& s3.ui_state == UIState::Transcribing
            &&& spec_overlay_frame(s3, next).1.spawn_transcription
        }),
{
    law_cycle_end_resets(s, end);
}

} // verus!
