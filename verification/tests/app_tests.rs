use std::collections::VecDeque;
use std::sync::atomic::{AtomicBool, AtomicU32, Ordering};
use std::sync::Arc;

use dictation::ui::{
    initial_history, initial_overlay_state, overlay_frame, push_level, FrameInputs, OverlayView,
    UIState, HISTORY_LEN,
};

pub const WINDOW_INNER_SIZE: [f32; 2] = [100.0, 40.0];

pub struct VolumeHistory {
    history: VecDeque<f32>,
    capacity: usize,
}

impl VolumeHistory {
    pub fn new(capacity: usize) -> Self {
        Self {
            history: VecDeque::from(vec![0.0; capacity]),
            capacity,
        }
    }

    pub fn update(&mut self, volume_raw: u32) {
        let current_vol = volume_raw as f32 / 1000.0;
        self.history.push_back(current_vol);
        if self.history.len() > self.capacity {
            self.history.pop_front();
        }
    }

    pub fn get_history(&self) -> &VecDeque<f32> {
        &self.history
    }

    pub fn len(&self) -> usize {
        self.history.len()
    }

    pub fn is_empty(&self) -> bool {
        self.history.is_empty()
    }
}

pub fn calculate_bar_height(amplitude: f32, max_height: f32) -> f32 {
    (amplitude * max_height * 4.0).clamp(2.0, max_height * 0.9)
}

pub fn calculate_bar_x(index: usize, num_bars: usize, rect_width: f32, rect_left: f32) -> f32 {
    let spacing = rect_width / num_bars as f32;
    rect_left + (index as f32 * spacing) + (spacing / 2.0)
}

#[test]
fn test_window_inner_size_dimensions() {
    assert_eq!(WINDOW_INNER_SIZE.len(), 2);
    assert_eq!(WINDOW_INNER_SIZE[0], 100.0);
    assert_eq!(WINDOW_INNER_SIZE[1], 40.0);
}

#[test]
fn test_history_length() {
    assert_eq!(HISTORY_LEN, 8);
}

#[test]
fn test_volume_history_initialization() {
    let history = VolumeHistory::new(HISTORY_LEN);
    assert_eq!(history.len(), HISTORY_LEN);
    assert!(!history.is_empty());

    for val in history.get_history() {
        assert!((val - 0.0).abs() < f32::EPSILON);
    }
}

#[test]
fn test_volume_history_update() {
    let mut history = VolumeHistory::new(HISTORY_LEN);

    history.update(0);
    history.update(500);
    history.update(1000);

    assert_eq!(history.len(), HISTORY_LEN);

    let last = history.get_history().back();
    assert!(last.is_some());
    assert!((last.unwrap() - 1.0).abs() < f32::EPSILON);
}

#[test]
fn test_volume_history_max_capacity() {
    let capacity = 4;
    let mut history = VolumeHistory::new(capacity);

    for i in 0..10 {
        history.update(i * 100);
    }

    assert_eq!(history.len(), capacity);
}

#[test]
fn test_volume_history_fifo_behavior() {
    let capacity = 4;
    let mut history = VolumeHistory::new(capacity);

    for i in 0..capacity {
        history.update((i + 1) as u32 * 100);
    }

    history.update(500);

    let h = history.get_history();
    assert!(!h.contains(&100.0));
}

#[test]
fn test_volume_raw_value_conversion() {
    let mut history = VolumeHistory::new(HISTORY_LEN);

    history.update(0);
    history.update(250);
    history.update(500);
    history.update(750);
    history.update(1000);
    history.update(1500);

    let last = history.get_history().back().unwrap();
    assert!((last - 1.5).abs() < f32::EPSILON);
}

#[test]
fn level_history_of_the_library_keeps_the_newest() {
    let mut h = initial_history();
    assert_eq!(h, vec![0u32; HISTORY_LEN]);
    for i in 1..=10u32 {
        push_level(&mut h, i * 100, HISTORY_LEN);
    }
    assert_eq!(h.len(), HISTORY_LEN);
    assert_eq!(h, vec![300, 400, 500, 600, 700, 800, 900, 1000]);
    let mut short = vec![1u32];
    push_level(&mut short, 2, 4);
    assert_eq!(short, vec![1, 2]);
}

#[test]
fn test_bar_height_calculation() {
    let max_height = 100.0;

    let h = calculate_bar_height(0.0, max_height);
    assert_eq!(h, 2.0);

    let h = calculate_bar_height(0.1, max_height);
    assert_eq!(h, 40.0);

    let h = calculate_bar_height(0.25, max_height);
    assert_eq!(h, 90.0);

    let h = calculate_bar_height(0.5, max_height);
    assert_eq!(h, 90.0);
}

#[test]
fn test_bar_height_minimum() {
    let max_height = 100.0;
    let h = calculate_bar_height(0.001, max_height);
    assert_eq!(h, 2.0);
}

#[test]
fn test_bar_height_maximum() {
    let max_height = 100.0;
    let h = calculate_bar_height(1.0, max_height);
    assert_eq!(h, 90.0);
}

#[test]
fn test_bar_x_position() {
    let rect_width = 100.0;
    let rect_left = 0.0;
    let num_bars = 8;

    let positions: Vec<f32> = (0..num_bars)
        .map(|i| calculate_bar_x(i, num_bars, rect_width, rect_left))
        .collect();

    for pos in &positions {
        assert!(*pos >= 0.0 && *pos <= rect_width);
    }

    assert!((positions[0] - 6.25).abs() < 0.01);
}

#[test]
fn test_bar_x_position_with_offset() {
    let rect_width = 100.0;
    let rect_left = 50.0;
    let num_bars = 4;

    let pos = calculate_bar_x(0, num_bars, rect_width, rect_left);
    assert!((pos - 62.5).abs() < 0.01);
}

#[test]
fn test_volume_atomic_load_store() {
    let volume = Arc::new(AtomicU32::new(0));

    volume.store(500, Ordering::Relaxed);
    assert_eq!(volume.load(Ordering::Relaxed), 500);

    let level = volume.load(Ordering::Relaxed) as f32 / 1000.0;
    assert!((level - 0.5).abs() < f32::EPSILON);
}

#[test]
fn test_running_flag() {
    let running = Arc::new(AtomicBool::new(true));

    assert!(running.load(Ordering::SeqCst));

    running.store(false, Ordering::SeqCst);
    assert!(!running.load(Ordering::SeqCst));
}

#[test]
fn test_shared_atomics() {
    let volume = Arc::new(AtomicU32::new(0));
    let running = Arc::new(AtomicBool::new(true));

    let vol_clone = volume.clone();
    let run_clone = running.clone();

    vol_clone.store(750, Ordering::Relaxed);
    run_clone.store(false, Ordering::SeqCst);

    assert_eq!(volume.load(Ordering::Relaxed), 750);
    assert!(!running.load(Ordering::SeqCst));
}

#[test]
fn test_volume_to_display_conversion() {
    let volume_raw = 427u32;
    let volume_display = volume_raw as f32 / 1000.0;

    let mut history = VolumeHistory::new(8);
    history.update(volume_raw);

    let last = history.get_history().back().unwrap();
    assert!((last - volume_display).abs() < f32::EPSILON);
}

#[test]
fn test_frame_duration_16khz() {
    let sample_rate = 16000u32;
    let samples_per_frame = 512;
    let frame_duration_ms = (samples_per_frame as f64 / sample_rate as f64) * 1000.0;

    assert!((frame_duration_ms - 32.0).abs() < 0.1);
}

#[test]
fn test_samples_for_duration() {
    let duration_ms = 1000u32;
    let sample_rate = 16000u32;
    let expected_samples = (duration_ms as f64 / 1000.0 * sample_rate as f64) as usize;

    assert_eq!(expected_samples, 16000);
}

fn inputs(now_ms: u64) -> FrameInputs {
    FrameInputs {
        should_exit: false,
        is_recording: false,
        mic_ready: false,
        recording_ready: false,
        download_progress: 0,
        transcription_status: None,
        now_ms,
    }
}

#[test]
fn overlay_downloads_then_records() {
    let mut s = initial_overlay_state(false);
    assert_eq!(s.ui_state, UIState::ModelDownloading);
    let e = overlay_frame(&mut s, inputs(0));
    assert_eq!(e.view, OverlayView::DownloadProgress);
    assert!(e.spawn_download);
    let e = overlay_frame(&mut s, FrameInputs { download_progress: 50, ..inputs(1) });
    assert!(!e.spawn_download);
    assert_eq!(s.ui_state, UIState::ModelDownloading);
    overlay_frame(&mut s, FrameInputs { download_progress: 100, ..inputs(2) });
    assert_eq!(s.ui_state, UIState::VisualizerRecording);
}

#[test]
fn overlay_records_transcribes_and_resets() {
    let mut s = initial_overlay_state(true);
    let e = overlay_frame(&mut s, inputs(0));
    assert_eq!(e.view, OverlayView::Idle);

    let e = overlay_frame(&mut s, FrameInputs { is_recording: true, mic_ready: true, ..inputs(1) });
    assert_eq!(e.view, OverlayView::Levels);
    assert!(s.saw_recording_active);

    let e = overlay_frame(&mut s, inputs(2));
    assert_eq!(e.view, OverlayView::Idle);
    assert_eq!(s.ui_state, UIState::VisualizerRecording);

    let e = overlay_frame(&mut s, FrameInputs { recording_ready: true, ..inputs(3) });
    assert_eq!(e.view, OverlayView::StartTranscribing);
    assert_eq!(s.ui_state, UIState::Transcribing);

    let e = overlay_frame(&mut s, inputs(4));
    assert!(e.spawn_transcription);
    assert_eq!(e.view, OverlayView::TranscribingLabel { error: false });
    let e = overlay_frame(&mut s, inputs(5));
    assert!(!e.spawn_transcription);

    let e = overlay_frame(&mut s, FrameInputs { transcription_status: Some(false), ..inputs(6) });
    assert_eq!(e.view, OverlayView::LabelThenIdle { error: false });
    assert!(e.clear_transcription_status);
    assert_eq!(s.ui_state, UIState::VisualizerRecording);
    assert!(!s.saw_recording_active);
    assert!(!s.transcription_spawned);
}

#[test]
fn overlay_shows_error_for_a_second() {
    let mut s = initial_overlay_state(true);
    overlay_frame(&mut s, FrameInputs { is_recording: true, mic_ready: true, ..inputs(0) });
    overlay_frame(&mut s, FrameInputs { recording_ready: true, ..inputs(1) });
    let failed = |t| FrameInputs { transcription_status: Some(true), ..inputs(t) };
    let e = overlay_frame(&mut s, failed(10));
    assert_eq!(e.view, OverlayView::TranscribingLabel { error: true });
    assert_eq!(s.transcription_rendered_at, Some(10));
    let e = overlay_frame(&mut s, failed(1009));
    assert_eq!(e.view, OverlayView::TranscribingLabel { error: true });
    assert_eq!(s.ui_state, UIState::Transcribing);
    let e = overlay_frame(&mut s, failed(1010));
    assert_eq!(e.view, OverlayView::LabelThenIdle { error: true });
    assert!(e.clear_transcription_status);
    assert_eq!(s.ui_state, UIState::VisualizerRecording);
}

#[test]
fn overlay_closes_on_exit() {
    let mut s = initial_overlay_state(true);
    let before = s;
    let e = overlay_frame(&mut s, FrameInputs { should_exit: true, ..inputs(0) });
    assert_eq!(e.view, OverlayView::Close);
    assert_eq!(s, before);
}
