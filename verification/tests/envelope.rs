//! Envelope ramps and the playing clip's per-tick update.

use soundscape::loader::AudioClipOnDisk;
use soundscape::playback::{ClipWithSink, PlaybackPhase, StoredTweener, tween_sample};

fn descriptor() -> AudioClipOnDisk {
    AudioClipOnDisk::new("frog".to_string(), "frog.wav".to_string(), None, None, None)
}

#[test]
fn linear_ramp_interpolates_and_clamps() {
    let up = StoredTweener { from: 0, to: 1000, duration_ms: 200 };
    assert_eq!(tween_sample(&up, 0), 0);
    assert_eq!(tween_sample(&up, 50), 250);
    assert_eq!(tween_sample(&up, 100), 500);
    assert_eq!(tween_sample(&up, 200), 1000);
    assert_eq!(tween_sample(&up, 10_000), 1000);

    let down = StoredTweener { from: 800, to: 0, duration_ms: 400 };
    assert_eq!(tween_sample(&down, 0), 800);
    assert_eq!(tween_sample(&down, 100), 600);
    assert_eq!(tween_sample(&down, 400), 0);

    let instant = StoredTweener { from: 200, to: 700, duration_ms: 0 };
    assert_eq!(tween_sample(&instant, 0), 700);
}

#[test]
fn attack_rises_then_sustains() {
    let mut clip = ClipWithSink::new(
        0,
        &descriptor(),
        Some(1000),
        false,
        None,
        Some(100),
        None,
        2,
        0,
    );
    assert_eq!(clip.current_volume(), 0);
    assert!(matches!(clip.phase(), PlaybackPhase::Attack(_)));

    clip.update_progress(50);
    assert_eq!(clip.current_volume(), 500);
    assert!(matches!(clip.phase(), PlaybackPhase::Attack(_)));

    clip.update_progress(100);
    assert_eq!(clip.current_volume(), 1000);
    assert!(matches!(clip.phase(), PlaybackPhase::Sustain()));
}

#[test]
fn default_fade_in_is_eight_milliseconds() {
    let mut clip = ClipWithSink::new(0, &descriptor(), None, false, None, None, None, 2, 0);
    clip.update_progress(8);
    assert_eq!(clip.current_volume(), 1000);
    assert!(matches!(clip.phase(), PlaybackPhase::Sustain()));
}

#[test]
fn volume_override_beats_descriptor_default() {
    let quiet = AudioClipOnDisk::new(
        "q".to_string(),
        "q.wav".to_string(),
        Some(600),
        None,
        None,
    );
    let mut by_default = ClipWithSink::new(0, &quiet, None, false, None, Some(10), None, 2, 0);
    by_default.update_progress(10);
    assert_eq!(by_default.current_volume(), 600);

    let mut overridden = ClipWithSink::new(0, &quiet, None, false, Some(300), Some(10), None, 2, 0);
    overridden.update_progress(10);
    assert_eq!(overridden.current_volume(), 300);
}

#[test]
fn fade_out_releases_from_current_gain_and_stops_at_zero() {
    let mut clip = ClipWithSink::new(0, &descriptor(), None, true, None, Some(10), None, 2, 0);
    clip.update_progress(500);
    assert_eq!(clip.current_volume(), 1000);

    clip.fade_out(2000, 500);
    assert!(matches!(clip.phase(), PlaybackPhase::Release(500, _)));

    clip.update_progress(1500);
    assert_eq!(clip.current_volume(), 500);
    assert!(!clip.sink_cleared);

    clip.update_progress(2500);
    assert_eq!(clip.current_volume(), 0);
    assert!(clip.sink_cleared);
    assert!(clip.is_completed(false));
}

#[test]
fn fade_out_during_release_restarts_from_current_gain() {
    let mut clip = ClipWithSink::new(0, &descriptor(), None, true, None, Some(10), None, 2, 0);
    clip.update_progress(100);
    clip.fade_out(1000, 100);
    clip.update_progress(600);
    assert_eq!(clip.current_volume(), 500);

    clip.fade_out(1000, 600);
    clip.update_progress(1100);
    assert_eq!(clip.current_volume(), 250);
}

#[test]
fn progress_wraps_around_known_duration() {
    let mut clip = ClipWithSink::new(0, &descriptor(), Some(1000), true, None, None, None, 2, 0);
    assert_eq!(clip.progress(), Some(0));
    clip.update_progress(250);
    assert_eq!(clip.progress(), Some(250));
    clip.update_progress(999);
    assert_eq!(clip.progress(), Some(999));
    clip.update_progress(1500);
    assert_eq!(clip.progress(), Some(500));
}

#[test]
fn unknown_duration_reports_no_progress() {
    let mut clip = ClipWithSink::new(0, &descriptor(), None, true, None, None, None, 2, 0);
    assert_eq!(clip.progress(), None);
    clip.update_progress(12345);
    assert_eq!(clip.progress(), None);
}

#[test]
fn master_volume_multiplies_envelope_gain() {
    let mut clip = ClipWithSink::new(0, &descriptor(), None, true, None, Some(10), None, 2, 0);
    clip.update_progress(100);
    assert_eq!(clip.current_volume(), 1000);
    clip.set_volume(250);
    assert_eq!(clip.current_volume(), 250);
    clip.set_volume(0);
    assert_eq!(clip.current_volume(), 0);
}

#[test]
fn pause_and_resume_toggle_the_flag() {
    let mut clip = ClipWithSink::new(0, &descriptor(), None, true, None, None, None, 2, 0);
    assert!(!clip.is_paused());
    clip.pause();
    assert!(clip.is_paused());
    clip.resume();
    assert!(!clip.is_paused());
}

#[test]
fn panned_clip_carries_channel_gains() {
    let panned = AudioClipOnDisk::new(
        "p".to_string(),
        "p.wav".to_string(),
        None,
        Some(1000),
        Some(1000),
    );
    let clip = ClipWithSink::new(0, &panned, None, false, None, None, None, 4, 0);
    assert_eq!(clip.channel_volumes, Some((vec![1000, 2000, 1000, 0], 2000)));

    let overridden = ClipWithSink::new(0, &panned, None, false, None, None, Some((0, 0)), 4, 0);
    assert_eq!(overridden.channel_volumes, Some((vec![1000, 0, 0, 0], 1000)));

    let flat = ClipWithSink::new(0, &descriptor(), None, false, None, None, None, 4, 0);
    assert_eq!(flat.channel_volumes, None);
}
