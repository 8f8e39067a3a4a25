//! End-to-end coordinator scenarios, driven tick by tick through
//! `internal_update` with a simulated clock and sink reports.

use rand::{Rng, SeedableRng};
use soundscape::loader::{AudioClipOnDisk, SoundBank};
use soundscape::model::ActionQueueItem;
use soundscape::remote_control::ScenePickMode;
use soundscape::model::{Model, TickOutput};
use soundscape::playback::PlaybackPhase;
use soundscape::remote_control::{
    InboundPayload, RemoteControl, SceneMessage, SingleClipMessage, GlobalMessage, SoundscapeEvent,
};

fn clip(name: &str) -> AudioClipOnDisk {
    AudioClipOnDisk::new(name.to_string(), format!("{name}.wav"), None, None, None)
}

fn model_with(names: &[&str], durations: Vec<Option<u64>>) -> Model {
    let bank = SoundBank::new(names.iter().map(|n| clip(n)).collect()).unwrap();
    Model::new(bank, durations, 2, Some(RemoteControl::new(40, 8, 0)))
}

fn clip_command(command: &str, name: &str, fade: Option<u64>) -> (String, InboundPayload) {
    (
        "clipCommands".to_string(),
        InboundPayload::Clip(SingleClipMessage {
            command: command.to_string(),
            clip_name: name.to_string(),
            fade_duration: fade,
            pan_position: None,
            pan_spread: None,
            volume: None,
        }),
    )
}

fn scene_command(mode: &str, names: &[&str], fade: Option<u64>) -> (String, InboundPayload) {
    (
        "scenes".to_string(),
        InboundPayload::Scene(SceneMessage {
            mode: Some(mode.to_string()),
            clip_names: names.iter().map(|n| n.to_string()).collect(),
            fade_duration: fade,
        }),
    )
}

fn global_command(command: &str, volume: Option<u32>) -> (String, InboundPayload) {
    (
        "globalControls".to_string(),
        InboundPayload::Global(GlobalMessage { command: command.to_string(), volume }),
    )
}

fn started_names(out: &TickOutput) -> Vec<String> {
    out.started_events
        .iter()
        .map(|e| match e {
            SoundscapeEvent::ClipStarted(n) => n.clone(),
            SoundscapeEvent::ClipEnded(n) => panic!("unexpected end event for {n}"),
        })
        .collect()
}

#[test]
fn hit_then_natural_end() {
    let mut model = model_with(&["frog"], vec![Some(1000)]);

    let out = model.internal_update(0, false, &vec![], vec![clip_command("hit", "frog", None)]);
    assert_eq!(started_names(&out), vec!["frog".to_string()]);
    assert!(out.ended_event.is_none());
    assert_eq!(model.clips_playing.len(), 1);
    assert!(!model.clips_playing[0].is_looping);

    // The source runs out after its one-second duration; the sink reports
    // empty and the next tick prunes the clip and reports its end.
    let out = model.internal_update(1100, true, &vec![true], vec![]);
    assert_eq!(out.ended_event, Some(SoundscapeEvent::ClipEnded("frog".to_string())));
    assert_eq!(model.clips_playing.len(), 0);
    let state = out.state_message.expect("state publish was due");
    assert_eq!(state.clips.len(), 0);
}

#[test]
fn fade_out_mid_playback() {
    let mut model = model_with(&["drone"], vec![None]);

    model.internal_update(0, false, &vec![], vec![clip_command("add", "drone", None)]);
    assert_eq!(model.clips_playing.len(), 1);
    assert!(model.clips_playing[0].is_looping);

    let out = model.internal_update(500, true, &vec![false], vec![
        clip_command("remove", "drone", Some(2000)),
    ]);
    assert!(out.ended_event.is_none());
    assert!(matches!(model.clips_playing[0].current_phase, PlaybackPhase::Release(500, _)));

    let mut last_volume = u32::MAX;
    for t in [1000u64, 1500, 2000, 2400] {
        let out = model.internal_update(t, true, &vec![false], vec![]);
        let state = out.state_message.expect("state publish was due");
        assert_eq!(state.clips.len(), 1);
        assert_eq!(state.clips[0].phase, "release");
        assert!(state.clips[0].current_volume < last_volume);
        last_volume = state.clips[0].current_volume;
    }

    // At 2500 ms the release ramp (2000 ms from t=500) has played out: the
    // clip stops itself and is pruned.
    let out = model.internal_update(2600, true, &vec![false], vec![]);
    assert_eq!(out.ended_event, Some(SoundscapeEvent::ClipEnded("drone".to_string())));
    assert_eq!(model.clips_playing.len(), 0);
}

#[test]
fn scene_loop_all_transition() {
    let mut model = model_with(&["A", "B", "C"], vec![None, None, None]);

    model.internal_update(0, false, &vec![], vec![
        clip_command("add", "A", None),
        clip_command("add", "B", None),
    ]);
    assert_eq!(model.clips_playing.len(), 2);
    let id_of_b = model
        .clips_playing
        .iter()
        .find(|c| c.name == "B")
        .expect("B is playing")
        .id;

    let out = model.internal_update(100, false, &vec![false, false], vec![
        scene_command("loopAll", &["B", "C"], Some(1000)),
    ]);
    assert_eq!(started_names(&out), vec!["C".to_string()]);

    // B keeps its id and its envelope; A is fading out; C is new and loops.
    let b = model.clips_playing.iter().find(|c| c.name == "B").unwrap();
    assert_eq!(b.id, id_of_b);
    assert!(!matches!(b.current_phase, PlaybackPhase::Release(_, _)));
    let a = model.clips_playing.iter().find(|c| c.name == "A").unwrap();
    assert!(matches!(a.current_phase, PlaybackPhase::Release(100, _)));
    let c = model.clips_playing.iter().find(|c| c.name == "C").unwrap();
    assert!(c.is_looping);
    assert!(c.id > id_of_b);
}

#[test]
fn scene_empty_stops_all() {
    let mut model = model_with(&["X", "Y"], vec![None, None]);
    model.internal_update(0, false, &vec![], vec![
        clip_command("add", "X", None),
        clip_command("add", "Y", None),
    ]);

    model.internal_update(100, false, &vec![false, false], vec![
        scene_command("loopAll", &[], Some(500)),
    ]);
    for c in &model.clips_playing {
        assert!(matches!(c.current_phase, PlaybackPhase::Release(100, _)));
    }

    // Both releases end around 600 ms; completions are pruned one per tick.
    let out = model.internal_update(700, true, &vec![false, false], vec![]);
    assert!(matches!(out.ended_event, Some(SoundscapeEvent::ClipEnded(_))));
    assert_eq!(model.clips_playing.len(), 1);

    let out = model.internal_update(720, true, &vec![false], vec![]);
    assert!(matches!(out.ended_event, Some(SoundscapeEvent::ClipEnded(_))));
    assert_eq!(model.clips_playing.len(), 0);
}

#[test]
fn at_most_one_completion_per_tick() {
    let mut model = model_with(&["X", "Y", "Z"], vec![Some(100), Some(100), Some(100)]);
    model.internal_update(0, false, &vec![], vec![
        clip_command("hit", "X", None),
        clip_command("hit", "Y", None),
        clip_command("hit", "Z", None),
    ]);
    assert_eq!(model.clips_playing.len(), 3);

    // All three sinks report empty at once; the vector loses exactly one
    // clip per tick.
    let out = model.internal_update(200, true, &vec![true, true, true], vec![]);
    assert!(out.ended_event.is_some());
    assert_eq!(model.clips_playing.len(), 2);
    model.internal_update(210, true, &vec![true, true], vec![]);
    assert_eq!(model.clips_playing.len(), 1);
    model.internal_update(220, true, &vec![true], vec![]);
    assert_eq!(model.clips_playing.len(), 0);
}

#[test]
fn once_random_pick_is_reproducible_with_a_seeded_sequence() {
    let names: Vec<String> = vec!["a".to_string(), "b".to_string(), "c".to_string()];
    let picks_of = |seed: u64| -> Vec<String> {
        let mut rng = rand::rngs::StdRng::seed_from_u64(seed);
        let mut picked: Vec<String> = Vec::new();
        for _ in 0..3 {
            let pick: usize = rng.gen_range(0..names.len());
            let mut model = model_with(&["a", "b", "c"], vec![None, None, None]);
            model.enqueue_scene(ScenePickMode::OnceRandomSinglePick, names.clone(), None, pick);
            assert_eq!(model.action_queue.len(), 1);
            match &model.action_queue[0] {
                ActionQueueItem::Play(name, None, None, false, None) => picked.push(name.clone()),
                other => panic!("unexpected action {other:?}"),
            }
        }
        picked
    };

    let first = picks_of(42);
    let second = picks_of(42);
    assert_eq!(first, second);
    for name in &first {
        assert!(names.contains(name));
    }
}

#[test]
fn global_master_volume_scales_both_clips() {
    let mut model = model_with(&["X", "Y"], vec![None, None]);
    model.internal_update(0, false, &vec![], vec![
        clip_command("add", "X", None),
        clip_command("add", "Y", None),
    ]);

    // After the default fade-in both clips sit at full gain.
    let out = model.internal_update(50, true, &vec![false, false], vec![]);
    let state = out.state_message.expect("state publish was due");
    assert!(state.clips.iter().all(|c| c.current_volume == 1000));

    model.internal_update(60, false, &vec![false, false], vec![
        global_command("masterVolume", Some(250)),
    ]);

    let out = model.internal_update(120, true, &vec![false, false], vec![]);
    let state = out.state_message.expect("state publish was due");
    assert_eq!(state.clips.len(), 2);
    assert!(state.clips.iter().all(|c| c.current_volume == 250));
    // Clips are otherwise unaffected.
    assert!(state.clips.iter().all(|c| c.phase == "sustain"));
}

#[test]
fn global_pause_resume_and_silence() {
    let mut model = model_with(&["X"], vec![None]);
    model.internal_update(0, false, &vec![], vec![clip_command("add", "X", None)]);

    model.internal_update(10, false, &vec![false], vec![global_command("pause", None)]);
    assert!(model.clips_playing[0].paused);
    model.internal_update(20, false, &vec![false], vec![global_command("play", None)]);
    assert!(!model.clips_playing[0].paused);

    model.internal_update(30, false, &vec![false], vec![global_command("silence", None)]);
    assert!(matches!(
        model.clips_playing[0].current_phase,
        PlaybackPhase::Release(30, t) if t.duration_ms == 100
    ));
}

#[test]
fn empty_state_publishes_are_suppressed_after_the_allowed_run() {
    let bank = SoundBank::new(vec![clip("frog")]).unwrap();
    let mut model = Model::new(bank, vec![None], 2, Some(RemoteControl::new(10, 2, 0)));

    // Two empty snapshots may go out, then silence until a clip plays.
    assert!(model.internal_update(20, false, &vec![], vec![]).state_message.is_some());
    assert!(model.internal_update(40, false, &vec![], vec![]).state_message.is_some());
    assert!(model.internal_update(60, false, &vec![], vec![]).state_message.is_none());
    assert!(model.internal_update(80, false, &vec![], vec![]).state_message.is_none());

    // A playing clip resets the run.
    let out = model.internal_update(100, false, &vec![], vec![clip_command("add", "frog", None)]);
    assert!(out.state_message.is_some());
    assert_eq!(out.state_message.unwrap().clips.len(), 1);
}

#[test]
fn state_publishes_are_gated_by_the_send_interval() {
    let bank = SoundBank::new(vec![clip("frog")]).unwrap();
    let mut model = Model::new(bank, vec![None], 2, Some(RemoteControl::new(40, 8, 0)));
    model.internal_update(0, false, &vec![], vec![clip_command("add", "frog", None)]);

    assert!(model.internal_update(30, false, &vec![false], vec![]).state_message.is_none());
    assert!(model.internal_update(41, false, &vec![false], vec![]).state_message.is_some());
    assert!(model.internal_update(60, false, &vec![false], vec![]).state_message.is_none());
}

#[test]
fn unknown_clip_name_is_dropped_without_an_event() {
    let mut model = model_with(&["frog"], vec![None]);
    let out = model.internal_update(0, false, &vec![], vec![clip_command("hit", "toad", None)]);
    assert!(out.started_events.is_empty());
    assert_eq!(model.clips_playing.len(), 0);
}

#[test]
fn malformed_messages_are_dropped_and_counted() {
    let mut model = model_with(&["frog"], vec![None]);
    let out = model.internal_update(0, false, &vec![], vec![
        ("clipCommands".to_string(), InboundPayload::Undecodable),
        ("weather".to_string(), InboundPayload::Undecodable),
        clip_command("hit", "frog", None),
    ]);
    assert_eq!(out.dropped_messages, 2);
    assert_eq!(model.clips_playing.len(), 1);
}

#[test]
fn state_snapshot_reports_ids_names_progress_and_looping() {
    let mut model = model_with(&["frog"], vec![Some(1000)]);
    model.internal_update(0, false, &vec![], vec![clip_command("add", "frog", None)]);
    let out = model.internal_update(250, true, &vec![false], vec![]);
    let state = out.state_message.expect("state publish was due");
    assert_eq!(state.clips.len(), 1);
    let entry = &state.clips[0];
    assert_eq!(entry.id, 0);
    assert_eq!(entry.name, "frog");
    assert_eq!(entry.progress, Some(250));
    assert!(entry.looping);
    assert_eq!(entry.phase, "sustain");
}

#[test]
fn case_insensitive_lookup_plays_the_catalog_entry() {
    let mut model = model_with(&["Frog"], vec![None]);
    let out = model.internal_update(0, false, &vec![], vec![clip_command("hit", "fROG", None)]);
    // The start event carries the requested name; the clip carries the
    // catalog's.
    assert_eq!(started_names(&out), vec!["fROG".to_string()]);
    assert_eq!(model.clips_playing[0].name, "Frog");
}

#[test]
fn once_all_scene_plays_everything_once_and_stops_nothing() {
    let mut model = model_with(&["A", "B"], vec![None, None]);
    model.internal_update(0, false, &vec![], vec![clip_command("add", "A", None)]);

    let out = model.internal_update(50, false, &vec![false], vec![
        scene_command("onceAll", &["A", "B"], None),
    ]);
    let mut names = started_names(&out);
    names.sort();
    assert_eq!(names, vec!["A".to_string(), "B".to_string()]);
    // The already-playing A is untouched, and the new instances do not loop.
    assert_eq!(model.clips_playing.len(), 3);
    assert!(model.clips_playing.iter().all(|c| !matches!(
        c.current_phase,
        PlaybackPhase::Release(_, _)
    )));
    assert!(model.clips_playing.iter().filter(|c| !c.is_looping).count() == 2);
}

#[test]
fn once_all_with_empty_names_stops_everything() {
    let mut model = model_with(&["A", "B"], vec![None, None]);
    model.internal_update(0, false, &vec![], vec![
        clip_command("add", "A", None),
        clip_command("add", "B", None),
    ]);

    model.internal_update(50, false, &vec![false, false], vec![
        scene_command("onceAll", &[], None),
    ]);
    assert!(model.clips_playing.iter().all(|c| c.sink_cleared));
}

#[test]
fn remove_stops_every_instance_of_the_name() {
    let mut model = model_with(&["drone"], vec![None]);
    // A second add of an already-playing clip creates a second instance.
    model.internal_update(0, false, &vec![], vec![
        clip_command("add", "drone", None),
        clip_command("add", "drone", None),
    ]);
    assert_eq!(model.clips_playing.len(), 2);
    assert_ne!(model.clips_playing[0].id, model.clips_playing[1].id);

    model.internal_update(50, false, &vec![false, false], vec![
        clip_command("remove", "drone", None),
    ]);
    assert!(model.clips_playing.iter().all(|c| c.sink_cleared));
}

#[test]
fn empty_once_random_scene_is_dropped() {
    let mut model = model_with(&["a"], vec![None]);
    let out = model.internal_update(0, false, &vec![], vec![
        scene_command("onceRandom", &[], None),
    ]);
    assert!(out.started_events.is_empty());
    assert_eq!(model.clips_playing.len(), 0);
    assert_eq!(model.action_queue.len(), 0);
}

#[test]
fn remove_matches_names_ignoring_ascii_case() {
    let mut model = model_with(&["Frog"], vec![None]);
    // The clip carries the catalog's spelling; a remove with any spelling of
    // the name still stops it.
    model.internal_update(0, false, &vec![], vec![clip_command("add", "fROG", None)]);
    assert_eq!(model.clips_playing[0].name, "Frog");

    model.internal_update(50, false, &vec![false], vec![
        clip_command("remove", "FROG", None),
    ]);
    assert!(model.clips_playing[0].sink_cleared);
}

#[test]
fn state_omits_progress_for_unknown_duration_sources() {
    let mut model = model_with(&["drone"], vec![None]);
    model.internal_update(0, false, &vec![], vec![clip_command("add", "drone", None)]);
    let out = model.internal_update(250, true, &vec![false], vec![]);
    let state = out.state_message.expect("state publish was due");
    assert_eq!(state.clips[0].progress, None);
}
