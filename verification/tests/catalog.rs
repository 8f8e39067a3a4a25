//! Catalog loading, validation, and lookup.

use soundscape::loader::{AudioClipOnDisk, LoadError, SoundBank, get_sound_asset_path};
use soundscape::model::Model;
use soundscape::playback::PanWithRange;
use soundscape::utils::{get_clip_index_with_id, get_clip_index_with_name, get_highest_id};
use std::time::Duration;

fn clip(name: &str) -> AudioClipOnDisk {
    AudioClipOnDisk::new(name.to_string(), format!("{name}.wav"), None, None, None)
}

#[test]
fn load_accepts_distinct_names() {
    let bank = SoundBank::new(vec![clip("frog"), clip("drone"), clip("rain")]);
    assert!(bank.is_ok());
    assert_eq!(bank.unwrap().clips().len(), 3);
}

#[test]
fn load_rejects_duplicate_names_ignoring_case() {
    let bank = SoundBank::new(vec![clip("Frog"), clip("drone"), clip("fROG")]);
    assert_eq!(bank.unwrap_err(), LoadError::DuplicateName);
}

#[test]
fn load_rejects_volume_beyond_full_gain() {
    let loud = AudioClipOnDisk::new("loud".to_string(), "loud.wav".to_string(), Some(1001), None, None);
    let bank = SoundBank::new(vec![clip("frog"), loud]);
    assert_eq!(bank.unwrap_err(), LoadError::VolumeOutOfRange);
}

#[test]
fn find_by_name_ignores_ascii_case() {
    let bank = SoundBank::new(vec![clip("Frog"), clip("Drone")]).unwrap();
    assert_eq!(bank.find_by_name("fROG"), Some(0));
    assert_eq!(bank.find_by_name("drone"), Some(1));
    assert_eq!(bank.find_by_name("rain"), None);
}

#[test]
fn descriptor_panning_defaults_spread() {
    let with_pan = AudioClipOnDisk::new(
        "p".to_string(),
        "p.wav".to_string(),
        Some(800),
        Some(1500),
        None,
    );
    assert_eq!(with_pan.panning(), Some((1500, 1000)));
    assert_eq!(with_pan.volume(), Some(800));

    let with_both = AudioClipOnDisk::new(
        "q".to_string(),
        "q.wav".to_string(),
        None,
        Some(500),
        Some(2000),
    );
    assert_eq!(with_both.panning(), Some((500, 2000)));
    assert_eq!(clip("r").panning(), None);
}

#[test]
fn asset_paths_resolve_against_manifest_directory() {
    assert_eq!(get_sound_asset_path("/srv/bank", "frog.wav"), "/srv/bank/frog.wav");
    assert_eq!(get_sound_asset_path("/srv/bank", "/abs/frog.wav"), "/abs/frog.wav");
    // A manifest named without a directory leaves the clip path untouched,
    // and a directory already ending in a separator gets no second one.
    assert_eq!(get_sound_asset_path("", "frog.wav"), "frog.wav");
    assert_eq!(get_sound_asset_path("/srv/bank/", "frog.wav"), "/srv/bank/frog.wav");
}

#[test]
fn optional_ms_to_duration_converts() {
    assert_eq!(soundscape::utils::optional_ms_to_duration(None), None);
    assert_eq!(
        soundscape::utils::optional_ms_to_duration(Some(2500)),
        Some(Duration::from_millis(2500))
    );
}

#[test]
fn pick_random_clip_returns_a_listed_name() {
    let names: Vec<String> = vec!["a".to_string(), "b".to_string(), "c".to_string()];
    for _ in 0..20 {
        let picked = soundscape::utils::pick_random_clip(names.clone());
        assert!(names.contains(&picked));
    }
}

#[test]
fn clip_lookup_helpers_find_by_name_and_id() {
    let bank = SoundBank::new(vec![clip("frog"), clip("drone")]).unwrap();
    let mut model = Model::new(bank, vec![Some(1000), None], 2, None);
    let pan: Option<PanWithRange> = None;
    assert!(model.play_one_clip("frog", false, None, None, pan, 0));
    assert!(model.play_one_clip("drone", true, None, None, None, 0));

    let by_name = get_clip_index_with_name(&model.clips_playing, "drone").unwrap();
    assert_eq!(by_name.0, 1);
    assert_eq!(by_name.1.id, 1);
    assert!(get_clip_index_with_name(&model.clips_playing, "Drone").is_none());

    let by_id = get_clip_index_with_id(&model.clips_playing, 0).unwrap();
    assert_eq!(by_id.1.name, "frog");
    assert!(get_clip_index_with_id(&model.clips_playing, 5).is_none());
    assert_eq!(
        soundscape::utils::get_clip_index_with_id_mut(&mut model.clips_playing, 1),
        Some(1)
    );

    assert_eq!(get_highest_id(&model.clips_playing), 2);
    assert_eq!(get_highest_id(&[]), 0);
}
