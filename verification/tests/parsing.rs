//! Inbound message parsing: plug dispatch, command and mode dispatch,
//! defaults, clamping, and the error taxonomy.

use soundscape::remote_control::{
    GlobalControlMode, InboundPayload, Instruction, ParseError, RemoteControl, SceneMessage,
    ScenePickMode, SingleClipMessage, GlobalMessage,
};

fn adapter() -> RemoteControl {
    RemoteControl::new(40, 8, 0)
}

fn clip_message(command: &str) -> SingleClipMessage {
    SingleClipMessage {
        command: command.to_string(),
        clip_name: "frog".to_string(),
        fade_duration: Some(200),
        pan_position: None,
        pan_spread: None,
        volume: None,
    }
}

#[test]
fn hit_parses_to_one_shot_add() {
    let parsed = adapter().parse_instructions("clipCommands", InboundPayload::Clip(clip_message("hit")));
    assert_eq!(
        parsed,
        Ok(Instruction::Add("frog".to_string(), false, None, Some(200), None))
    );
}

#[test]
fn add_parses_to_looping_add() {
    let parsed = adapter().parse_instructions("clipCommands", InboundPayload::Clip(clip_message("add")));
    assert_eq!(
        parsed,
        Ok(Instruction::Add("frog".to_string(), true, None, Some(200), None))
    );
}

#[test]
fn remove_parses_with_fade() {
    let parsed = adapter().parse_instructions(
        "clipCommands",
        InboundPayload::Clip(clip_message("remove")),
    );
    assert_eq!(parsed, Ok(Instruction::Remove("frog".to_string(), Some(200))));
}

#[test]
fn unknown_command_is_rejected() {
    let parsed = adapter().parse_instructions(
        "clipCommands",
        InboundPayload::Clip(clip_message("explode")),
    );
    assert_eq!(parsed, Err(ParseError::UnknownCommand));
}

#[test]
fn clip_volume_and_panning_are_carried_and_clamped() {
    let mut message = clip_message("hit");
    message.volume = Some(5000);
    message.pan_position = Some(1500);
    let parsed = adapter().parse_instructions("clipCommands", InboundPayload::Clip(message));
    assert_eq!(
        parsed,
        Ok(Instruction::Add(
            "frog".to_string(),
            false,
            Some(1000),
            Some(200),
            Some((1500, 1000))
        ))
    );
}

#[test]
fn scene_mode_defaults_to_loop_all() {
    let message = SceneMessage {
        mode: None,
        clip_names: vec!["a".to_string(), "b".to_string()],
        fade_duration: None,
    };
    let parsed = adapter().parse_instructions("scenes", InboundPayload::Scene(message));
    assert_eq!(
        parsed,
        Ok(Instruction::Scene(
            ScenePickMode::LoopAll,
            vec!["a".to_string(), "b".to_string()],
            None
        ))
    );
}

#[test]
fn scene_modes_parse_by_name() {
    for (wire, mode) in [
        ("loopAll", ScenePickMode::LoopAll),
        ("onceAll", ScenePickMode::OnceAll),
        ("onceRandom", ScenePickMode::OnceRandomSinglePick),
    ] {
        let message = SceneMessage {
            mode: Some(wire.to_string()),
            clip_names: vec!["a".to_string()],
            fade_duration: Some(10),
        };
        let parsed = adapter().parse_instructions("scenes", InboundPayload::Scene(message));
        assert_eq!(
            parsed,
            Ok(Instruction::Scene(mode, vec!["a".to_string()], Some(10)))
        );
    }
}

#[test]
fn unknown_scene_mode_is_rejected() {
    let message = SceneMessage {
        mode: Some("shuffle".to_string()),
        clip_names: vec![],
        fade_duration: None,
    };
    let parsed = adapter().parse_instructions("scenes", InboundPayload::Scene(message));
    assert_eq!(parsed, Err(ParseError::UnknownSceneMode));
}

#[test]
fn global_commands_parse_by_name() {
    let cases: [(&str, Option<u32>, GlobalControlMode); 5] = [
        ("pause", None, GlobalControlMode::PauseAll()),
        ("play", None, GlobalControlMode::ResumeAll()),
        ("silence", None, GlobalControlMode::SilenceAll()),
        ("masterVolume", Some(250), GlobalControlMode::MasterVolume(250)),
        ("masterVolume", None, GlobalControlMode::MasterVolume(0)),
    ];
    for (wire, volume, mode) in cases {
        let message = GlobalMessage { command: wire.to_string(), volume };
        let parsed = adapter().parse_instructions("globalControls", InboundPayload::Global(message));
        assert_eq!(parsed, Ok(Instruction::Global(mode)));
    }
}

#[test]
fn unknown_global_command_is_rejected() {
    let message = GlobalMessage { command: "mute".to_string(), volume: None };
    let parsed = adapter().parse_instructions("globalControls", InboundPayload::Global(message));
    assert_eq!(parsed, Err(ParseError::UnknownGlobalCommand));
}

#[test]
fn unknown_plug_is_rejected() {
    let parsed = adapter().parse_instructions("weather", InboundPayload::Clip(clip_message("hit")));
    assert_eq!(parsed, Err(ParseError::UnknownPlug));
}

#[test]
fn mismatched_or_undecodable_payload_is_rejected() {
    let parsed = adapter().parse_instructions("scenes", InboundPayload::Clip(clip_message("hit")));
    assert_eq!(parsed, Err(ParseError::MalformedPayload));
    let parsed = adapter().parse_instructions("clipCommands", InboundPayload::Undecodable);
    assert_eq!(parsed, Err(ParseError::MalformedPayload));
}
