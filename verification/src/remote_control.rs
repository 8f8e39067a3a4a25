//! The remote adapter's typed half: inbound payloads already decoded from
//! the wire become typed [`Instruction`]s here, and the periodic state
//! snapshot is built and gated here. The message-bus client itself, and the
//! byte-level encoding and decoding of payloads, live with the caller.

use vstd::prelude::*;

verus! {

use crate::SCALE;
use crate::loader::spec_default_panning;
use crate::playback::{
    ClipWithSink,
    PanWithRange,
    PlaybackPhase,
    spec_elapsed,
};
use crate::utils::parse_optional_panning;

/// How a scene request reaches its desired set of clips.
#[derive(Clone, Copy, PartialEq, Eq, Structural, Debug)]
pub enum ScenePickMode {
    /// Reconcile: keep requested clips that already play, start the missing
    /// ones looping, stop the rest.
    LoopAll,
    /// Start every requested clip once; stop nothing.
    OnceAll,
    /// Start exactly one requested clip, picked at random, once.
    OnceRandomSinglePick,
}

/// A control applied to every playing clip at once.
#[derive(Clone, Copy, PartialEq, Eq, Structural, Debug)]
pub enum GlobalControlMode {
    PauseAll(),
    ResumeAll(),
    SilenceAll(),
    /// Master multiplier in thousandths of full gain.
    MasterVolume(u32),
}

/// A typed inbound command, as the coordinator consumes it.
#[derive(Debug, PartialEq, Eq)]
pub enum Instruction {
    /// Clip name, whether to loop, optional volume override (thousandths),
    /// optional fade duration (ms), optional panning.
    Add(String, bool, Option<u32>, Option<u64>, Option<PanWithRange>),
    /// Clip name, optional fade duration (ms).
    Remove(String, Option<u64>),
    /// Pick mode, requested clip names, optional fade duration (ms).
    Scene(ScenePickMode, Vec<String>, Option<u64>),
    Global(GlobalControlMode),
}

/// Decoded `clipCommands` payload. Pan and volume fields are fixed-point
/// thousandths; the fade is in milliseconds.
#[derive(Debug, PartialEq, Eq)]
pub struct SingleClipMessage {
    pub command: String,
    pub clip_name: String,
    pub fade_duration: Option<u64>,
    pub pan_position: Option<i32>,
    pub pan_spread: Option<u32>,
    pub volume: Option<u32>,
}

/// Decoded `scenes` payload.
#[derive(Debug, PartialEq, Eq)]
pub struct SceneMessage {
    pub mode: Option<String>,
    pub clip_names: Vec<String>,
    pub fade_duration: Option<u64>,
}

/// Decoded `globalControls` payload.
#[derive(Debug, PartialEq, Eq)]
pub struct GlobalMessage {
    pub command: String,
    pub volume: Option<u32>,
}

/// An inbound payload after wire decoding: one of the three plug schemas, or
/// the mark the caller hands in when the bytes would not decode.
#[derive(Debug, PartialEq, Eq)]
pub enum InboundPayload {
    Clip(SingleClipMessage),
    Scene(SceneMessage),
    Global(GlobalMessage),
    Undecodable,
}

/// Why an inbound message was dropped. Parsing never affects coordinator
/// state; the message is logged and discarded.
#[derive(Clone, Copy, PartialEq, Eq, Structural, Debug)]
pub enum ParseError {
    /// The topic's plug is none of the three the core subscribes to.
    UnknownPlug,
    /// The payload did not decode against the plug's schema.
    MalformedPayload,
    /// An unrecognised `command` in a `clipCommands` payload.
    UnknownCommand,
    /// An unrecognised `mode` in a `scenes` payload.
    UnknownSceneMode,
    /// An unrecognised `command` in a `globalControls` payload.
    UnknownGlobalCommand,
}

/// Volumes from the wire are clamped into full scale.
pub open spec fn spec_clamp_volume(v: u32) -> u32 {
    if v <= SCALE {
        v
    } else {
        SCALE
    }
}

fn clamp_volume(v: u32) -> (r: u32)
    ensures
        r == spec_clamp_volume(v),
{
    if v <= SCALE {
        v
    } else {
        SCALE
    }
}

/// The instruction a `clipCommands` payload stands for.
pub open spec fn spec_parse_clip(m: SingleClipMessage) -> Result<Instruction, ParseError> {
    let panning = spec_default_panning(m.pan_position, m.pan_spread);
    let volume = match m.volume {
        Some(v) => Some(spec_clamp_volume(v)),
        None => None,
    };
    if m.command@ == "hit"@ {
        Ok(Instruction::Add(m.clip_name, false, volume, m.fade_duration, panning))
    } else if m.command@ == "add"@ {
        Ok(Instruction::Add(m.clip_name, true, volume, m.fade_duration, panning))
    } else if m.command@ == "remove"@ {
        Ok(Instruction::Remove(m.clip_name, m.fade_duration))
    } else {
        Err(ParseError::UnknownCommand)
    }
}

/// The instruction a `scenes` payload stands for; a missing mode defaults to
/// `loopAll`.
pub open spec fn spec_parse_scene(m: SceneMessage) -> Result<Instruction, ParseError> {
    let mode = match m.mode {
        Some(s) => s@,
        None => "loopAll"@,
    };
    if mode == "loopAll"@ {
        Ok(Instruction::Scene(ScenePickMode::LoopAll, m.clip_names, m.fade_duration))
    } else if mode == "onceAll"@ {
        Ok(Instruction::Scene(ScenePickMode::OnceAll, m.clip_names, m.fade_duration))
    } else if mode == "onceRandom"@ {
        Ok(Instruction::Scene(ScenePickMode::OnceRandomSinglePick, m.clip_names, m.fade_duration))
    } else {
        Err(ParseError::UnknownSceneMode)
    }
}

/// The instruction a `globalControls` payload stands for; a master-volume
/// command with no volume defaults to silence.
pub open spec fn spec_parse_global(m: GlobalMessage) -> Result<Instruction, ParseError> {
    if m.command@ == "pause"@ {
        Ok(Instruction::Global(GlobalControlMode::PauseAll()))
    } else if m.command@ == "play"@ {
        Ok(Instruction::Global(GlobalControlMode::ResumeAll()))
    } else if m.command@ == "silence"@ {
        Ok(Instruction::Global(GlobalControlMode::SilenceAll()))
    } else if m.command@ == "masterVolume"@ {
        Ok(
            Instruction::Global(
                GlobalControlMode::MasterVolume(
                    spec_clamp_volume(
                        match m.volume {
                            Some(v) => v,
                            None => 0,
                        },
                    ),
                ),
            ),
        )
    } else {
        Err(ParseError::UnknownGlobalCommand)
    }
}

/// The instruction an inbound message stands for: the plug picks the schema,
/// the payload's command or mode picks the variant. Anything unrecognised is
/// an error and the message is dropped.
pub open spec fn spec_parse_instructions(
    plug_name: Seq<char>,
    payload: InboundPayload,
) -> Result<Instruction, ParseError> {
    if plug_name == "clipCommands"@ {
        match payload {
            InboundPayload::Clip(m) => spec_parse_clip(m),
            _ => Err(ParseError::MalformedPayload),
        }
    } else if plug_name == "scenes"@ {
        match payload {
            InboundPayload::Scene(m) => spec_parse_scene(m),
            _ => Err(ParseError::MalformedPayload),
        }
    } else if plug_name == "globalControls"@ {
        match payload {
            InboundPayload::Global(m) => spec_parse_global(m),
            _ => Err(ParseError::MalformedPayload),
        }
    } else {
        Err(ParseError::UnknownPlug)
    }
}

/// One clip's entry in the periodic state snapshot. The progress is in
/// thousandths and absent when the source duration is unknown; the volume is
/// the applied gain in thousandths; the phase is one of `"attack"`,
/// `"sustain"`, `"release"`.
#[derive(Debug, PartialEq, Eq)]
pub struct ClipPlayingEssentialState {
    pub id: usize,
    pub name: String,
    pub progress: Option<u32>,
    pub current_volume: u32,
    pub looping: bool,
    pub phase: String,
}

/// The periodic state snapshot: one entry per playing clip.
#[derive(Debug, PartialEq, Eq)]
pub struct SoundscapeStateMessage {
    pub clips: Vec<ClipPlayingEssentialState>,
}

/// A discrete lifecycle notification, published as it happens.
#[derive(Debug, PartialEq, Eq)]
pub enum SoundscapeEvent {
    ClipStarted(String),
    ClipEnded(String),
}

/// The wire name of an envelope phase.
pub open spec fn spec_phase_name(phase: PlaybackPhase) -> Seq<char> {
    match phase {
        PlaybackPhase::Attack(_) => "attack"@,
        PlaybackPhase::Sustain() => "sustain"@,
        PlaybackPhase::Release(_, _) => "release"@,
    }
}

/// A state entry faithfully summarises a playing clip.
pub open spec fn clip_state_matches(s: ClipPlayingEssentialState, c: ClipWithSink) -> bool {
    &&& s.id == c.id
    &&& s.name == c.name
    &&& s.progress == c.last_known_progress
    &&& s.current_volume == c.spec_applied_volume()
    &&& s.looping == c.is_looping
    &&& s.phase@ == spec_phase_name(c.current_phase)
}

/// The outbound half of the remote adapter: the send-interval timer and the
/// empty-state suppression for the periodic snapshot.
#[derive(Clone, Copy, PartialEq, Eq, Structural, Debug)]
pub struct RemoteControl {
    /// Minimum quiet time between snapshots, in milliseconds.
    pub state_send_interval_ms: u64,
    /// How many consecutive empty snapshots may go out before publishing
    /// pauses until a clip plays again.
    pub state_max_empty: usize,
    /// Consecutive empty snapshots published so far.
    pub count_empty_state_sends: usize,
    /// When a snapshot last went through, in milliseconds.
    pub last_update_sent_ms: u64,
}

/// A snapshot is due: more than the send interval has passed.
pub open spec fn spec_state_due(rc: RemoteControl, now_ms: u64) -> bool {
    spec_elapsed(rc.last_update_sent_ms, now_ms) > rc.state_send_interval_ms
}

/// An empty snapshot is suppressed once the allowed run of empty sends is
/// used up.
pub open spec fn spec_state_suppressed(rc: RemoteControl, no_clips_playing: bool) -> bool {
    no_clips_playing && rc.count_empty_state_sends >= rc.state_max_empty
}

/// The publisher's bookkeeping after one invocation at time `now_ms`: the
/// returned flag says whether a snapshot goes out.
pub open spec fn spec_publish_step(
    rc: RemoteControl,
    now_ms: u64,
    no_clips_playing: bool,
) -> (RemoteControl, bool) {
    if !spec_state_due(rc, now_ms) {
        (rc, false)
    } else if spec_state_suppressed(rc, no_clips_playing) {
        (RemoteControl { last_update_sent_ms: now_ms, ..rc }, false)
    } else {
        (
            RemoteControl {
                last_update_sent_ms: now_ms,
                count_empty_state_sends: if no_clips_playing {
                    (rc.count_empty_state_sends + 1) as usize
                } else {
                    0
                },
                ..rc
            },
            true,
        )
    }
}

/// Once the allowed run of empty snapshots has been published, no further
/// snapshot goes out while nothing is playing, however often the publisher
/// is invoked; any non-empty snapshot starts the run afresh.
pub proof fn lemma_empty_state_suppression(rc: RemoteControl, now_ms: u64)
    requires
        rc.count_empty_state_sends >= rc.state_max_empty,
    ensures
        !spec_publish_step(rc, now_ms, true).1,
        spec_publish_step(rc, now_ms, true).0.count_empty_state_sends
            == rc.count_empty_state_sends,
{
}

/// Publishing an empty snapshot lengthens the recorded run of empty sends;
/// publishing a non-empty one resets it.
pub proof fn lemma_empty_run_counting(rc: RemoteControl, now_ms: u64, no_clips_playing: bool)
    requires
        spec_publish_step(rc, now_ms, no_clips_playing).1,
    ensures
        no_clips_playing ==> spec_publish_step(rc, now_ms, no_clips_playing).0
            .count_empty_state_sends == rc.count_empty_state_sends + 1,
        !no_clips_playing ==> spec_publish_step(rc, now_ms, no_clips_playing).0
            .count_empty_state_sends == 0,
{
}

impl RemoteControl {
    /// Sets up the outbound timing: no snapshot for the first interval, and
    /// a fresh empty-send run.
    pub fn new(state_send_interval_ms: u64, state_max_empty: usize, now_ms: u64) -> (rc:
        RemoteControl)
        ensures
            rc == (RemoteControl {
                state_send_interval_ms,
                state_max_empty,
                count_empty_state_sends: 0,
                last_update_sent_ms: now_ms,
            }),
    {
        RemoteControl {
            state_send_interval_ms,
            state_max_empty,
            count_empty_state_sends: 0,
            last_update_sent_ms: now_ms,
        }
    }

    /// Parses one inbound message into a typed instruction: the plug picks
    /// the schema, the payload's command or mode picks the variant.
    pub fn parse_instructions(&self, plug_name: &str, payload: InboundPayload) -> (r: Result<
        Instruction,
        ParseError,
    >)
        ensures
            r == spec_parse_instructions(plug_name@, payload),
    {
        if crate::utils::str_eq(plug_name, "clipCommands") {
            match payload {
                InboundPayload::Clip(m) => Self::parse_clip_message(m),
                _ => Err(ParseError::MalformedPayload),
            }
        } else if crate::utils::str_eq(plug_name, "scenes") {
            match payload {
                InboundPayload::Scene(m) => Self::parse_scene_message(m),
                _ => Err(ParseError::MalformedPayload),
            }
        } else if crate::utils::str_eq(plug_name, "globalControls") {
            match payload {
                InboundPayload::Global(m) => Self::parse_global_message(m),
                _ => Err(ParseError::MalformedPayload),
            }
        } else {
            Err(ParseError::UnknownPlug)
        }
    }

    fn parse_clip_message(m: SingleClipMessage) -> (r: Result<Instruction, ParseError>)
        ensures
            r == spec_parse_clip(m),
    {
        let panning: Option<PanWithRange> = parse_optional_panning(m.pan_position, m.pan_spread);
        let volume: Option<u32> = match m.volume {
            Some(v) => Some(clamp_volume(v)),
            None => None,
        };
        if crate::utils::str_eq(m.command.as_str(), "hit") {
            Ok(Instruction::Add(m.clip_name, false, volume, m.fade_duration, panning))
        } else if crate::utils::str_eq(m.command.as_str(), "add") {
            Ok(Instruction::Add(m.clip_name, true, volume, m.fade_duration, panning))
        } else if crate::utils::str_eq(m.command.as_str(), "remove") {
            Ok(Instruction::Remove(m.clip_name, m.fade_duration))
        } else {
            Err(ParseError::UnknownCommand)
        }
    }

    fn parse_scene_message(m: SceneMessage) -> (r: Result<Instruction, ParseError>)
        ensures
            r == spec_parse_scene(m),
    {
        let use_default: bool = m.mode.is_none();
        if use_default || crate::utils::str_eq(m.mode.as_ref().unwrap().as_str(), "loopAll") {
            Ok(Instruction::Scene(ScenePickMode::LoopAll, m.clip_names, m.fade_duration))
        } else if crate::utils::str_eq(m.mode.as_ref().unwrap().as_str(), "onceAll") {
            Ok(Instruction::Scene(ScenePickMode::OnceAll, m.clip_names, m.fade_duration))
        } else if crate::utils::str_eq(m.mode.as_ref().unwrap().as_str(), "onceRandom") {
            Ok(
                Instruction::Scene(
                    ScenePickMode::OnceRandomSinglePick,
                    m.clip_names,
                    m.fade_duration,
                ),
            )
        } else {
            Err(ParseError::UnknownSceneMode)
        }
    }

    fn parse_global_message(m: GlobalMessage) -> (r: Result<Instruction, ParseError>)
        ensures
            r == spec_parse_global(m),
    {
        if crate::utils::str_eq(m.command.as_str(), "pause") {
            Ok(Instruction::Global(GlobalControlMode::PauseAll()))
        } else if crate::utils::str_eq(m.command.as_str(), "play") {
            Ok(Instruction::Global(GlobalControlMode::ResumeAll()))
        } else if crate::utils::str_eq(m.command.as_str(), "silence") {
            Ok(Instruction::Global(GlobalControlMode::SilenceAll()))
        } else if crate::utils::str_eq(m.command.as_str(), "masterVolume") {
            let volume: u32 = match m.volume {
                Some(v) => v,
                None => 0,
            };
            Ok(Instruction::Global(GlobalControlMode::MasterVolume(clamp_volume(volume))))
        } else {
            Err(ParseError::UnknownGlobalCommand)
        }
    }

    /// Builds the periodic state snapshot: returns the message to publish
    /// once per send interval, suppressing it after too long a run of empty
    /// snapshots. The caller encodes and publishes what is returned.
    pub fn publish_state_if_ready(&mut self, now_ms: u64, clips: &Vec<ClipWithSink>) -> (r:
        Option<SoundscapeStateMessage>)
        requires
            forall|i: int| 0 <= i < clips@.len() ==> (#[trigger] clips@[i]).wf(),
        ensures
            *final(self) == spec_publish_step(*old(self), now_ms, clips@.len() == 0).0,
            r is Some <==> spec_publish_step(*old(self), now_ms, clips@.len() == 0).1,
            r matches Some(msg) ==> msg.clips@.len() == clips@.len() && forall|i: int|
                0 <= i < clips@.len() ==> clip_state_matches(#[trigger] msg.clips@[i], clips@[i]),
    {
        let elapsed: u64 = if now_ms >= self.last_update_sent_ms {
            now_ms - self.last_update_sent_ms
        } else {
            0
        };
        if elapsed <= self.state_send_interval_ms {
            return None;
        }
        self.last_update_sent_ms = now_ms;

        let no_clips_playing: bool = clips.len() == 0;
        if no_clips_playing {
            if self.count_empty_state_sends >= self.state_max_empty {
                return None;
            }
            self.count_empty_state_sends = self.count_empty_state_sends + 1;
        } else {
            self.count_empty_state_sends = 0;
        }

        let mut clip_states: Vec<ClipPlayingEssentialState> = Vec::new();
        let mut i: usize = 0;
        while i < clips.len()
            invariant
                forall|k: int| 0 <= k < clips@.len() ==> (#[trigger] clips@[k]).wf(),
                i <= clips@.len(),
                clip_states@.len() == i,
                forall|k: int|
                    0 <= k < i ==> clip_state_matches(#[trigger] clip_states@[k], clips@[k]),
            decreases clips@.len() - i,
        {
            let c = &clips[i];
            let phase: String = match c.phase() {
                PlaybackPhase::Attack(_) => "attack".to_owned(),
                PlaybackPhase::Sustain() => "sustain".to_owned(),
                PlaybackPhase::Release(_, _) => "release".to_owned(),
            };
            let entry = ClipPlayingEssentialState {
                id: c.id(),
                name: c.name.clone(),
                progress: c.progress(),
                current_volume: c.current_volume(),
                looping: c.is_looping(),
                phase,
            };
            clip_states.push(entry);
            i = i + 1;
        }
        Some(SoundscapeStateMessage { clips: clip_states })
    }
}

} // verus!
