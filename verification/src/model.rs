//! The command coordinator: owns the catalog, the playing set, and the
//! action queue, and drives one control-loop tick at a time. The caller
//! supplies the clock, the per-clip sink-empty flags, and the already-decoded
//! inbound messages, and performs the returned publishes; everything the tick
//! decides is decided here.

use vstd::prelude::*;

verus! {

use crate::SCALE;
use crate::loader::{
    SoundBank,
    spec_find_by_name,
    lemma_find_by_name_characterisation,
};
use crate::loader::AudioClipOnDisk;
use crate::playback::{
    ClipWithSink,
    PanWithRange,
    PlaybackPhase,
    StoredTweener,
    pan_gains_match,
    spec_effective_panning,
    spec_effective_volume,
    spec_update_clip,
    DEFAULT_FADE_IN_MS,
};
use crate::utils::{lower_seq, eq_ignore_case_spec};
use crate::remote_control::{
    GlobalControlMode,
    InboundPayload,
    Instruction,
    RemoteControl,
    ScenePickMode,
    SoundscapeEvent,
    SoundscapeStateMessage,
    clip_state_matches,
    spec_parse_instructions,
    spec_publish_step,
};

/// A queued side-effect, decoupled from its source so that local and remote
/// control share one path. The queue drains last-in first-out.
#[derive(Debug, PartialEq, Eq)]
pub enum ActionQueueItem {
    /// Start playback: name, optional volume override (thousandths),
    /// optional fade duration (ms), whether to loop, optional pan override.
    Play(String, Option<u32>, Option<u64>, bool, Option<PanWithRange>),
    /// Stop or fade out the playing clip with this id; fade duration in ms.
    Stop(usize, Option<u64>),
}

/// A queued action never carries a volume beyond full gain.
pub open spec fn action_wf(a: ActionQueueItem) -> bool {
    match a {
        ActionQueueItem::Play(_, volume, _, _, _) => match volume {
            Some(v) => v <= SCALE,
            None => true,
        },
        ActionQueueItem::Stop(_, _) => true,
    }
}

/// Per-channel last-seen timestamps (milliseconds), for diagnostics and the
/// local display only.
#[derive(Debug, PartialEq, Eq)]
pub struct MessageStats {
    pub last_clip_message: Option<u64>,
    pub last_scene_message: Option<u64>,
    pub last_global_control_message: Option<u64>,
    pub last_state_message: Option<u64>,
    pub last_events_message: Option<u64>,
}

/// The command coordinator's state: catalog, playing set, pending actions,
/// and the outbound-state gating. The source durations, probed when the
/// catalog's files are first opened, sit beside the catalog entries.
pub struct Model {
    pub sound_bank: SoundBank,
    /// Decoded total duration of each catalog entry's source, in
    /// milliseconds, index-aligned with the catalog; `None` for sources of
    /// unknown length.
    pub clip_durations_ms: Vec<Option<u64>>,
    pub clips_playing: Vec<ClipWithSink>,
    pub action_queue: Vec<ActionQueueItem>,
    pub output_channels_used: u16,
    /// Next id to assign: ids are unique for the process lifetime and
    /// monotonically non-decreasing.
    pub next_clip_id: usize,
    pub remote_control: Option<RemoteControl>,
    pub message_stats: MessageStats,
}

impl Model {
    /// The coordinator invariant: a well-formed catalog with one probed
    /// duration per entry, well-formed playing clips with unique ids below
    /// the id counter, and well-formed queued actions.
    pub open spec fn wf(&self) -> bool {
        &&& self.sound_bank.wf()
        &&& self.clip_durations_ms@.len() == self.sound_bank.clips@.len()
        &&& forall|i: int|
            0 <= i < self.clips_playing@.len() ==> (#[trigger] self.clips_playing@[i]).wf()
        &&& forall|i: int|
            0 <= i < self.clips_playing@.len() ==> (#[trigger] self.clips_playing@[i]).id
                < self.next_clip_id
        &&& forall|i: int, j: int|
            0 <= i < j < self.clips_playing@.len() ==> (#[trigger] self.clips_playing@[i]).id != (
            #[trigger] self.clips_playing@[j]).id
        &&& forall|i: int|
            0 <= i < self.action_queue@.len() ==> action_wf(#[trigger] self.action_queue@[i])
    }

    /// Sets up a coordinator over a loaded catalog: nothing playing, nothing
    /// queued, no message seen yet.
    pub fn new(
        sound_bank: SoundBank,
        clip_durations_ms: Vec<Option<u64>>,
        output_channels_used: u16,
        remote_control: Option<RemoteControl>,
    ) -> (model: Model)
        requires
            sound_bank.wf(),
            clip_durations_ms@.len() == sound_bank.clips@.len(),
        ensures
            model.sound_bank == sound_bank,
            model.clip_durations_ms == clip_durations_ms,
            model.clips_playing@ == Seq::<ClipWithSink>::empty(),
            model.action_queue@ == Seq::<ActionQueueItem>::empty(),
            model.output_channels_used == output_channels_used,
            model.next_clip_id == 0,
            model.remote_control == remote_control,
            model.message_stats == (MessageStats {
                last_clip_message: None,
                last_scene_message: None,
                last_global_control_message: None,
                last_state_message: None,
                last_events_message: None,
            }),
            model.wf(),
    {
        Model {
            sound_bank,
            clip_durations_ms,
            clips_playing: Vec::new(),
            action_queue: Vec::new(),
            output_channels_used,
            next_clip_id: 0,
            remote_control,
            message_stats: MessageStats {
                last_clip_message: None,
                last_scene_message: None,
                last_global_control_message: None,
                last_state_message: None,
                last_events_message: None,
            },
        }
    }
}

/// Whether a clip is done sounding, given its sink's emptiness report.
pub open spec fn spec_clip_completed(c: ClipWithSink, sink_empty: bool) -> bool {
    sink_empty || c.sink_cleared
}

/// Every playing clip advanced to time `now_ms`.
pub open spec fn spec_updated_clips(clips: Seq<ClipWithSink>, now_ms: u64) -> Seq<ClipWithSink> {
    clips.map(|i: int, c: ClipWithSink| spec_update_clip(c, now_ms))
}

/// Index of the first completed clip at or after `from`, by scan order.
pub open spec fn spec_first_completed(
    clips: Seq<ClipWithSink>,
    sink_empty: Seq<bool>,
    from: int,
) -> Option<int>
    decreases clips.len() - from,
{
    if from < 0 || from >= clips.len() {
        None
    } else if spec_clip_completed(clips[from], sink_empty[from]) {
        Some(from)
    } else {
        spec_first_completed(clips, sink_empty, from + 1)
    }
}

/// A scan that has ruled out everything before `from` finds the same first
/// completed clip whether it starts at the beginning or at `from`.
proof fn lemma_first_completed_skip(clips: Seq<ClipWithSink>, sink_empty: Seq<bool>, from: int)
    requires
        0 <= from <= clips.len(),
        forall|j: int| 0 <= j < from ==> !spec_clip_completed(clips[j], sink_empty[j]),
    ensures
        spec_first_completed(clips, sink_empty, 0) == spec_first_completed(
            clips,
            sink_empty,
            from,
        ),
    decreases from,
{
    if from > 0 {
        lemma_first_completed_skip(clips, sink_empty, from - 1);
    }
}

/// What the scan finds is in range and completed.
pub proof fn lemma_first_completed_in_range(clips: Seq<ClipWithSink>, sink_empty: Seq<bool>)
    ensures
        match spec_first_completed(clips, sink_empty, 0) {
            Some(i) => 0 <= i < clips.len() && spec_clip_completed(clips[i], sink_empty[i]),
            None => forall|i: int|
                0 <= i < clips.len() ==> !spec_clip_completed(clips[i], sink_empty[i]),
        },
{
    lemma_first_completed_range(clips, sink_empty, 0);
}

proof fn lemma_first_completed_range(clips: Seq<ClipWithSink>, sink_empty: Seq<bool>, from: int)
    requires
        0 <= from,
    ensures
        match spec_first_completed(clips, sink_empty, from) {
            Some(i) => from <= i < clips.len() && spec_clip_completed(clips[i], sink_empty[i]),
            None => forall|i: int|
                from <= i < clips.len() ==> !spec_clip_completed(clips[i], sink_empty[i]),
        },
    decreases clips.len() - from,
{
    if from < clips.len() {
        lemma_first_completed_range(clips, sink_empty, from + 1);
    }
}

/// One call to `check_progress` removes at most one clip from the playing
/// set: one when the scan finds a completed clip, none otherwise.
pub proof fn lemma_at_most_one_completion_per_tick(
    clips: Seq<ClipWithSink>,
    sink_empty: Seq<bool>,
    now_ms: u64,
)
    ensures
        match spec_first_completed(spec_updated_clips(clips, now_ms), sink_empty, 0) {
            Some(i) => spec_updated_clips(clips, now_ms).remove(i).len() == clips.len() - 1,
            None => spec_updated_clips(clips, now_ms).len() == clips.len(),
        },
{
    lemma_first_completed_in_range(spec_updated_clips(clips, now_ms), sink_empty);
}

impl Model {
    /// What one progress pass does: every clip advanced to `now_ms`, then
    /// the first completed clip removed and its end reported; everything
    /// else untouched.
    pub open spec fn spec_check_outcome(
        m0: Model,
        m1: Model,
        now_ms: u64,
        sink_empty: Seq<bool>,
        ended: Option<SoundscapeEvent>,
    ) -> bool {
        &&& Model::core_frame(m0, m1)
        &&& m1.action_queue == m0.action_queue
        &&& m1.next_clip_id == m0.next_clip_id
        &&& m1.message_stats == m0.message_stats
        &&& ({
            let updated = spec_updated_clips(m0.clips_playing@, now_ms);
            match spec_first_completed(updated, sink_empty, 0) {
                Some(i) => m1.clips_playing@ =~= updated.remove(i) && ended == Some(
                    SoundscapeEvent::ClipEnded(updated[i].name),
                ),
                None => m1.clips_playing@ =~= updated && ended is None,
            }
        })
    }

    /// One progress pass: advances every playing clip's envelope and
    /// progress to `now_ms`, then removes the first completed clip (by scan
    /// order) and reports its end. At most one completion is processed per
    /// tick; later completions remain detectable and are handled on later
    /// ticks. `sink_empty` gives, per playing clip in order, whether its
    /// paired sink has run out of samples.
    pub fn check_progress(&mut self, now_ms: u64, sink_empty: &Vec<bool>) -> (ended: Option<
        SoundscapeEvent,
    >)
        requires
            old(self).wf(),
            sink_empty@.len() == old(self).clips_playing@.len(),
        ensures
            final(self).wf(),
            Model::spec_check_outcome(*old(self), *final(self), now_ms, sink_empty@, ended),
    {
        let ghost updated = spec_updated_clips(old(self).clips_playing@, now_ms);
        let n: usize = self.clips_playing.len();
        let mut i: usize = 0;
        while i < n
            invariant
                old(self).wf(),
                n == old(self).clips_playing@.len(),
                i <= n,
                self.sound_bank == old(self).sound_bank,
                self.clip_durations_ms == old(self).clip_durations_ms,
                self.action_queue == old(self).action_queue,
                self.output_channels_used == old(self).output_channels_used,
                self.next_clip_id == old(self).next_clip_id,
                self.remote_control == old(self).remote_control,
                self.message_stats == old(self).message_stats,
                self.clips_playing@.len() == n,
                updated == spec_updated_clips(old(self).clips_playing@, now_ms),
                forall|k: int| 0 <= k < i ==> self.clips_playing@[k] == updated[k],
                forall|k: int|
                    i <= k < n ==> self.clips_playing@[k] == old(self).clips_playing@[k],
                forall|k: int| 0 <= k < i ==> (#[trigger] self.clips_playing@[k]).wf(),
            decreases n - i,
        {
            assert(self.clips_playing@[i as int] == old(self).clips_playing@[i as int]);
            self.clips_playing[i].update_progress(now_ms);
            i = i + 1;
        }
        assert(self.clips_playing@ =~= updated);

        let mut found: bool = false;
        let mut j: usize = 0;
        while j < n && !found
            invariant
                n == self.clips_playing@.len(),
                sink_empty@.len() == n,
                j <= n,
                forall|k: int|
                    0 <= k < j ==> !spec_clip_completed(self.clips_playing@[k], sink_empty@[k]),
                found ==> j < n && spec_clip_completed(self.clips_playing@[j as int], sink_empty@[j as int]),
            decreases n - j, (if found { 0int } else { 1int }),
        {
            if self.clips_playing[j].is_completed(sink_empty[j]) {
                found = true;
            } else {
                j = j + 1;
            }
        }

        if found {
            proof {
                lemma_first_completed_skip(self.clips_playing@, sink_empty@, j as int);
            }
            let clip = self.clips_playing.remove(j);
            Some(SoundscapeEvent::ClipEnded(clip.name))
        } else {
            proof {
                lemma_first_completed_skip(self.clips_playing@, sink_empty@, n as int);
            }
            None
        }
    }
}

/// A playing clip as scene reconciliation sees it: its id, its name folded
/// to lower case, and whether it is still sounding (not stopped).
pub open spec fn spec_clip_summary(c: ClipWithSink) -> (usize, Seq<u32>, bool) {
    (c.id, lower_seq(c.name@), !c.sink_cleared)
}

/// The playing set, clip by clip, as ids, folded names, and activity.
pub open spec fn spec_summaries(clips: Seq<ClipWithSink>) -> Seq<(usize, Seq<u32>, bool)> {
    clips.map(|i: int, c: ClipWithSink| spec_clip_summary(c))
}

/// The catalog's names, folded to lower case.
pub open spec fn spec_bank_lnames(clips: Seq<AudioClipOnDisk>) -> Seq<Seq<u32>> {
    clips.map(|i: int, c: AudioClipOnDisk| lower_seq(c.spec_name()))
}

/// Whether a folded name occurs in a list of folded names.
pub open spec fn spec_lname_present(lnames: Seq<Seq<u32>>, lname: Seq<u32>) -> bool {
    exists|i: int| 0 <= i < lnames.len() && lnames[i] == lname
}

/// A clip after a stop request: stopped at once when no fade is given, else
/// sent into a release ramp from its current gain over the fade duration.
pub open spec fn spec_stop_clip(c: ClipWithSink, fade_ms: Option<u64>, now_ms: u64) -> ClipWithSink {
    match fade_ms {
        None => ClipWithSink { sink_cleared: true, ..c },
        Some(d) => ClipWithSink {
            current_phase: PlaybackPhase::Release(
                now_ms,
                StoredTweener { from: c.current_volume, to: 0, duration_ms: d },
            ),
            ..c
        },
    }
}

/// Index of the first playing clip at or after `from` with the given id.
pub open spec fn spec_find_clip_by_id(clips: Seq<ClipWithSink>, id: usize, from: int) -> Option<
    int,
>
    decreases clips.len() - from,
{
    if from < 0 || from >= clips.len() {
        None
    } else if clips[from].id == id {
        Some(from)
    } else {
        spec_find_clip_by_id(clips, id, from + 1)
    }
}

proof fn lemma_find_clip_by_id_skip(clips: Seq<ClipWithSink>, id: usize, from: int)
    requires
        0 <= from <= clips.len(),
        forall|j: int| 0 <= j < from ==> (#[trigger] clips[j]).id != id,
    ensures
        spec_find_clip_by_id(clips, id, 0) == spec_find_clip_by_id(clips, id, from),
    decreases from,
{
    if from > 0 {
        lemma_find_clip_by_id_skip(clips, id, from - 1);
    }
}

/// What the id search finds carries the id; a miss means no clip has it.
pub proof fn lemma_find_clip_by_id_characterisation(clips: Seq<ClipWithSink>, id: usize)
    ensures
        match spec_find_clip_by_id(clips, id, 0) {
            Some(i) => 0 <= i < clips.len() && clips[i].id == id && forall|j: int|
                0 <= j < i ==> (#[trigger] clips[j]).id != id,
            None => forall|i: int| 0 <= i < clips.len() ==> (#[trigger] clips[i]).id != id,
        },
{
    lemma_find_clip_by_id_range(clips, id, 0);
}

proof fn lemma_find_clip_by_id_range(clips: Seq<ClipWithSink>, id: usize, from: int)
    requires
        0 <= from,
    ensures
        match spec_find_clip_by_id(clips, id, from) {
            Some(i) => from <= i < clips.len() && clips[i].id == id && forall|j: int|
                from <= j < i ==> (#[trigger] clips[j]).id != id,
            None => forall|i: int| from <= i < clips.len() ==> (#[trigger] clips[i]).id != id,
        },
    decreases clips.len() - from,
{
    if 0 <= from < clips.len() {
        lemma_find_clip_by_id_range(clips, id, from + 1);
    }
}

/// One action's effect on the playing set, seen at summary level: a play of
/// a catalog name appends a fresh active entry under a fresh id; a stop
/// without fade deactivates the entry with the stopped id; everything else
/// leaves the summaries unchanged.
pub open spec fn spec_apply_action_summary(
    sums: Seq<(usize, Seq<u32>, bool)>,
    next_id: usize,
    a: ActionQueueItem,
    bank_lnames: Seq<Seq<u32>>,
) -> (Seq<(usize, Seq<u32>, bool)>, usize) {
    match a {
        ActionQueueItem::Play(name, _volume, _fade, _looping, _pan) => {
            if spec_lname_present(bank_lnames, lower_seq(name@)) && next_id < usize::MAX {
                (sums.push((next_id, lower_seq(name@), true)), (next_id + 1) as usize)
            } else {
                (sums, next_id)
            }
        },
        ActionQueueItem::Stop(id, fade_ms) => {
            (
                sums.map(
                    |i: int, entry: (usize, Seq<u32>, bool)|
                        if entry.0 == id && fade_ms is None {
                            (entry.0, entry.1, false)
                        } else {
                            entry
                        },
                ),
                next_id,
            )
        },
    }
}

/// A whole queue's effect on the playing set at summary level, applied
/// last-in first-out as the coordinator drains it.
pub open spec fn spec_apply_actions_summary(
    sums: Seq<(usize, Seq<u32>, bool)>,
    next_id: usize,
    actions: Seq<ActionQueueItem>,
    bank_lnames: Seq<Seq<u32>>,
) -> (Seq<(usize, Seq<u32>, bool)>, usize)
    decreases actions.len(),
{
    if actions.len() == 0 {
        (sums, next_id)
    } else {
        let step = spec_apply_action_summary(sums, next_id, actions.last(), bank_lnames);
        spec_apply_actions_summary(step.0, step.1, actions.drop_last(), bank_lnames)
    }
}

impl Model {
    /// All fields a tick never touches besides the playing set, queue, and
    /// id counter.
    pub open spec fn frame_preserved(m0: Model, m1: Model) -> bool {
        &&& m1.sound_bank == m0.sound_bank
        &&& m1.clip_durations_ms == m0.clip_durations_ms
        &&& m1.output_channels_used == m0.output_channels_used
        &&& m1.remote_control == m0.remote_control
        &&& m1.message_stats == m0.message_stats
    }

    /// The clip a play action appends: built from the found descriptor and
    /// its probed duration, under the next fresh id, opening in attack.
    pub open spec fn spec_new_clip_matches(
        m0: Model,
        c: ClipWithSink,
        idx: int,
        volume_override: Option<u32>,
        fade_ms: Option<u64>,
        should_loop: bool,
        override_panning: Option<PanWithRange>,
        now_ms: u64,
    ) -> bool {
        let sample = m0.sound_bank.clips@[idx];
        &&& c.id == m0.next_clip_id
        &&& c.name == sample.name
        &&& c.duration_ms == m0.clip_durations_ms@[idx]
        &&& c.started_ms == now_ms
        &&& c.last_known_progress == (if m0.clip_durations_ms@[idx] is Some {
            Some(0u32)
        } else {
            None::<u32>
        })
        &&& c.is_looping == should_loop
        &&& c.current_volume == 0
        &&& c.master_volume == SCALE
        &&& !c.paused
        &&& !c.sink_cleared
        &&& c.current_phase == PlaybackPhase::Attack(
            StoredTweener {
                from: 0,
                to: spec_effective_volume(volume_override, sample.spec_volume()),
                duration_ms: match fade_ms {
                    Some(d) => d,
                    None => DEFAULT_FADE_IN_MS,
                },
            },
        )
        &&& pan_gains_match(
            c.channel_volumes,
            spec_effective_panning(override_panning, sample.spec_panning()),
            m0.output_channels_used,
        )
    }

    /// What a play request does: nothing when the name misses the catalog
    /// (or the id space is exhausted); otherwise one new clip under a fresh
    /// id at the end of the playing set.
    pub open spec fn spec_play_outcome(
        m0: Model,
        m1: Model,
        clip_name: Seq<char>,
        volume_override: Option<u32>,
        fade_ms: Option<u64>,
        should_loop: bool,
        override_panning: Option<PanWithRange>,
        now_ms: u64,
        played: bool,
    ) -> bool {
        match spec_find_by_name(m0.sound_bank.clips@, clip_name, 0) {
            None => m1.clips_playing@ =~= m0.clips_playing@ && m1.next_clip_id == m0.next_clip_id
                && !played,
            Some(idx) => {
                if m0.next_clip_id == usize::MAX {
                    m1.clips_playing@ =~= m0.clips_playing@ && m1.next_clip_id == m0.next_clip_id
                        && !played
                } else {
                    &&& played
                    &&& m1.clips_playing@.len() == m0.clips_playing@.len() + 1
                    &&& m1.clips_playing@.drop_last() =~= m0.clips_playing@
                    &&& Model::spec_new_clip_matches(
                        m0,
                        m1.clips_playing@.last(),
                        idx,
                        volume_override,
                        fade_ms,
                        should_loop,
                        override_panning,
                        now_ms,
                    )
                    &&& m1.next_clip_id == m0.next_clip_id + 1
                }
            },
        }
    }

    /// Looks the name up in the catalog (ignoring ASCII case) and, when
    /// found, starts one new instance of the clip: appends its control
    /// record to the playing set under a fresh id. A miss is logged and
    /// dropped by the caller; the playing set is unchanged.
    pub fn play_one_clip(
        &mut self,
        clip_name: &str,
        should_loop: bool,
        volume_override: Option<u32>,
        fade_ms: Option<u64>,
        override_panning: Option<PanWithRange>,
        now_ms: u64,
    ) -> (played: bool)
        requires
            old(self).wf(),
            (volume_override matches Some(v) ==> v <= SCALE),
        ensures
            final(self).wf(),
            Model::frame_preserved(*old(self), *final(self)),
            final(self).action_queue == old(self).action_queue,
            Model::spec_play_outcome(
                *old(self),
                *final(self),
                clip_name@,
                volume_override,
                fade_ms,
                should_loop,
                override_panning,
                now_ms,
                played,
            ),
    {
        let found: Option<usize> = self.sound_bank.find_by_name(clip_name);
        match found {
            None => false,
            Some(idx) => {
                proof {
                    lemma_find_by_name_characterisation(self.sound_bank.clips@, clip_name@);
                }
                if self.next_clip_id == usize::MAX {
                    return false;
                }
                assert(crate::loader::clip_volume_ok(&self.sound_bank.clips@[idx as int]));
                let duration_ms: Option<u64> = self.clip_durations_ms[idx];
                let clip = ClipWithSink::new(
                    self.next_clip_id,
                    &self.sound_bank.clips[idx],
                    duration_ms,
                    should_loop,
                    volume_override,
                    fade_ms,
                    override_panning,
                    self.output_channels_used,
                    now_ms,
                );
                self.clips_playing.push(clip);
                self.next_clip_id = self.next_clip_id + 1;
                true
            },
        }
    }
}


impl Model {
    /// What a stop request does: the first playing clip under the stopped id
    /// is stopped at once or sent into release; a missing id is logged and
    /// dropped by the caller, the playing set unchanged.
    pub open spec fn spec_stop_outcome(
        m0: Model,
        m1: Model,
        id: usize,
        fade_ms: Option<u64>,
        now_ms: u64,
    ) -> bool {
        &&& m1.next_clip_id == m0.next_clip_id
        &&& match spec_find_clip_by_id(m0.clips_playing@, id, 0) {
            None => m1.clips_playing@ =~= m0.clips_playing@,
            Some(i) => m1.clips_playing@ =~= m0.clips_playing@.update(
                i,
                spec_stop_clip(m0.clips_playing@[i], fade_ms, now_ms),
            ),
        }
    }

    /// Pops and applies the most recently queued action: a play looks the
    /// name up and starts a clip (reporting its start), a stop stops or
    /// fades the clip under the given id. An empty queue is a no-op.
    pub fn apply_next_action(&mut self, now_ms: u64) -> (started: Option<SoundscapeEvent>)
        requires
            old(self).wf(),
        ensures
            final(self).wf(),
            Model::frame_preserved(*old(self), *final(self)),
            old(self).action_queue@.len() == 0 ==> *final(self) == *old(self) && started is None,
            old(self).action_queue@.len() > 0 ==> final(self).action_queue@ =~= old(
                self,
            ).action_queue@.drop_last() && match old(self).action_queue@.last() {
                ActionQueueItem::Play(name, volume, fade, looping, pan) => {
                    &&& exists|played: bool|
                        Model::spec_play_outcome(
                            *old(self),
                            *final(self),
                            name@,
                            volume,
                            fade,
                            looping,
                            pan,
                            now_ms,
                            played,
                        ) && started == (if played {
                            Some(SoundscapeEvent::ClipStarted(name))
                        } else {
                            None::<SoundscapeEvent>
                        })
                },
                ActionQueueItem::Stop(id, fade) => Model::spec_stop_outcome(
                    *old(self),
                    *final(self),
                    id,
                    fade,
                    now_ms,
                ) && started is None,
            },
    {
        if self.action_queue.len() == 0 {
            return None;
        }
        let action: Option<ActionQueueItem> = self.action_queue.pop();
        match action {
            None => {
                proof {
                    assert(false);
                }
                None
            },
            Some(ActionQueueItem::Play(name, volume, fade, looping, pan)) => {
                let played: bool = self.play_one_clip(
                    name.as_str(),
                    looping,
                    volume,
                    fade,
                    pan,
                    now_ms,
                );
                let started_event: Option<SoundscapeEvent> = if played {
                    Some(SoundscapeEvent::ClipStarted(name))
                } else {
                    None
                };
                proof {
                    assert(Model::spec_play_outcome(
                        *old(self),
                        *self,
                        name@,
                        volume,
                        fade,
                        looping,
                        pan,
                        now_ms,
                        played,
                    ));
                }
                started_event
            },
            Some(ActionQueueItem::Stop(id, fade)) => {
                let n: usize = self.clips_playing.len();
                let mut j: usize = 0;
                let mut found: bool = false;
                while j < n && !found
                    invariant
                        n == self.clips_playing@.len(),
                        j <= n,
                        forall|k: int| 0 <= k < j ==> (#[trigger] self.clips_playing@[k]).id != id,
                        found ==> j < n && self.clips_playing@[j as int].id == id,
                    decreases n - j, (if found { 0int } else { 1int }),
                {
                    if self.clips_playing[j].id() == id {
                        found = true;
                    } else {
                        j = j + 1;
                    }
                }
                if found {
                    proof {
                        lemma_find_clip_by_id_skip(self.clips_playing@, id, j as int);
                    }
                    match fade {
                        Some(d) => self.clips_playing[j].fade_out(d, now_ms),
                        None => self.clips_playing[j].stop(),
                    }
                } else {
                    proof {
                        lemma_find_clip_by_id_skip(self.clips_playing@, id, n as int);
                    }
                }
                None
            },
        }
    }
}

/// A successful play's effect, seen at summary level: the appended entry is
/// active, carries the requested name folded, and takes the fresh id.
proof fn lemma_play_summary_step(
    m0: Model,
    m1: Model,
    name: String,
    volume: Option<u32>,
    fade: Option<u64>,
    looping: bool,
    pan: Option<PanWithRange>,
    now_ms: u64,
    played: bool,
)
    requires
        m0.wf(),
        m1.sound_bank == m0.sound_bank,
        Model::spec_play_outcome(m0, m1, name@, volume, fade, looping, pan, now_ms, played),
    ensures
        ({
            let step = spec_apply_action_summary(
                spec_summaries(m0.clips_playing@),
                m0.next_clip_id,
                ActionQueueItem::Play(name, volume, fade, looping, pan),
                spec_bank_lnames(m0.sound_bank.clips@),
            );
            spec_summaries(m1.clips_playing@) =~= step.0 && m1.next_clip_id == step.1
        }),
{
    let clips = m0.sound_bank.clips@;
    let lnames = spec_bank_lnames(clips);
    lemma_find_by_name_characterisation(clips, name@);
    match spec_find_by_name(clips, name@, 0) {
        None => {
            assert(!spec_lname_present(lnames, lower_seq(name@))) by {
                assert(forall|i: int|
                    0 <= i < clips.len() ==> !eq_ignore_case_spec(clips[i].spec_name(), name@));
                assert(forall|i: int|
                    0 <= i < lnames.len() ==> lnames[i] == lower_seq(clips[i].spec_name()));
            }
            assert(spec_summaries(m1.clips_playing@) =~= spec_summaries(m0.clips_playing@));
        },
        Some(idx) => {
            assert(lnames[idx] == lower_seq(clips[idx].spec_name()));
            assert(spec_lname_present(lnames, lower_seq(name@)));
            if m0.next_clip_id == usize::MAX {
                assert(spec_summaries(m1.clips_playing@) =~= spec_summaries(m0.clips_playing@));
            } else {
                let c = m1.clips_playing@.last();
                assert(c.name == clips[idx].name);
                assert(lower_seq(c.name@) == lower_seq(name@));
                assert(spec_summaries(m1.clips_playing@) =~= spec_summaries(
                    m0.clips_playing@,
                ).push((m0.next_clip_id, lower_seq(name@), true))) by {
                    assert(m1.clips_playing@.drop_last() =~= m0.clips_playing@);
                    assert(forall|k: int|
                        0 <= k < m0.clips_playing@.len() ==> m1.clips_playing@[k] == m0
                            .clips_playing@[k]);
                }
            }
        },
    }
}

/// A stop's effect, seen at summary level: under unique ids, stopping the
/// first clip with the id deactivates exactly the entries carrying that id.
proof fn lemma_stop_summary_step(m0: Model, m1: Model, id: usize, fade: Option<u64>, now_ms: u64)
    requires
        m0.wf(),
        Model::spec_stop_outcome(m0, m1, id, fade, now_ms),
    ensures
        ({
            let step = spec_apply_action_summary(
                spec_summaries(m0.clips_playing@),
                m0.next_clip_id,
                ActionQueueItem::Stop(id, fade),
                spec_bank_lnames(m0.sound_bank.clips@),
            );
            spec_summaries(m1.clips_playing@) =~= step.0 && m1.next_clip_id == step.1
        }),
{
    lemma_find_clip_by_id_characterisation(m0.clips_playing@, id);
    match spec_find_clip_by_id(m0.clips_playing@, id, 0) {
        None => {
            assert(spec_summaries(m1.clips_playing@) =~= spec_apply_action_summary(
                spec_summaries(m0.clips_playing@),
                m0.next_clip_id,
                ActionQueueItem::Stop(id, fade),
                spec_bank_lnames(m0.sound_bank.clips@),
            ).0);
        },
        Some(i) => {
            assert(forall|j: int|
                0 <= j < m0.clips_playing@.len() && j != i ==> (#[trigger] m0.clips_playing@[j]).id
                    != id);
            assert(spec_summaries(m1.clips_playing@) =~= spec_apply_action_summary(
                spec_summaries(m0.clips_playing@),
                m0.next_clip_id,
                ActionQueueItem::Stop(id, fade),
                spec_bank_lnames(m0.sound_bank.clips@),
            ).0);
        },
    }
}

/// The `Some` values of a sequence of optional events, in order.
pub open spec fn spec_some_events(events: Seq<Option<SoundscapeEvent>>) -> Seq<SoundscapeEvent>
    decreases events.len(),
{
    if events.len() == 0 {
        Seq::empty()
    } else {
        spec_some_events(events.drop_last()) + match events.last() {
            Some(e) => seq![e],
            None => Seq::<SoundscapeEvent>::empty(),
        }
    }
}

impl Model {
    /// One drained action, record by record: the most recently queued action
    /// is popped; a play of a catalog name appends exactly the clip
    /// [`Model::spec_new_clip_matches`] describes and reports
    /// `ClipStarted` under the requested name; a stop stops or fades the
    /// first clip under its id; every other clip is untouched.
    pub open spec fn spec_drain_step(
        m0: Model,
        m1: Model,
        event: Option<SoundscapeEvent>,
        now_ms: u64,
    ) -> bool {
        &&& m0.action_queue@.len() > 0
        &&& Model::frame_preserved(m0, m1)
        &&& m1.action_queue@ =~= m0.action_queue@.drop_last()
        &&& match m0.action_queue@.last() {
            ActionQueueItem::Play(name, volume, fade, looping, pan) => exists|played: bool|
                Model::spec_play_outcome(
                    m0,
                    m1,
                    name@,
                    volume,
                    fade,
                    looping,
                    pan,
                    now_ms,
                    played,
                ) && event == (if played {
                    Some(SoundscapeEvent::ClipStarted(name))
                } else {
                    None::<SoundscapeEvent>
                }),
            ActionQueueItem::Stop(id, fade) => Model::spec_stop_outcome(m0, m1, id, fade, now_ms)
                && event is None,
        }
    }

    /// Draining the whole queue, record by record: a chain of coordinator
    /// states, one drained action each, leads from `m0` to `m1`, and the
    /// start events it reports, in drain order, are exactly `started`.
    pub open spec fn spec_drain(
        m0: Model,
        m1: Model,
        started: Seq<SoundscapeEvent>,
        now_ms: u64,
    ) -> bool {
        exists|chain: Seq<Model>, events: Seq<Option<SoundscapeEvent>>|
            #![trigger chain.len(), spec_some_events(events)]
            {
                &&& chain.len() == m0.action_queue@.len() + 1
                &&& events.len() == m0.action_queue@.len()
                &&& chain[0] == m0
                &&& chain[m0.action_queue@.len() as int] == m1
                &&& forall|k: int|
                    0 <= k < events.len() ==> Model::spec_drain_step(
                        chain[k],
                        chain[k + 1],
                        #[trigger] events[k],
                        now_ms,
                    )
                &&& started == spec_some_events(events)
            }
    }

    /// What draining the queue does: the queue emptied, record by record per
    /// [`Model::spec_drain`]; one clip appearing per start event; and the
    /// playing set, at summary level, the queue folded over it.
    pub open spec fn spec_apply_all_outcome(
        m0: Model,
        m1: Model,
        started: Seq<SoundscapeEvent>,
        now_ms: u64,
    ) -> bool {
        &&& Model::frame_preserved(m0, m1)
        &&& m1.action_queue@.len() == 0
        &&& m1.clips_playing@.len() == m0.clips_playing@.len() + started.len()
        &&& forall|i: int| 0 <= i < started.len() ==> (#[trigger] started[i]) is ClipStarted
        &&& Model::spec_drain(m0, m1, started, now_ms)
        &&& ({
            let outcome = spec_apply_actions_summary(
                spec_summaries(m0.clips_playing@),
                m0.next_clip_id,
                m0.action_queue@,
                spec_bank_lnames(m0.sound_bank.clips@),
            );
            spec_summaries(m1.clips_playing@) =~= outcome.0 && m1.next_clip_id == outcome.1
        })
    }

    /// Drains the action queue to exhaustion, most recent first, applying
    /// each action and collecting the start events to publish; the playing
    /// set grows by exactly one clip per start event. At summary level the
    /// result is the queue folded over the playing set.
    pub fn apply_all_actions(&mut self, now_ms: u64) -> (started: Vec<SoundscapeEvent>)
        requires
            old(self).wf(),
        ensures
            final(self).wf(),
            Model::spec_apply_all_outcome(*old(self), *final(self), started@, now_ms),
    {
        let ghost target = spec_apply_actions_summary(
            spec_summaries(old(self).clips_playing@),
            old(self).next_clip_id,
            old(self).action_queue@,
            spec_bank_lnames(old(self).sound_bank.clips@),
        );
        let mut started: Vec<SoundscapeEvent> = Vec::new();
        let ghost mut chain: Seq<Model> = seq![*old(self)];
        let ghost mut events: Seq<Option<SoundscapeEvent>> = Seq::empty();
        while self.action_queue.len() > 0
            invariant
                self.wf(),
                Model::frame_preserved(*old(self), *self),
                self.clips_playing@.len() == old(self).clips_playing@.len() + started@.len(),
                forall|i: int| 0 <= i < started@.len() ==> (#[trigger] started@[i]) is ClipStarted,
                chain.len() == events.len() + 1,
                chain[0] == *old(self),
                chain[events.len() as int] == *self,
                events.len() == old(self).action_queue@.len() - self.action_queue@.len(),
                forall|k: int|
                    0 <= k < events.len() ==> Model::spec_drain_step(
                        chain[k],
                        chain[k + 1],
                        #[trigger] events[k],
                        now_ms,
                    ),
                started@ == spec_some_events(events),
                target == spec_apply_actions_summary(
                    spec_summaries(old(self).clips_playing@),
                    old(self).next_clip_id,
                    old(self).action_queue@,
                    spec_bank_lnames(old(self).sound_bank.clips@),
                ),
                spec_apply_actions_summary(
                    spec_summaries(self.clips_playing@),
                    self.next_clip_id,
                    self.action_queue@,
                    spec_bank_lnames(self.sound_bank.clips@),
                ) == target,
            decreases self.action_queue@.len(),
        {
            let ghost pre = *self;
            let ev: Option<SoundscapeEvent> = self.apply_next_action(now_ms);
            proof {
                match pre.action_queue@.last() {
                    ActionQueueItem::Play(name, volume, fade, looping, pan) => {
                        let played = choose|played: bool|
                            Model::spec_play_outcome(
                                pre,
                                *self,
                                name@,
                                volume,
                                fade,
                                looping,
                                pan,
                                now_ms,
                                played,
                            ) && ev == (if played {
                                Some(SoundscapeEvent::ClipStarted(name))
                            } else {
                                None::<SoundscapeEvent>
                            });
                        lemma_play_summary_step(
                            pre,
                            *self,
                            name,
                            volume,
                            fade,
                            looping,
                            pan,
                            now_ms,
                            played,
                        );
                    },
                    ActionQueueItem::Stop(id, fade) => {
                        lemma_stop_summary_step(pre, *self, id, fade, now_ms);
                    },
                }
                assert(spec_apply_actions_summary(
                    spec_summaries(self.clips_playing@),
                    self.next_clip_id,
                    self.action_queue@,
                    spec_bank_lnames(self.sound_bank.clips@),
                ) == target);
                assert(Model::spec_drain_step(pre, *self, ev, now_ms));
                let extended = events.push(ev);
                assert(extended.drop_last() =~= events);
                assert(extended.last() == ev);
                assert(spec_some_events(extended) == spec_some_events(events) + match ev {
                    Some(e) => seq![e],
                    None => Seq::<SoundscapeEvent>::empty(),
                });
                events = extended;
                chain = chain.push(*self);
            }
            match ev {
                Some(e) => started.push(e),
                None => {},
            }
            proof {
                assert(started@ =~= spec_some_events(events));
            }
        }
        proof {
            assert(events.len() == old(self).action_queue@.len());
            assert(chain.len() == old(self).action_queue@.len() + 1 && events.len() == old(
                self,
            ).action_queue@.len() && chain[0] == *old(self) && chain[old(
                self,
            ).action_queue@.len() as int] == *self && (forall|k: int|
                0 <= k < events.len() ==> Model::spec_drain_step(
                    chain[k],
                    chain[k + 1],
                    #[trigger] events[k],
                    now_ms,
                )) && started@ == spec_some_events(events));
            assert(Model::spec_drain(*old(self), *self, started@, now_ms));
        }
        started
    }
}


/// Whether some playing clip's folded name equals the folded name given.
pub open spec fn spec_playing_has(clips: Seq<ClipWithSink>, lname: Seq<u32>) -> bool {
    exists|i: int| 0 <= i < clips.len() && lower_seq((#[trigger] clips[i]).name@) == lname
}

/// Whether some requested name folds to the folded name given.
pub open spec fn spec_names_have(names: Seq<String>, lname: Seq<u32>) -> bool {
    exists|i: int| 0 <= i < names.len() && lower_seq((#[trigger] names[i])@) == lname
}

/// One stop per playing clip, in scan order.
pub open spec fn spec_stop_all_actions(
    clips: Seq<ClipWithSink>,
    fade_ms: Option<u64>,
) -> Seq<ActionQueueItem> {
    clips.map(|i: int, c: ClipWithSink| ActionQueueItem::Stop(c.id, fade_ms))
}

/// One non-looping play per requested name, in request order.
pub open spec fn spec_once_play_actions(
    names: Seq<String>,
    fade_ms: Option<u64>,
) -> Seq<ActionQueueItem> {
    names.map(|i: int, n: String| ActionQueueItem::Play(n, None, fade_ms, false, None))
}

/// The looping plays a reconciliation emits: one per requested name not
/// already playing (ignoring ASCII case), in request order.
pub open spec fn spec_loop_all_play_actions(
    names: Seq<String>,
    fade_ms: Option<u64>,
    clips: Seq<ClipWithSink>,
) -> Seq<ActionQueueItem>
    decreases names.len(),
{
    if names.len() == 0 {
        Seq::empty()
    } else {
        let rest = spec_loop_all_play_actions(names.drop_last(), fade_ms, clips);
        if spec_playing_has(clips, lower_seq(names.last()@)) {
            rest
        } else {
            rest.push(ActionQueueItem::Play(names.last(), None, fade_ms, true, None))
        }
    }
}

/// The stops a reconciliation emits: one per playing clip whose name is not
/// requested (ignoring ASCII case), in scan order.
pub open spec fn spec_loop_all_stop_actions(
    clips: Seq<ClipWithSink>,
    fade_ms: Option<u64>,
    names: Seq<String>,
) -> Seq<ActionQueueItem>
    decreases clips.len(),
{
    if clips.len() == 0 {
        Seq::empty()
    } else {
        let rest = spec_loop_all_stop_actions(clips.drop_last(), fade_ms, names);
        if spec_names_have(names, lower_seq(clips.last().name@)) {
            rest
        } else {
            rest.push(ActionQueueItem::Stop(clips.last().id, fade_ms))
        }
    }
}

/// What a scene request queues against the current playing set. An empty
/// name list stops everything. `OnceAll` plays each requested name once.
/// `LoopAll` reconciles: plays the missing names looping, stops the clips no
/// longer requested, and leaves clips that stay requested untouched.
/// `OnceRandomSinglePick` plays the one picked name once.
pub open spec fn spec_scene_actions(
    mode: ScenePickMode,
    names: Seq<String>,
    fade_ms: Option<u64>,
    clips: Seq<ClipWithSink>,
    pick: int,
) -> Seq<ActionQueueItem> {
    match mode {
        ScenePickMode::OnceAll => if names.len() == 0 {
            spec_stop_all_actions(clips, fade_ms)
        } else {
            spec_once_play_actions(names, fade_ms)
        },
        ScenePickMode::LoopAll => if names.len() == 0 {
            spec_stop_all_actions(clips, fade_ms)
        } else {
            spec_loop_all_play_actions(names, fade_ms, clips) + spec_loop_all_stop_actions(
                clips,
                fade_ms,
                names,
            )
        },
        ScenePickMode::OnceRandomSinglePick => seq![
            ActionQueueItem::Play(names[pick], None, fade_ms, false, None),
        ],
    }
}

proof fn lemma_loop_all_play_actions_wf(
    names: Seq<String>,
    fade_ms: Option<u64>,
    clips: Seq<ClipWithSink>,
)
    ensures
        forall|k: int|
            0 <= k < spec_loop_all_play_actions(names, fade_ms, clips).len() ==> action_wf(
                #[trigger] spec_loop_all_play_actions(names, fade_ms, clips)[k],
            ),
    decreases names.len(),
{
    if names.len() > 0 {
        lemma_loop_all_play_actions_wf(names.drop_last(), fade_ms, clips);
        let rest = spec_loop_all_play_actions(names.drop_last(), fade_ms, clips);
        let whole = spec_loop_all_play_actions(names, fade_ms, clips);
        assert forall|k: int| 0 <= k < whole.len() implies action_wf(whole[k]) by {
            if k < rest.len() {
                assert(whole[k] == rest[k]);
                assert(action_wf(rest[k]));
            }
        }
    }
}

proof fn lemma_loop_all_stop_actions_wf(
    clips: Seq<ClipWithSink>,
    fade_ms: Option<u64>,
    names: Seq<String>,
)
    ensures
        forall|k: int|
            0 <= k < spec_loop_all_stop_actions(clips, fade_ms, names).len() ==> action_wf(
                #[trigger] spec_loop_all_stop_actions(clips, fade_ms, names)[k],
            ),
    decreases clips.len(),
{
    if clips.len() > 0 {
        lemma_loop_all_stop_actions_wf(clips.drop_last(), fade_ms, names);
        let rest = spec_loop_all_stop_actions(clips.drop_last(), fade_ms, names);
        let whole = spec_loop_all_stop_actions(clips, fade_ms, names);
        assert forall|k: int| 0 <= k < whole.len() implies action_wf(whole[k]) by {
            if k < rest.len() {
                assert(whole[k] == rest[k]);
                assert(action_wf(rest[k]));
            }
        }
    }
}

/// Every action a scene request queues is well-formed: plays carry no volume
/// override and stops carry none at all.
pub proof fn lemma_scene_actions_wf(
    mode: ScenePickMode,
    names: Seq<String>,
    fade_ms: Option<u64>,
    clips: Seq<ClipWithSink>,
    pick: int,
)
    requires
        mode is OnceRandomSinglePick ==> 0 <= pick < names.len(),
    ensures
        forall|k: int|
            0 <= k < spec_scene_actions(mode, names, fade_ms, clips, pick).len() ==> action_wf(
                #[trigger] spec_scene_actions(mode, names, fade_ms, clips, pick)[k],
            ),
{
    lemma_loop_all_play_actions_wf(names, fade_ms, clips);
    lemma_loop_all_stop_actions_wf(clips, fade_ms, names);
}

/// Whether any playing clip's name matches, ignoring ASCII case.
fn playing_has_name(clips: &Vec<ClipWithSink>, name: &str) -> (r: bool)
    ensures
        r == spec_playing_has(clips@, lower_seq(name@)),
{
    let n: usize = clips.len();
    let mut i: usize = 0;
    while i < n
        invariant
            n == clips@.len(),
            i <= n,
            forall|j: int|
                0 <= j < i ==> lower_seq((#[trigger] clips@[j]).name@) != lower_seq(name@),
        decreases n - i,
    {
        if crate::utils::eq_ignore_case(clips[i].name.as_str(), name) {
            return true;
        }
        i = i + 1;
    }
    false
}

/// Whether any requested name matches, ignoring ASCII case.
fn names_have_name(names: &Vec<String>, name: &str) -> (r: bool)
    ensures
        r == spec_names_have(names@, lower_seq(name@)),
{
    let n: usize = names.len();
    let mut i: usize = 0;
    while i < n
        invariant
            n == names@.len(),
            i <= n,
            forall|j: int|
                0 <= j < i ==> lower_seq((#[trigger] names@[j])@) != lower_seq(name@),
        decreases n - i,
    {
        if crate::utils::eq_ignore_case(names[i].as_str(), name) {
            return true;
        }
        i = i + 1;
    }
    false
}

impl Model {
    /// Translates one scene request into queued actions against the current
    /// playing set, as [`spec_scene_actions`] lays out. `pick_index` names
    /// the random pick a `OnceRandomSinglePick` request plays and is ignored
    /// by the other modes.
    pub fn enqueue_scene(
        &mut self,
        mode: ScenePickMode,
        clip_names: Vec<String>,
        fade_ms: Option<u64>,
        pick_index: usize,
    )
        requires
            old(self).wf(),
            mode is OnceRandomSinglePick ==> clip_names@.len() > 0 && pick_index
                < clip_names@.len(),
        ensures
            final(self).wf(),
            Model::frame_preserved(*old(self), *final(self)),
            final(self).clips_playing == old(self).clips_playing,
            final(self).next_clip_id == old(self).next_clip_id,
            final(self).action_queue@ =~= old(self).action_queue@ + spec_scene_actions(
                mode,
                clip_names@,
                fade_ms,
                old(self).clips_playing@,
                pick_index as int,
            ),
    {
        proof {
            lemma_scene_actions_wf(
                mode,
                clip_names@,
                fade_ms,
                old(self).clips_playing@,
                pick_index as int,
            );
        }
        match mode {
            ScenePickMode::OnceAll => {
                if clip_names.len() == 0 {
                    self.push_stop_all(fade_ms);
                } else {
                    let n: usize = clip_names.len();
                    let mut i: usize = 0;
                    while i < n
                        invariant
                            old(self).wf(),
                            n == clip_names@.len(),
                            i <= n,
                            Model::frame_preserved(*old(self), *self),
                            self.clips_playing == old(self).clips_playing,
                            self.next_clip_id == old(self).next_clip_id,
                            self.sound_bank == old(self).sound_bank,
                            self.clip_durations_ms == old(self).clip_durations_ms,
                            self.action_queue@ =~= old(self).action_queue@
                                + spec_once_play_actions(clip_names@.take(i as int), fade_ms),
                        decreases n - i,
                    {
                        self.action_queue.push(
                            ActionQueueItem::Play(clip_names[i].clone(), None, fade_ms, false, None),
                        );
                        proof {
                            assert(spec_once_play_actions(clip_names@.take(i + 1), fade_ms)
                                =~= spec_once_play_actions(clip_names@.take(i as int), fade_ms).push(
                                ActionQueueItem::Play(clip_names@[i as int], None, fade_ms, false, None),
                            ));
                        }
                        i = i + 1;
                    }
                    proof {
                        assert(clip_names@.take(n as int) =~= clip_names@);
                    }
                }
            },
            ScenePickMode::LoopAll => {
                if clip_names.len() == 0 {
                    self.push_stop_all(fade_ms);
                } else {
                    let n: usize = clip_names.len();
                    let mut i: usize = 0;
                    while i < n
                        invariant
                            old(self).wf(),
                            n == clip_names@.len(),
                            i <= n,
                            Model::frame_preserved(*old(self), *self),
                            self.clips_playing == old(self).clips_playing,
                            self.next_clip_id == old(self).next_clip_id,
                            self.sound_bank == old(self).sound_bank,
                            self.clip_durations_ms == old(self).clip_durations_ms,
                            self.action_queue@ =~= old(self).action_queue@
                                + spec_loop_all_play_actions(
                                clip_names@.take(i as int),
                                fade_ms,
                                old(self).clips_playing@,
                            ),
                        decreases n - i,
                    {
                        proof {
                            assert(clip_names@.take(i + 1).drop_last() =~= clip_names@.take(
                                i as int,
                            ));
                        }
                        if !playing_has_name(&self.clips_playing, clip_names[i].as_str()) {
                            self.action_queue.push(
                                ActionQueueItem::Play(clip_names[i].clone(), None, fade_ms, true, None),
                            );
                        }
                        i = i + 1;
                    }
                    proof {
                        assert(clip_names@.take(n as int) =~= clip_names@);
                    }
                    let ghost mid_queue = self.action_queue@;
                    let m: usize = self.clips_playing.len();
                    let mut j: usize = 0;
                    while j < m
                        invariant
                            old(self).wf(),
                            m == self.clips_playing@.len(),
                            j <= m,
                            Model::frame_preserved(*old(self), *self),
                            self.clips_playing == old(self).clips_playing,
                            self.next_clip_id == old(self).next_clip_id,
                            self.sound_bank == old(self).sound_bank,
                            self.clip_durations_ms == old(self).clip_durations_ms,
                            n == clip_names@.len(),
                            self.action_queue@ =~= mid_queue + spec_loop_all_stop_actions(
                                old(self).clips_playing@.take(j as int),
                                fade_ms,
                                clip_names@,
                            ),
                        decreases m - j,
                    {
                        proof {
                            assert(old(self).clips_playing@.take(j + 1).drop_last()
                                =~= old(self).clips_playing@.take(j as int));
                        }
                        let requested: bool = names_have_name(
                            &clip_names,
                            self.clips_playing[j].name.as_str(),
                        );
                        if !requested {
                            let id: usize = self.clips_playing[j].id();
                            self.action_queue.push(ActionQueueItem::Stop(id, fade_ms));
                        }
                        j = j + 1;
                    }
                    proof {
                        assert(old(self).clips_playing@.take(m as int) =~= old(
                            self,
                        ).clips_playing@);
                        assert(self.action_queue@ =~= old(self).action_queue@
                            + spec_scene_actions(
                            ScenePickMode::LoopAll,
                            clip_names@,
                            fade_ms,
                            old(self).clips_playing@,
                            pick_index as int,
                        ));
                    }
                }
            },
            ScenePickMode::OnceRandomSinglePick => {
                let pick_name: String = clip_names[pick_index].clone();
                self.action_queue.push(
                    ActionQueueItem::Play(pick_name, None, fade_ms, false, None),
                );
                proof {
                    assert(self.action_queue@ =~= old(self).action_queue@ + seq![
                        ActionQueueItem::Play(
                            clip_names@[pick_index as int],
                            None,
                            fade_ms,
                            false,
                            None,
                        ),
                    ]);
                }
            },
        }
    }

    /// Queues one stop per playing clip, in scan order.
    fn push_stop_all(&mut self, fade_ms: Option<u64>)
        requires
            old(self).wf(),
        ensures
            final(self).wf(),
            Model::frame_preserved(*old(self), *final(self)),
            final(self).clips_playing == old(self).clips_playing,
            final(self).next_clip_id == old(self).next_clip_id,
            final(self).action_queue@ =~= old(self).action_queue@ + spec_stop_all_actions(
                old(self).clips_playing@,
                fade_ms,
            ),
    {
        let n: usize = self.clips_playing.len();
        let mut i: usize = 0;
        while i < n
            invariant
                old(self).wf(),
                n == self.clips_playing@.len(),
                i <= n,
                Model::frame_preserved(*old(self), *self),
                self.clips_playing == old(self).clips_playing,
                self.next_clip_id == old(self).next_clip_id,
                self.sound_bank == old(self).sound_bank,
                self.clip_durations_ms == old(self).clip_durations_ms,
                self.action_queue@ =~= old(self).action_queue@ + spec_stop_all_actions(
                    old(self).clips_playing@.take(i as int),
                    fade_ms,
                ),
            decreases n - i,
        {
            let id: usize = self.clips_playing[i].id();
            self.action_queue.push(ActionQueueItem::Stop(id, fade_ms));
            proof {
                assert(spec_stop_all_actions(old(self).clips_playing@.take(i + 1), fade_ms)
                    =~= spec_stop_all_actions(old(self).clips_playing@.take(i as int), fade_ms).push(
                    ActionQueueItem::Stop(old(self).clips_playing@[i as int].id, fade_ms),
                ));
            }
            i = i + 1;
        }
        proof {
            assert(old(self).clips_playing@.take(n as int) =~= old(self).clips_playing@);
        }
    }
}



/// One stop per playing clip whose name matches the removed name, ignoring
/// ASCII case as every name match does, in scan order.
pub open spec fn spec_remove_actions(
    clips: Seq<ClipWithSink>,
    name: Seq<char>,
    fade_ms: Option<u64>,
) -> Seq<ActionQueueItem>
    decreases clips.len(),
{
    if clips.len() == 0 {
        Seq::empty()
    } else {
        let rest = spec_remove_actions(clips.drop_last(), name, fade_ms);
        if eq_ignore_case_spec(clips.last().name@, name) {
            rest.push(ActionQueueItem::Stop(clips.last().id, fade_ms))
        } else {
            rest
        }
    }
}

proof fn lemma_remove_actions_wf(clips: Seq<ClipWithSink>, name: Seq<char>, fade_ms: Option<u64>)
    ensures
        forall|k: int|
            0 <= k < spec_remove_actions(clips, name, fade_ms).len() ==> action_wf(
                #[trigger] spec_remove_actions(clips, name, fade_ms)[k],
            ),
    decreases clips.len(),
{
    if clips.len() > 0 {
        lemma_remove_actions_wf(clips.drop_last(), name, fade_ms);
        let rest = spec_remove_actions(clips.drop_last(), name, fade_ms);
        let whole = spec_remove_actions(clips, name, fade_ms);
        assert forall|k: int| 0 <= k < whole.len() implies action_wf(whole[k]) by {
            if k < rest.len() {
                assert(whole[k] == rest[k]);
                assert(action_wf(rest[k]));
            }
        }
    }
}

/// Every playing clip with its pause flag set as given.
pub open spec fn spec_set_paused(clips: Seq<ClipWithSink>, paused: bool) -> Seq<ClipWithSink> {
    clips.map(|i: int, c: ClipWithSink| ClipWithSink { paused, ..c })
}

/// Every playing clip with its master multiplier set as given.
pub open spec fn spec_set_master(clips: Seq<ClipWithSink>, volume: u32) -> Seq<ClipWithSink> {
    clips.map(|i: int, c: ClipWithSink| ClipWithSink { master_volume: volume, ..c })
}

/// An instruction's volumes are within full gain, as the adapter's parser
/// guarantees of everything it hands over.
pub open spec fn spec_instruction_wf(instruction: Instruction) -> bool {
    match instruction {
        Instruction::Add(_, _, volume, _, _) => match volume {
            Some(v) => v <= SCALE,
            None => true,
        },
        Instruction::Global(GlobalControlMode::MasterVolume(v)) => v <= SCALE,
        _ => true,
    }
}

impl Model {
    /// All fields no instruction ever touches.
    pub open spec fn core_frame(m0: Model, m1: Model) -> bool {
        &&& m1.sound_bank == m0.sound_bank
        &&& m1.clip_durations_ms == m0.clip_durations_ms
        &&& m1.output_channels_used == m0.output_channels_used
        &&& m1.remote_control == m0.remote_control
    }

    /// What handling one instruction does to the coordinator: adds and
    /// removes queue actions, scenes queue their reconciliation (a random
    /// pick queues one play of some requested name; an empty random request
    /// is dropped), pause, resume, and master volume touch every playing
    /// clip directly, and silence queues a stop with a short fade for every
    /// playing clip. The matching message-stats timestamp is set.
    pub open spec fn spec_handle_outcome(
        m0: Model,
        m1: Model,
        instruction: Instruction,
        now_ms: u64,
    ) -> bool {
        &&& Model::core_frame(m0, m1)
        &&& m1.next_clip_id == m0.next_clip_id
        &&& match instruction {
            Instruction::Add(name, looping, volume, fade, pan) => {
                &&& m1.clips_playing == m0.clips_playing
                &&& m1.action_queue@ =~= m0.action_queue@.push(
                    ActionQueueItem::Play(name, volume, fade, looping, pan),
                )
                &&& m1.message_stats == (MessageStats {
                    last_clip_message: Some(now_ms),
                    ..m0.message_stats
                })
            },
            Instruction::Remove(name, fade) => {
                &&& m1.clips_playing == m0.clips_playing
                &&& m1.action_queue@ =~= m0.action_queue@ + spec_remove_actions(
                    m0.clips_playing@,
                    name@,
                    fade,
                )
                &&& m1.message_stats == (MessageStats {
                    last_clip_message: Some(now_ms),
                    ..m0.message_stats
                })
            },
            Instruction::Scene(mode, names, fade) => {
                &&& m1.clips_playing == m0.clips_playing
                &&& m1.message_stats == (MessageStats {
                    last_scene_message: Some(now_ms),
                    ..m0.message_stats
                })
                &&& if mode is OnceRandomSinglePick && names@.len() == 0 {
                    m1.action_queue == m0.action_queue
                } else {
                    exists|pick: int|
                        (mode is OnceRandomSinglePick ==> 0 <= pick < names@.len())
                            && m1.action_queue@ =~= m0.action_queue@ + spec_scene_actions(
                            mode,
                            names@,
                            fade,
                            m0.clips_playing@,
                            pick,
                        )
                }
            },
            Instruction::Global(global_mode) => {
                &&& m1.message_stats == (MessageStats {
                    last_global_control_message: Some(now_ms),
                    ..m0.message_stats
                })
                &&& match global_mode {
                    GlobalControlMode::PauseAll() => m1.clips_playing@ =~= spec_set_paused(
                        m0.clips_playing@,
                        true,
                    ) && m1.action_queue == m0.action_queue,
                    GlobalControlMode::ResumeAll() => m1.clips_playing@ =~= spec_set_paused(
                        m0.clips_playing@,
                        false,
                    ) && m1.action_queue == m0.action_queue,
                    GlobalControlMode::SilenceAll() => m1.clips_playing == m0.clips_playing
                        && m1.action_queue@ =~= m0.action_queue@ + spec_stop_all_actions(
                        m0.clips_playing@,
                        Some(100u64),
                    ),
                    GlobalControlMode::MasterVolume(v) => m1.clips_playing@ =~= spec_set_master(
                        m0.clips_playing@,
                        v,
                    ) && m1.action_queue == m0.action_queue,
                }
            },
        }
    }

    /// Handles one typed instruction: queues play and stop actions, applies
    /// global controls to every playing clip, and stamps the message stats.
    pub fn handle_instruction(&mut self, instruction: Instruction, now_ms: u64)
        requires
            old(self).wf(),
            spec_instruction_wf(instruction),
        ensures
            final(self).wf(),
            Model::spec_handle_outcome(*old(self), *final(self), instruction, now_ms),
    {
        match instruction {
            Instruction::Add(name, looping, volume, fade, pan) => {
                self.message_stats.last_clip_message = Some(now_ms);
                self.action_queue.push(ActionQueueItem::Play(name, volume, fade, looping, pan));
            },
            Instruction::Remove(name, fade) => {
                self.message_stats.last_clip_message = Some(now_ms);
                proof {
                    lemma_remove_actions_wf(self.clips_playing@, name@, fade);
                }
                let n: usize = self.clips_playing.len();
                let mut i: usize = 0;
                while i < n
                    invariant
                        old(self).wf(),
                        n == self.clips_playing@.len(),
                        i <= n,
                        Model::core_frame(*old(self), *self),
                        self.clips_playing == old(self).clips_playing,
                        self.next_clip_id == old(self).next_clip_id,
                        self.message_stats == (MessageStats {
                            last_clip_message: Some(now_ms),
                            ..old(self).message_stats
                        }),
                        self.action_queue@ =~= old(self).action_queue@ + spec_remove_actions(
                            old(self).clips_playing@.take(i as int),
                            name@,
                            fade,
                        ),
                    decreases n - i,
                {
                    proof {
                        assert(old(self).clips_playing@.take(i + 1).drop_last() =~= old(
                            self,
                        ).clips_playing@.take(i as int));
                    }
                    if crate::utils::eq_ignore_case(self.clips_playing[i].name.as_str(), name.as_str()) {
                        let id: usize = self.clips_playing[i].id();
                        self.action_queue.push(ActionQueueItem::Stop(id, fade));
                    }
                    i = i + 1;
                }
                proof {
                    assert(old(self).clips_playing@.take(n as int) =~= old(self).clips_playing@);
                }
            },
            Instruction::Scene(mode, names, fade) => {
                self.message_stats.last_scene_message = Some(now_ms);
                let is_random: bool = match mode {
                    ScenePickMode::OnceRandomSinglePick => true,
                    _ => false,
                };
                if is_random && names.len() == 0 {
                    // An empty random request picks nothing; drop it.
                } else {
                    let pick: usize = if is_random {
                        crate::utils::random_index(names.len())
                    } else {
                        0
                    };
                    self.enqueue_scene(mode, names, fade, pick);
                    proof {
                        let queued = spec_scene_actions(
                            mode,
                            names@,
                            fade,
                            old(self).clips_playing@,
                            pick as int,
                        );
                        assert((mode is OnceRandomSinglePick ==> 0 <= (pick as int) && (pick as int) < names@.len())
                            && self.action_queue@ =~= old(self).action_queue@ + queued);
                    }
                }
            },
            Instruction::Global(global_mode) => {
                self.message_stats.last_global_control_message = Some(now_ms);
                match global_mode {
                    GlobalControlMode::PauseAll() => {
                        self.set_all_paused(true);
                    },
                    GlobalControlMode::ResumeAll() => {
                        self.set_all_paused(false);
                    },
                    GlobalControlMode::SilenceAll() => {
                        self.push_stop_all(Some(100));
                    },
                    GlobalControlMode::MasterVolume(v) => {
                        self.set_all_master(v);
                    },
                }
            },
        }
    }

    /// Pauses or resumes every playing clip.
    fn set_all_paused(&mut self, paused: bool)
        requires
            old(self).wf(),
        ensures
            final(self).wf(),
            Model::core_frame(*old(self), *final(self)),
            final(self).action_queue == old(self).action_queue,
            final(self).next_clip_id == old(self).next_clip_id,
            final(self).message_stats == old(self).message_stats,
            final(self).clips_playing@ =~= spec_set_paused(old(self).clips_playing@, paused),
    {
        let n: usize = self.clips_playing.len();
        let mut i: usize = 0;
        while i < n
            invariant
                old(self).wf(),
                n == old(self).clips_playing@.len(),
                i <= n,
                Model::core_frame(*old(self), *self),
                self.action_queue == old(self).action_queue,
                self.next_clip_id == old(self).next_clip_id,
                self.message_stats == old(self).message_stats,
                self.clips_playing@.len() == n,
                forall|k: int|
                    0 <= k < i ==> self.clips_playing@[k] == (ClipWithSink {
                        paused,
                        ..old(self).clips_playing@[k]
                    }),
                forall|k: int|
                    i <= k < n ==> self.clips_playing@[k] == old(self).clips_playing@[k],
            decreases n - i,
        {
            if paused {
                self.clips_playing[i].pause();
            } else {
                self.clips_playing[i].resume();
            }
            i = i + 1;
        }
    }

    /// Applies one master multiplier to every playing clip.
    fn set_all_master(&mut self, volume: u32)
        requires
            old(self).wf(),
            volume <= SCALE,
        ensures
            final(self).wf(),
            Model::core_frame(*old(self), *final(self)),
            final(self).action_queue == old(self).action_queue,
            final(self).next_clip_id == old(self).next_clip_id,
            final(self).message_stats == old(self).message_stats,
            final(self).clips_playing@ =~= spec_set_master(old(self).clips_playing@, volume),
    {
        let n: usize = self.clips_playing.len();
        let mut i: usize = 0;
        while i < n
            invariant
                old(self).wf(),
                volume <= SCALE,
                n == old(self).clips_playing@.len(),
                i <= n,
                Model::core_frame(*old(self), *self),
                self.action_queue == old(self).action_queue,
                self.next_clip_id == old(self).next_clip_id,
                self.message_stats == old(self).message_stats,
                self.clips_playing@.len() == n,
                forall|k: int|
                    0 <= k < i ==> self.clips_playing@[k] == (ClipWithSink {
                        master_volume: volume,
                        ..old(self).clips_playing@[k]
                    }),
                forall|k: int|
                    i <= k < n ==> self.clips_playing@[k] == old(self).clips_playing@[k],
            decreases n - i,
        {
            assert(self.clips_playing@[i as int].wf());
            self.clips_playing[i].set_volume(volume);
            i = i + 1;
        }
    }
}



/// How many messages of a batch fail to parse (and are therefore dropped).
pub open spec fn spec_dropped_count(inbound: Seq<(String, InboundPayload)>) -> int
    decreases inbound.len(),
{
    if inbound.len() == 0 {
        0
    } else {
        spec_dropped_count(inbound.drop_last()) + match spec_parse_instructions(
            inbound.last().0@,
            inbound.last().1,
        ) {
            Ok(_) => 0int,
            Err(_) => 1int,
        }
    }
}

/// What one tick returns for the caller to perform: the end event of a
/// completed clip, the start events of newly playing clips, the state
/// snapshot to publish if one is due, and how many inbound messages failed
/// to parse and were dropped.
pub struct TickOutput {
    pub ended_event: Option<SoundscapeEvent>,
    pub started_events: Vec<SoundscapeEvent>,
    pub state_message: Option<SoundscapeStateMessage>,
    pub dropped_messages: usize,
}

impl Model {
    /// What taking in one inbound message does: a message that parses is
    /// handled as its instruction; one that does not parse is dropped
    /// without affecting the coordinator.
    pub open spec fn spec_intake_step(
        m0: Model,
        m1: Model,
        plug_name: Seq<char>,
        payload: InboundPayload,
        now_ms: u64,
    ) -> bool {
        match spec_parse_instructions(plug_name, payload) {
            Ok(instruction) => Model::spec_handle_outcome(m0, m1, instruction, now_ms),
            Err(_) => m1 == m0,
        }
    }

    /// What taking in a batch of inbound messages does, first to last: a
    /// chain of coordinator states, one intake step per message, leads from
    /// the state before the batch to the state after it.
    pub open spec fn spec_intake(
        m0: Model,
        m1: Model,
        inbound: Seq<(String, InboundPayload)>,
        now_ms: u64,
    ) -> bool {
        exists|chain: Seq<Model>|
            {
                &&& #[trigger] chain.len() == inbound.len() + 1
                &&& chain[0] == m0
                &&& chain[inbound.len() as int] == m1
                &&& forall|k: int|
                    0 <= k < inbound.len() ==> Model::spec_intake_step(
                        chain[k],
                        chain[k + 1],
                        (#[trigger] inbound[k]).0@,
                        inbound[k].1,
                        now_ms,
                    )
            }
    }

    /// The events timestamp is stamped when any lifecycle event goes out to
    /// the bus.
    pub open spec fn spec_events_stamp(m0: Model, m1: Model, had_events: bool, now_ms: u64) -> bool {
        if had_events && m0.remote_control is Some {
            m1 == (Model {
                message_stats: MessageStats {
                    last_events_message: Some(now_ms),
                    ..m0.message_stats
                },
                ..m0
            })
        } else {
            m1 == m0
        }
    }

    /// What the state-publish stage does: nothing without a remote adapter;
    /// with one, the publisher's timing step runs, the state timestamp is
    /// stamped when a snapshot goes out, and the snapshot summarises the
    /// playing set.
    pub open spec fn spec_publish_outcome(
        m0: Model,
        m1: Model,
        now_ms: u64,
        state_message: Option<SoundscapeStateMessage>,
    ) -> bool {
        match m0.remote_control {
            None => m1 == m0 && state_message is None,
            Some(rc) => {
                let step = spec_publish_step(rc, now_ms, m0.clips_playing@.len() == 0);
                &&& m1 == (Model {
                    remote_control: Some(step.0),
                    message_stats: MessageStats {
                        last_state_message: if step.1 {
                            Some(now_ms)
                        } else {
                            m0.message_stats.last_state_message
                        },
                        ..m0.message_stats
                    },
                    ..m0
                })
                &&& (state_message is Some <==> step.1)
                &&& (state_message matches Some(msg) ==> msg.clips@.len()
                    == m0.clips_playing@.len() && forall|i: int|
                    0 <= i < m0.clips_playing@.len() ==> clip_state_matches(
                        #[trigger] msg.clips@[i],
                        m0.clips_playing@[i],
                    ))
            },
        }
    }
}

impl Model {
    /// The tick's first stage: a signalled tick runs the progress pass,
    /// otherwise nothing moves.
    pub open spec fn spec_tick_progress(
        m0: Model,
        m1: Model,
        now_ms: u64,
        tick_signalled: bool,
        sink_empty: Seq<bool>,
        ended: Option<SoundscapeEvent>,
    ) -> bool {
        if tick_signalled {
            Model::spec_check_outcome(m0, m1, now_ms, sink_empty, ended)
        } else {
            m1 == m0 && ended is None
        }
    }

    /// The tick's intake stage: with a remote adapter the batch is taken in;
    /// without one it is ignored.
    pub open spec fn spec_tick_intake(
        m1: Model,
        m2: Model,
        inbound: Seq<(String, InboundPayload)>,
        now_ms: u64,
    ) -> bool {
        if m1.remote_control is Some {
            Model::spec_intake(m1, m2, inbound, now_ms)
        } else {
            m2 == m1
        }
    }
}

impl Model {
    /// One control-loop tick: a signalled tick first runs the progress pass;
    /// then, with a remote adapter present, every inbound message is parsed
    /// and handled (unparseable ones dropped); the queued actions are
    /// drained; the events timestamp is stamped if any lifecycle event goes
    /// out; and the state snapshot is built if due. The caller publishes
    /// what is returned and mirrors the playing set onto the sinks.
    pub fn internal_update(
        &mut self,
        now_ms: u64,
        tick_signalled: bool,
        sink_empty: &Vec<bool>,
        inbound: Vec<(String, InboundPayload)>,
    ) -> (out: TickOutput)
        requires
            old(self).wf(),
            sink_empty@.len() == old(self).clips_playing@.len(),
        ensures
            final(self).wf(),
            final(self).action_queue@.len() == 0,
            exists|m1: Model, m2: Model, m3: Model, m4: Model|
                {
                    &&& Model::spec_tick_progress(
                        *old(self),
                        m1,
                        now_ms,
                        tick_signalled,
                        sink_empty@,
                        out.ended_event,
                    )
                    &&& Model::spec_tick_intake(m1, m2, inbound@, now_ms)
                    &&& Model::spec_apply_all_outcome(m2, m3, out.started_events@, now_ms)
                    &&& Model::spec_events_stamp(
                        m3,
                        m4,
                        out.ended_event is Some || out.started_events@.len() > 0,
                        now_ms,
                    )
                    &&& Model::spec_publish_outcome(m4, *final(self), now_ms, out.state_message)
                },
            out.dropped_messages == (if old(self).remote_control is Some {
                spec_dropped_count(inbound@)
            } else {
                0int
            }),
    {
        let ended_event: Option<SoundscapeEvent> = if tick_signalled {
            self.check_progress(now_ms, sink_empty)
        } else {
            None
        };
        let ghost m1 = *self;

        let mut dropped_messages: usize = 0;
        if self.remote_control.is_some() {
            let mut messages: Vec<(String, InboundPayload)> = inbound;
            let batch_len: usize = messages.len();
            let ghost whole_batch = messages@;
            let ghost mut processed: Seq<(String, InboundPayload)> = Seq::empty();
            let ghost mut chain: Seq<Model> = seq![*self];
            while messages.len() > 0
                invariant
                    self.wf(),
                    whole_batch.len() == batch_len,
                    whole_batch =~= processed + messages@,
                    chain.len() == processed.len() + 1,
                    chain[0] == m1,
                    chain[processed.len() as int] == *self,
                    forall|k: int|
                        0 <= k < processed.len() ==> Model::spec_intake_step(
                            chain[k],
                            chain[k + 1],
                            (#[trigger] processed[k]).0@,
                            processed[k].1,
                            now_ms,
                        ),
                    self.remote_control is Some,
                    dropped_messages == spec_dropped_count(processed),
                    dropped_messages <= processed.len(),
                decreases messages@.len(),
            {
                let message: (String, InboundPayload) = messages.remove(0);
                let ghost pre = *self;
                let parsed = match &self.remote_control {
                    Some(rc) => rc.parse_instructions(message.0.as_str(), message.1),
                    None => {
                        proof {
                            assert(false);
                        }
                        Err(crate::remote_control::ParseError::UnknownPlug)
                    },
                };
                match parsed {
                    Ok(instruction) => {
                        assert(spec_instruction_wf(instruction));
                        self.handle_instruction(instruction, now_ms);
                    },
                    Err(_) => {
                        dropped_messages = dropped_messages + 1;
                    },
                }
                proof {
                    assert(Model::spec_intake_step(pre, *self, message.0@, message.1, now_ms));
                    let extended = processed.push(message);
                    assert(extended.drop_last() =~= processed);
                    assert(extended.last() == message);
                    assert(spec_dropped_count(extended) == spec_dropped_count(processed)
                        + match spec_parse_instructions(message.0@, message.1) {
                        Ok(_) => 0int,
                        Err(_) => 1int,
                    });
                    processed = extended;
                    chain = chain.push(*self);
                }
            }
            proof {
                assert(processed =~= whole_batch);
                assert(dropped_messages == spec_dropped_count(whole_batch));
                assert(chain.len() == whole_batch.len() + 1 && chain[0] == m1
                    && chain[whole_batch.len() as int] == *self && forall|k: int|
                    0 <= k < whole_batch.len() ==> Model::spec_intake_step(
                        chain[k],
                        chain[k + 1],
                        (#[trigger] whole_batch[k]).0@,
                        whole_batch[k].1,
                        now_ms,
                    ));
                assert(Model::spec_intake(m1, *self, whole_batch, now_ms));
            }
        }
        let ghost m2 = *self;

        let started_events: Vec<SoundscapeEvent> = self.apply_all_actions(now_ms);
        let ghost m3 = *self;

        let had_events: bool = ended_event.is_some() || started_events.len() > 0;
        if had_events && self.remote_control.is_some() {
            self.message_stats.last_events_message = Some(now_ms);
        }
        let ghost m4 = *self;

        let state_message: Option<SoundscapeStateMessage> = match self.remote_control {
            Some(rc) => {
                let mut publisher: crate::remote_control::RemoteControl = rc;
                let message = publisher.publish_state_if_ready(now_ms, &self.clips_playing);
                self.remote_control = Some(publisher);
                if message.is_some() {
                    self.message_stats.last_state_message = Some(now_ms);
                }
                message
            },
            None => None,
        };

        let out = TickOutput { ended_event, started_events, state_message, dropped_messages };
        proof {
            assert(Model::spec_tick_progress(
                *old(self),
                m1,
                now_ms,
                tick_signalled,
                sink_empty@,
                out.ended_event,
            ));
            assert(Model::spec_tick_intake(m1, m2, inbound@, now_ms));
            assert(Model::spec_apply_all_outcome(m2, m3, out.started_events@, now_ms));
            assert(Model::spec_events_stamp(
                m3,
                m4,
                out.ended_event is Some || out.started_events@.len() > 0,
                now_ms,
            ));
            assert(Model::spec_publish_outcome(m4, *self, now_ms, out.state_message));
        }
        out
    }
}



/// Whether any stop a reconciliation emits against these clips targets the
/// given id: some playing clip carries it and its name is not requested.
pub open spec fn spec_stop_targets(
    clips: Seq<ClipWithSink>,
    names: Seq<String>,
    id: usize,
) -> bool {
    exists|j: int|
        0 <= j < clips.len() && (#[trigger] clips[j]).id == id && !spec_names_have(
            names,
            lower_seq(clips[j].name@),
        )
}

/// Folding a concatenated queue applies the back part first (the queue
/// drains last-in first-out), then the front part.
proof fn lemma_apply_actions_concat(
    sums: Seq<(usize, Seq<u32>, bool)>,
    next_id: usize,
    front: Seq<ActionQueueItem>,
    back: Seq<ActionQueueItem>,
    bank_lnames: Seq<Seq<u32>>,
)
    ensures
        spec_apply_actions_summary(sums, next_id, front + back, bank_lnames) == ({
            let mid = spec_apply_actions_summary(sums, next_id, back, bank_lnames);
            spec_apply_actions_summary(mid.0, mid.1, front, bank_lnames)
        }),
    decreases back.len(),
{
    if back.len() == 0 {
        assert(front + back =~= front);
    } else {
        assert((front + back).last() == back.last());
        assert((front + back).drop_last() =~= front + back.drop_last());
        let step = spec_apply_action_summary(sums, next_id, back.last(), bank_lnames);
        lemma_apply_actions_concat(step.0, step.1, front, back.drop_last(), bank_lnames);
    }
}

/// The stops a reconciliation emits deactivate exactly the entries whose id
/// belongs to a playing clip that is no longer requested; ids, names, and
/// the id counter are untouched.
proof fn lemma_loop_all_stops_effect(
    sums: Seq<(usize, Seq<u32>, bool)>,
    next_id: usize,
    clips: Seq<ClipWithSink>,
    names: Seq<String>,
    bank_lnames: Seq<Seq<u32>>,
)
    ensures
        ({
            let out = spec_apply_actions_summary(
                sums,
                next_id,
                spec_loop_all_stop_actions(clips, None, names),
                bank_lnames,
            );
            &&& out.1 == next_id
            &&& out.0.len() == sums.len()
            &&& forall|i: int|
                0 <= i < sums.len() ==> (#[trigger] out.0[i]).0 == sums[i].0 && out.0[i].1
                    == sums[i].1
            &&& forall|i: int|
                0 <= i < sums.len() ==> (#[trigger] out.0[i]).2 == (sums[i].2
                    && !spec_stop_targets(clips, names, sums[i].0))
        }),
    decreases clips.len(),
{
    let stops = spec_loop_all_stop_actions(clips, None, names);
    let out = spec_apply_actions_summary(sums, next_id, stops, bank_lnames);
    if clips.len() == 0 {
        assert forall|i: int| 0 <= i < sums.len() implies (#[trigger] out.0[i]).2 == (sums[i].2
            && !spec_stop_targets(clips, names, sums[i].0)) by {
            assert(!spec_stop_targets(clips, names, sums[i].0));
        }
    } else {
        let rest_clips = clips.drop_last();
        let last = clips.last();
        let stops_rest = spec_loop_all_stop_actions(rest_clips, None, names);
        if spec_names_have(names, lower_seq(last.name@)) {
            assert(stops == stops_rest);
            lemma_loop_all_stops_effect(sums, next_id, rest_clips, names, bank_lnames);
            assert forall|i: int| 0 <= i < sums.len() implies (#[trigger] out.0[i]).2 == (
            sums[i].2 && !spec_stop_targets(clips, names, sums[i].0)) by {
                if spec_stop_targets(clips, names, sums[i].0) {
                    let j = choose|j: int|
                        0 <= j < clips.len() && (#[trigger] clips[j]).id == sums[i].0
                            && !spec_names_have(names, lower_seq(clips[j].name@));
                    assert(j < clips.len() - 1);
                    assert(rest_clips[j] == clips[j]);
                    assert(spec_stop_targets(rest_clips, names, sums[i].0));
                }
                if spec_stop_targets(rest_clips, names, sums[i].0) {
                    let j = choose|j: int|
                        0 <= j < rest_clips.len() && (#[trigger] rest_clips[j]).id == sums[i].0
                            && !spec_names_have(names, lower_seq(rest_clips[j].name@));
                    assert(clips[j] == rest_clips[j]);
                    assert(spec_stop_targets(clips, names, sums[i].0));
                }
            }
        } else {
            let single = seq![ActionQueueItem::Stop(last.id, None)];
            assert(stops =~= stops_rest + single);
            lemma_apply_actions_concat(sums, next_id, stops_rest, single, bank_lnames);
            let step = spec_apply_action_summary(
                sums,
                next_id,
                ActionQueueItem::Stop(last.id, None),
                bank_lnames,
            );
            assert(single.last() == ActionQueueItem::Stop(last.id, None));
            assert(single.drop_last() =~= Seq::<ActionQueueItem>::empty());
            reveal_with_fuel(spec_apply_actions_summary, 2);
            assert(spec_apply_actions_summary(sums, next_id, single, bank_lnames) == step);
            lemma_loop_all_stops_effect(step.0, step.1, rest_clips, names, bank_lnames);
            let mid = spec_apply_actions_summary(
                step.0,
                step.1,
                spec_loop_all_stop_actions(rest_clips, None, names),
                bank_lnames,
            );
            assert(out == mid);
            assert forall|i: int| 0 <= i < sums.len() implies (#[trigger] out.0[i]).2 == (
            sums[i].2 && !spec_stop_targets(clips, names, sums[i].0)) by {
                assert(step.0[i].0 == sums[i].0 && step.0[i].1 == sums[i].1);
                assert(step.0[i].2 == (sums[i].2 && sums[i].0 != last.id));
                assert(out.0[i].2 == (step.0[i].2 && !spec_stop_targets(
                    rest_clips,
                    names,
                    sums[i].0,
                )));
                if spec_stop_targets(clips, names, sums[i].0) {
                    let j = choose|j: int|
                        0 <= j < clips.len() && (#[trigger] clips[j]).id == sums[i].0
                            && !spec_names_have(names, lower_seq(clips[j].name@));
                    if j == clips.len() - 1 {
                        assert(sums[i].0 == last.id);
                    } else {
                        assert(rest_clips[j] == clips[j]);
                        assert(spec_stop_targets(rest_clips, names, sums[i].0));
                    }
                }
                if sums[i].0 == last.id {
                    assert(clips[clips.len() - 1].id == sums[i].0);
                    assert(spec_stop_targets(clips, names, sums[i].0));
                }
                if spec_stop_targets(rest_clips, names, sums[i].0) {
                    let j = choose|j: int|
                        0 <= j < rest_clips.len() && (#[trigger] rest_clips[j]).id == sums[i].0
                            && !spec_names_have(names, lower_seq(rest_clips[j].name@));
                    assert(clips[j] == rest_clips[j]);
                    assert(spec_stop_targets(clips, names, sums[i].0));
                }
            }
            assert forall|i: int| 0 <= i < sums.len() implies (#[trigger] out.0[i]).0 == sums[i].0
                && out.0[i].1 == sums[i].1 by {
                assert(step.0[i].0 == sums[i].0 && step.0[i].1 == sums[i].1);
            }
        }
    }
}

/// The plays a reconciliation emits append one fresh, active entry per
/// requested name that was not already playing; entries already present are
/// untouched.
proof fn lemma_loop_all_plays_effect(
    sums: Seq<(usize, Seq<u32>, bool)>,
    next_id: usize,
    names: Seq<String>,
    clips: Seq<ClipWithSink>,
    bank_lnames: Seq<Seq<u32>>,
)
    requires
        forall|k: int|
            0 <= k < names.len() ==> spec_lname_present(
                bank_lnames,
                lower_seq((#[trigger] names[k])@),
            ),
        next_id + names.len() <= usize::MAX,
    ensures
        ({
            let out = spec_apply_actions_summary(
                sums,
                next_id,
                spec_loop_all_play_actions(names, None, clips),
                bank_lnames,
            );
            &&& out.0.len() >= sums.len()
            &&& forall|i: int| 0 <= i < sums.len() ==> (#[trigger] out.0[i]) == sums[i]
            &&& forall|i: int|
                sums.len() <= i < out.0.len() ==> (#[trigger] out.0[i]).2 && spec_names_have(
                    names,
                    out.0[i].1,
                ) && out.0[i].0 >= next_id
            &&& forall|k: int|
                0 <= k < names.len() && !spec_playing_has(
                    clips,
                    lower_seq((#[trigger] names[k])@),
                ) ==> exists|i: int|
                    sums.len() <= i < out.0.len() && (#[trigger] out.0[i]).1 == lower_seq(
                        names[k]@,
                    )
        }),
    decreases names.len(),
{
    let plays = spec_loop_all_play_actions(names, None, clips);
    let out = spec_apply_actions_summary(sums, next_id, plays, bank_lnames);
    if names.len() == 0 {
    } else {
        let rest = names.drop_last();
        let last = names.last();
        assert(forall|k: int| 0 <= k < rest.len() ==> rest[k] == names[k]);
        let plays_rest = spec_loop_all_play_actions(rest, None, clips);
        if spec_playing_has(clips, lower_seq(last@)) {
            assert(plays == plays_rest);
            lemma_loop_all_plays_effect(sums, next_id, rest, clips, bank_lnames);
            assert forall|i: int|
                sums.len() <= i < out.0.len() implies (#[trigger] out.0[i]).2 && spec_names_have(
                names,
                out.0[i].1,
            ) && out.0[i].0 >= next_id by {
                assert(spec_names_have(rest, out.0[i].1));
                let w = choose|w: int|
                    0 <= w < rest.len() && lower_seq((#[trigger] rest[w])@) == out.0[i].1;
                assert(names[w] == rest[w]);
                assert(spec_names_have(names, out.0[i].1));
            }
            assert forall|k: int|
                0 <= k < names.len() && !spec_playing_has(
                    clips,
                    lower_seq((#[trigger] names[k])@),
                ) implies exists|i: int|
                sums.len() <= i < out.0.len() && (#[trigger] out.0[i]).1 == lower_seq(
                    names[k]@,
                ) by {
                if k < names.len() - 1 {
                    assert(rest[k] == names[k]);
                    assert(!spec_playing_has(clips, lower_seq(rest[k]@)));
                }
            }
        } else {
            let play_last = ActionQueueItem::Play(last, None, None, true, None);
            let single = seq![play_last];
            assert(plays =~= plays_rest + single);
            lemma_apply_actions_concat(sums, next_id, plays_rest, single, bank_lnames);
            let step = spec_apply_action_summary(sums, next_id, play_last, bank_lnames);
            assert(single.last() == play_last);
            assert(single.drop_last() =~= Seq::<ActionQueueItem>::empty());
            reveal_with_fuel(spec_apply_actions_summary, 2);
            assert(spec_apply_actions_summary(sums, next_id, single, bank_lnames) == step);
            assert(spec_lname_present(bank_lnames, lower_seq(last@)));
            assert(next_id < usize::MAX);
            let pushed = sums.push((next_id, lower_seq(last@), true));
            assert(step.0 == pushed && step.1 == next_id + 1);
            lemma_loop_all_plays_effect(pushed, (next_id + 1) as usize, rest, clips, bank_lnames);
            assert(out == spec_apply_actions_summary(
                pushed,
                (next_id + 1) as usize,
                plays_rest,
                bank_lnames,
            ));
            assert forall|i: int| 0 <= i < sums.len() implies (#[trigger] out.0[i]) == sums[i] by {
                assert(out.0[i] == pushed[i]);
                assert(pushed[i] == sums[i]);
            }
            assert forall|i: int|
                sums.len() <= i < out.0.len() implies (#[trigger] out.0[i]).2 && spec_names_have(
                names,
                out.0[i].1,
            ) && out.0[i].0 >= next_id by {
                if i < pushed.len() {
                    assert(out.0[i] == pushed[i]);
                    assert(pushed[i] == (next_id, lower_seq(last@), true));
                    assert(lower_seq(names[names.len() - 1]@) == out.0[i].1);
                    assert(spec_names_have(names, out.0[i].1));
                } else {
                    assert(spec_names_have(rest, out.0[i].1));
                    let w = choose|w: int|
                        0 <= w < rest.len() && lower_seq((#[trigger] rest[w])@) == out.0[i].1;
                    assert(names[w] == rest[w]);
                    assert(spec_names_have(names, out.0[i].1));
                }
            }
            assert forall|k: int|
                0 <= k < names.len() && !spec_playing_has(
                    clips,
                    lower_seq((#[trigger] names[k])@),
                ) implies exists|i: int|
                sums.len() <= i < out.0.len() && (#[trigger] out.0[i]).1 == lower_seq(
                    names[k]@,
                ) by {
                if k == names.len() - 1 {
                    assert(out.0[sums.len() as int] == pushed[sums.len() as int]);
                    assert(out.0[sums.len() as int].1 == lower_seq(names[k]@));
                    assert(out.0.len() > sums.len());
                } else {
                    assert(rest[k] == names[k]);
                    assert(!spec_playing_has(clips, lower_seq(rest[k]@)));
                    let i = choose|i: int|
                        pushed.len() <= i < out.0.len() && (#[trigger] out.0[i]).1 == lower_seq(
                            rest[k]@,
                        );
                    assert(sums.len() <= i < out.0.len() && out.0[i].1 == lower_seq(names[k]@));
                }
            }
        }
    }
}

/// Scene reconciliation, end to end: after a `LoopAll` request whose names
/// all stand in the catalog is queued against an all-active playing set and
/// the queue is drained without a fade, the active playing set carries
/// exactly the requested names (ignoring ASCII case), every clip that was
/// already requested keeps its id and stays untouched in place, and every
/// newly started clip carries a fresh id.
pub proof fn lemma_scene_loop_all_reconciliation(
    clips: Seq<ClipWithSink>,
    names: Seq<String>,
    next_id: usize,
    bank_lnames: Seq<Seq<u32>>,
)
    requires
        names.len() > 0,
        forall|i: int| 0 <= i < clips.len() ==> !(#[trigger] clips[i]).sink_cleared,
        forall|i: int, j: int|
            0 <= i < j < clips.len() ==> (#[trigger] clips[i]).id != (#[trigger] clips[j]).id,
        forall|k: int|
            0 <= k < names.len() ==> spec_lname_present(
                bank_lnames,
                lower_seq((#[trigger] names[k])@),
            ),
        next_id + names.len() <= usize::MAX,
    ensures
        ({
            let sums0 = spec_summaries(clips);
            let out = spec_apply_actions_summary(
                sums0,
                next_id,
                spec_scene_actions(ScenePickMode::LoopAll, names, None, clips, 0),
                bank_lnames,
            );
            &&& out.0.len() >= sums0.len()
            // Clips that were playing keep their place, id, and name; they
            // stay active exactly when their name is still requested.
            &&& forall|i: int|
                0 <= i < clips.len() ==> (#[trigger] out.0[i]).0 == clips[i].id && out.0[i].1
                    == lower_seq(clips[i].name@) && (out.0[i].2 <==> spec_names_have(
                    names,
                    lower_seq(clips[i].name@),
                ))
            // Newly started clips are active, requested, and fresh.
            &&& forall|i: int|
                clips.len() <= i < out.0.len() ==> (#[trigger] out.0[i]).2 && spec_names_have(
                    names,
                    out.0[i].1,
                ) && out.0[i].0 >= next_id
            // Every requested name is active afterwards.
            &&& forall|k: int|
                0 <= k < names.len() ==> exists|i: int|
                    0 <= i < out.0.len() && (#[trigger] out.0[i]).1 == lower_seq(
                        (#[trigger] names[k])@,
                    ) && out.0[i].2
        }),
{
    let sums0 = spec_summaries(clips);
    let plays = spec_loop_all_play_actions(names, None, clips);
    let stops = spec_loop_all_stop_actions(clips, None, names);
    let actions = spec_scene_actions(ScenePickMode::LoopAll, names, None, clips, 0);
    assert(actions == plays + stops);
    lemma_apply_actions_concat(sums0, next_id, plays, stops, bank_lnames);
    lemma_loop_all_stops_effect(sums0, next_id, clips, names, bank_lnames);
    let after_stops = spec_apply_actions_summary(sums0, next_id, stops, bank_lnames);
    lemma_loop_all_plays_effect(after_stops.0, next_id, names, clips, bank_lnames);
    let out = spec_apply_actions_summary(sums0, next_id, actions, bank_lnames);
    assert(sums0.len() == clips.len());

    assert forall|i: int|
        0 <= i < clips.len() implies (#[trigger] out.0[i]).0 == clips[i].id && out.0[i].1
        == lower_seq(clips[i].name@) && (out.0[i].2 <==> spec_names_have(
        names,
        lower_seq(clips[i].name@),
    )) by {
        assert(sums0[i] == spec_clip_summary(clips[i]));
        assert(out.0[i] == after_stops.0[i]);
        assert(after_stops.0[i].0 == clips[i].id && after_stops.0[i].1 == lower_seq(
            clips[i].name@,
        ));
        assert(after_stops.0[i].2 == (sums0[i].2 && !spec_stop_targets(
            clips,
            names,
            sums0[i].0,
        )));
        assert(sums0[i].2);
        if spec_names_have(names, lower_seq(clips[i].name@)) {
            if spec_stop_targets(clips, names, clips[i].id) {
                let j = choose|j: int|
                    0 <= j < clips.len() && (#[trigger] clips[j]).id == clips[i].id
                        && !spec_names_have(names, lower_seq(clips[j].name@));
                assert(j == i);
            }
            assert(!spec_stop_targets(clips, names, clips[i].id));
        } else {
            assert(spec_stop_targets(clips, names, clips[i].id));
        }
    }

    assert forall|k: int|
        0 <= k < names.len() implies exists|i: int|
        0 <= i < out.0.len() && (#[trigger] out.0[i]).1 == lower_seq((#[trigger] names[k])@)
            && out.0[i].2 by {
        let lname = lower_seq(names[k]@);
        if spec_playing_has(clips, lname) {
            let j = choose|j: int|
                0 <= j < clips.len() && lower_seq((#[trigger] clips[j]).name@) == lname;
            assert(spec_names_have(names, lower_seq(clips[j].name@)));
            assert(out.0[j].1 == lname && out.0[j].2);
            assert(0 <= j < out.0.len());
        } else {
            let i = choose|i: int|
                after_stops.0.len() <= i < out.0.len() && (#[trigger] out.0[i]).1 == lower_seq(
                    names[k]@,
                );
            assert(out.0[i].2);
        }
    }
}


/// Lifecycle events, ending side: a progress pass reports exactly one end
/// exactly when it removes exactly one clip, and the event carries that
/// clip's name. Since a clip leaves the playing set only through this
/// removal, it produces exactly one end event over its lifetime.
pub proof fn lemma_one_end_event_per_completion(
    m0: Model,
    m1: Model,
    now_ms: u64,
    sink_empty: Seq<bool>,
    ended: Option<SoundscapeEvent>,
)
    requires
        Model::spec_check_outcome(m0, m1, now_ms, sink_empty, ended),
    ensures
        ended is Some <==> m1.clips_playing@.len() == m0.clips_playing@.len() - 1,
        ended is None <==> m1.clips_playing@.len() == m0.clips_playing@.len(),
        (ended matches Some(e) ==> e is ClipEnded),
{
    lemma_first_completed_in_range(spec_updated_clips(m0.clips_playing@, now_ms), sink_empty);
}

/// Lifecycle events, starting side: an applied play action appends exactly
/// one clip exactly when it succeeds, which is when the coordinator reports
/// one start event for it. Since a clip enters the playing set only through
/// this append, it produces exactly one start event over its lifetime.
pub proof fn lemma_one_start_event_per_play(
    m0: Model,
    m1: Model,
    clip_name: Seq<char>,
    volume_override: Option<u32>,
    fade_ms: Option<u64>,
    should_loop: bool,
    override_panning: Option<PanWithRange>,
    now_ms: u64,
    played: bool,
)
    requires
        Model::spec_play_outcome(
            m0,
            m1,
            clip_name,
            volume_override,
            fade_ms,
            should_loop,
            override_panning,
            now_ms,
            played,
        ),
    ensures
        played <==> m1.clips_playing@.len() == m0.clips_playing@.len() + 1,
        !played ==> m1.clips_playing@ =~= m0.clips_playing@,
{
    lemma_find_by_name_characterisation(m0.sound_bank.clips@, clip_name);
}

} // verus!
