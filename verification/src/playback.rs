//! A playing clip's control record: gain envelope, panning routing, repeat
//! flag, and progress. The real audio sink lives with the output device;
//! callers mirror this record onto it after each tick (set its volume, pause
//! or resume it, clear it once `sink_cleared` is set) and report back whether
//! it has run out of samples.

use vstd::prelude::*;

verus! {

use vstd::arithmetic::div_mod::{
    lemma_div_is_ordered,
    lemma_div_multiples_vanish,
    lemma_div_pos_is_pos,
};
use vstd::arithmetic::mul::lemma_mul_inequality;
use crate::SCALE;
use crate::loader::AudioClipOnDisk;
use crate::panning::{pan_denom, pan_gain, simple_panning_channel_volumes};

/// Position (thousandths of a channel index, in range 0..=(channels-1)*1000)
/// and spread (thousandths of a channel width).
pub type PanWithRange = (i32, u32);

/// Default fade-in when a play request gives none, in milliseconds.
pub const DEFAULT_FADE_IN_MS: u64 = 8;

/// A linear volume ramp: from `from` to `to` (thousandths of full gain) over
/// `duration_ms` of elapsed time.
#[derive(Clone, Copy, PartialEq, Eq, Structural, Debug)]
pub struct StoredTweener {
    pub from: u32,
    pub to: u32,
    pub duration_ms: u64,
}

/// Both endpoints of a ramp are within full gain.
pub open spec fn tween_wf(t: StoredTweener) -> bool {
    t.from <= SCALE && t.to <= SCALE
}

/// The ramp's value after `elapsed_ms`: linear interpolation between the
/// endpoints, clamped to the final value once the duration has passed.
pub open spec fn tween_value(t: StoredTweener, elapsed_ms: u64) -> int {
    if elapsed_ms >= t.duration_ms {
        t.to as int
    } else if t.to >= t.from {
        t.from + (t.to - t.from) * (elapsed_ms as int) / (t.duration_ms as int)
    } else {
        t.from - (t.from - t.to) * (elapsed_ms as int) / (t.duration_ms as int)
    }
}

/// A ramp's value always lies between its endpoints.
pub proof fn lemma_tween_value_in_range(t: StoredTweener, elapsed_ms: u64)
    ensures
        if t.to >= t.from {
            t.from <= tween_value(t, elapsed_ms) <= t.to
        } else {
            t.to <= tween_value(t, elapsed_ms) <= t.from
        },
{
    if elapsed_ms < t.duration_ms {
        let e = elapsed_ms as int;
        let d = t.duration_ms as int;
        let diff: int = if t.to >= t.from {
            t.to - t.from
        } else {
            t.from - t.to
        };
        lemma_div_pos_is_pos(diff * e, d);
        lemma_mul_inequality(e, d, diff);
        lemma_div_is_ordered(e * diff, d * diff, d);
        lemma_div_multiples_vanish(diff, d);
        assert(diff * e == e * diff);
        assert(diff * d == d * diff);
        assert(0 <= diff * e / d <= diff);
    }
}

/// During a rising ramp the value is non-decreasing in elapsed time; during
/// a falling ramp it is non-increasing.
pub proof fn lemma_tween_value_monotonic(t: StoredTweener, e1: u64, e2: u64)
    requires
        e1 <= e2,
    ensures
        t.to >= t.from ==> tween_value(t, e1) <= tween_value(t, e2),
        t.to <= t.from ==> tween_value(t, e1) >= tween_value(t, e2),
{
    lemma_tween_value_in_range(t, e1);
    lemma_tween_value_in_range(t, e2);
    if e2 < t.duration_ms {
        let d = t.duration_ms as int;
        let diff: int = if t.to >= t.from {
            t.to - t.from
        } else {
            t.from - t.to
        };
        lemma_mul_inequality(e1 as int, e2 as int, diff);
        lemma_div_is_ordered(e1 as int * diff, e2 as int * diff, d);
        assert(diff * (e1 as int) == e1 as int * diff);
        assert(diff * (e2 as int) == e2 as int * diff);
    }
}

/// Once the duration has passed, the ramp rests at its final value.
pub proof fn lemma_tween_value_completes(t: StoredTweener, elapsed_ms: u64)
    requires
        elapsed_ms >= t.duration_ms,
    ensures
        tween_value(t, elapsed_ms) == t.to as int,
{
}

/// Samples a ramp at the given elapsed time.
pub fn tween_sample(t: &StoredTweener, elapsed_ms: u64) -> (gain: u32)
    requires
        tween_wf(*t),
    ensures
        gain == tween_value(*t, elapsed_ms),
        gain <= SCALE,
{
    proof {
        lemma_tween_value_in_range(*t, elapsed_ms);
    }
    if elapsed_ms >= t.duration_ms {
        return t.to;
    }
    let rising: bool = t.to >= t.from;
    let diff: u32 = if rising {
        t.to - t.from
    } else {
        t.from - t.to
    };
    proof {
        lemma_mul_inequality(diff as int, SCALE as int, elapsed_ms as int);
    }
    let num: u128 = (diff as u128) * (elapsed_ms as u128);
    let frac_wide: u128 = num / (t.duration_ms as u128);
    proof {
        let e = elapsed_ms as int;
        let d = t.duration_ms as int;
        lemma_div_pos_is_pos(diff as int * e, d);
        lemma_mul_inequality(e, d, diff as int);
        lemma_div_is_ordered(e * diff as int, d * diff as int, d);
        lemma_div_multiples_vanish(diff as int, d);
        assert(diff as int * e == e * diff as int);
        assert(diff as int * d == d * diff as int);
        assert(0 <= diff as int * e / d <= diff as int);
    }
    let frac: u32 = frac_wide as u32;
    if rising {
        t.from + frac
    } else {
        t.from - frac
    }
}

/// Where a playing clip stands in its volume envelope: ramping in, holding
/// steady, or ramping out (with the time the ramp-out started).
#[derive(Clone, Copy, PartialEq, Eq, Structural, Debug)]
pub enum PlaybackPhase {
    Attack(StoredTweener),
    Sustain(),
    Release(u64, StoredTweener),
}

/// A phase's ramps are within full gain, and a release always ramps to
/// silence.
pub open spec fn phase_wf(phase: PlaybackPhase) -> bool {
    match phase {
        PlaybackPhase::Attack(t) => tween_wf(t),
        PlaybackPhase::Sustain() => true,
        PlaybackPhase::Release(_, t) => tween_wf(t) && t.to == 0,
    }
}

/// Elapsed whole milliseconds from `start` to `now`, zero if the clock ran
/// backwards.
pub open spec fn spec_elapsed(start: u64, now: u64) -> u64 {
    if now >= start {
        (now - start) as u64
    } else {
        0
    }
}

/// The envelope gain a clip shows at time `now`: its attack or release ramp
/// sampled at the elapsed time, or the held gain while sustaining.
pub open spec fn spec_phase_gain(
    phase: PlaybackPhase,
    held_gain: u32,
    started_ms: u64,
    now_ms: u64,
) -> int {
    match phase {
        PlaybackPhase::Attack(t) => tween_value(t, spec_elapsed(started_ms, now_ms)),
        PlaybackPhase::Sustain() => held_gain as int,
        PlaybackPhase::Release(release_started_ms, t) => tween_value(
            t,
            spec_elapsed(release_started_ms, now_ms),
        ),
    }
}

/// The phase after one progress update: an attack whose ramp has finished
/// moves to sustain; nothing else moves by time alone.
pub open spec fn spec_next_phase(phase: PlaybackPhase, started_ms: u64, now_ms: u64) -> PlaybackPhase {
    match phase {
        PlaybackPhase::Attack(t) => if spec_elapsed(started_ms, now_ms) >= t.duration_ms {
            PlaybackPhase::Sustain()
        } else {
            phase
        },
        _ => phase,
    }
}

/// Whether a release ramp has fully played out at time `now` (upon which the
/// clip stops itself).
pub open spec fn spec_release_finished(phase: PlaybackPhase, now_ms: u64) -> bool {
    match phase {
        PlaybackPhase::Release(release_started_ms, t) => spec_elapsed(release_started_ms, now_ms)
            >= t.duration_ms,
        _ => false,
    }
}

/// During attack, the envelope gain is non-decreasing in elapsed time: the
/// ramp opens at silence and rises towards the target volume.
pub proof fn lemma_attack_gain_monotonic(
    t: StoredTweener,
    held_gain: u32,
    started_ms: u64,
    n1: u64,
    n2: u64,
)
    requires
        t.from == 0,
        n1 <= n2,
    ensures
        spec_phase_gain(PlaybackPhase::Attack(t), held_gain, started_ms, n1) <= spec_phase_gain(
            PlaybackPhase::Attack(t),
            held_gain,
            started_ms,
            n2,
        ),
{
    lemma_tween_value_monotonic(t, spec_elapsed(started_ms, n1), spec_elapsed(started_ms, n2));
}

/// During release, the envelope gain is non-increasing in elapsed time and
/// reaches silence once the fade duration has passed.
pub proof fn lemma_release_gain_monotonic(
    t: StoredTweener,
    held_gain: u32,
    started_ms: u64,
    release_started_ms: u64,
    n1: u64,
    n2: u64,
)
    requires
        t.to == 0,
        n1 <= n2,
    ensures
        spec_phase_gain(PlaybackPhase::Release(release_started_ms, t), held_gain, started_ms, n1)
            >= spec_phase_gain(
            PlaybackPhase::Release(release_started_ms, t),
            held_gain,
            started_ms,
            n2,
        ),
        spec_elapsed(release_started_ms, n2) >= t.duration_ms ==> spec_phase_gain(
            PlaybackPhase::Release(release_started_ms, t),
            held_gain,
            started_ms,
            n2,
        ) == 0,
{
    lemma_tween_value_monotonic(
        t,
        spec_elapsed(release_started_ms, n1),
        spec_elapsed(release_started_ms, n2),
    );
}

/// Normalised progress, in thousandths, after `elapsed_ms` of a source of
/// known duration; unchanged when the duration is unknown (or zero).
pub open spec fn spec_progress_after(
    previous: Option<u32>,
    duration_ms: Option<u64>,
    elapsed_ms: u64,
) -> Option<u32> {
    match duration_ms {
        Some(d) => if d > 0 {
            Some((((elapsed_ms as int % d as int) * SCALE as int) / d as int) as u32)
        } else {
            previous
        },
        None => previous,
    }
}

/// One playing clip: the control-side record of a live instance within the
/// mixer. The paired audio sink is mirrored from this record by the caller.
#[derive(Debug, Clone, PartialEq, Eq)]
pub struct ClipWithSink {
    pub id: usize,
    pub name: String,
    pub duration_ms: Option<u64>,
    pub started_ms: u64,
    pub last_known_progress: Option<u32>,
    pub is_looping: bool,
    pub current_phase: PlaybackPhase,
    pub current_volume: u32,
    pub master_volume: u32,
    pub paused: bool,
    pub sink_cleared: bool,
    pub channel_volumes: Option<(Vec<u64>, u64)>,
}

/// A clip's control record advanced to time `now_ms` by one progress
/// update: envelope resampled, a finished attack moved to sustain, a played
/// out release stopping the clip, and progress refreshed.
pub open spec fn spec_update_clip(c: ClipWithSink, now_ms: u64) -> ClipWithSink {
    ClipWithSink {
        current_volume: spec_phase_gain(
            c.current_phase,
            c.current_volume,
            c.started_ms,
            now_ms,
        ) as u32,
        current_phase: spec_next_phase(c.current_phase, c.started_ms, now_ms),
        sink_cleared: c.sink_cleared || spec_release_finished(c.current_phase, now_ms),
        last_known_progress: spec_progress_after(
            c.last_known_progress,
            c.duration_ms,
            spec_elapsed(c.started_ms, now_ms),
        ),
        ..c
    }
}

/// The per-channel gains a clip carries match a panning request: one
/// numerator per output channel over the pan denominator, or none when the
/// clip is not panned.
pub open spec fn pan_gains_match(
    channel_volumes: Option<(Vec<u64>, u64)>,
    panning: Option<PanWithRange>,
    output_channels: u16,
) -> bool {
    match panning {
        None => channel_volumes is None,
        Some(p) => match channel_volumes {
            Some(cv) => cv.1 == pan_denom(p.1) && cv.0@.len() == output_channels && forall|i: int|
                0 <= i < output_channels ==> cv.0@[i] == pan_gain(p.0, p.1, i),
            None => false,
        },
    }
}

/// The effective volume of a new clip: the override if given, else the
/// descriptor's default, else full gain.
pub open spec fn spec_effective_volume(
    volume_override: Option<u32>,
    descriptor_volume: Option<u32>,
) -> u32 {
    match volume_override {
        Some(v) => v,
        None => match descriptor_volume {
            Some(v) => v,
            None => SCALE,
        },
    }
}

/// The effective panning of a new clip: the override if given, else the
/// descriptor's default.
pub open spec fn spec_effective_panning(
    override_panning: Option<PanWithRange>,
    descriptor_panning: Option<PanWithRange>,
) -> Option<PanWithRange> {
    match override_panning {
        Some(p) => Some(p),
        None => descriptor_panning,
    }
}

impl ClipWithSink {
    /// Gains within full scale and well-formed envelope ramps.
    pub open spec fn wf(&self) -> bool {
        &&& self.current_volume <= SCALE
        &&& self.master_volume <= SCALE
        &&& phase_wf(self.current_phase)
    }

    /// Builds the control record of a newly started clip: effective volume
    /// and panning resolved against the descriptor, per-channel gains
    /// computed for the output layout, and the envelope opening in attack
    /// from silence.
    pub fn new(
        id: usize,
        sample: &AudioClipOnDisk,
        duration_ms: Option<u64>,
        should_loop: bool,
        volume_override: Option<u32>,
        fade_in_ms: Option<u64>,
        override_panning: Option<PanWithRange>,
        output_channels: u16,
        now_ms: u64,
    ) -> (clip: ClipWithSink)
        requires
            (volume_override matches Some(v) ==> v <= SCALE),
            crate::loader::clip_volume_ok(sample),
        ensures
            clip.id == id,
            clip.name == sample.name,
            clip.duration_ms == duration_ms,
            clip.started_ms == now_ms,
            clip.last_known_progress == (if duration_ms is Some {
                Some(0u32)
            } else {
                None::<u32>
            }),
            clip.is_looping == should_loop,
            clip.current_volume == 0,
            clip.master_volume == SCALE,
            !clip.paused,
            !clip.sink_cleared,
            clip.current_phase == PlaybackPhase::Attack(
                StoredTweener {
                    from: 0,
                    to: spec_effective_volume(volume_override, sample.spec_volume()),
                    duration_ms: match fade_in_ms {
                        Some(d) => d,
                        None => DEFAULT_FADE_IN_MS,
                    },
                },
            ),
            pan_gains_match(
                clip.channel_volumes,
                spec_effective_panning(override_panning, sample.spec_panning()),
                output_channels,
            ),
            clip.wf(),
    {
        let panning: Option<PanWithRange> = match override_panning {
            Some(p) => Some(p),
            None => sample.panning(),
        };
        let channel_volumes: Option<(Vec<u64>, u64)> = match panning {
            Some((position, spread)) => Some(
                simple_panning_channel_volumes(position, spread, output_channels),
            ),
            None => None,
        };
        let target_volume: u32 = match volume_override {
            Some(v) => v,
            None => match sample.volume() {
                Some(v) => v,
                None => SCALE,
            },
        };
        let fade: u64 = match fade_in_ms {
            Some(d) => d,
            None => DEFAULT_FADE_IN_MS,
        };
        ClipWithSink {
            id,
            name: sample.name.clone(),
            duration_ms,
            started_ms: now_ms,
            last_known_progress: match duration_ms {
                Some(_) => Some(0),
                None => None,
            },
            is_looping: should_loop,
            current_phase: PlaybackPhase::Attack(
                StoredTweener { from: 0, to: target_volume, duration_ms: fade },
            ),
            current_volume: 0,
            master_volume: SCALE,
            paused: false,
            sink_cleared: false,
            channel_volumes,
        }
    }

    /// Whether this clip is done sounding: its sink has reported running out
    /// of samples, or it was stopped.
    pub fn is_completed(&self, sink_empty: bool) -> (r: bool)
        ensures
            r == (sink_empty || self.sink_cleared),
    {
        sink_empty || self.sink_cleared
    }

    /// Advances the envelope and progress to time `now_ms`: samples the
    /// current ramp into `current_volume`, moves a finished attack to
    /// sustain, stops the clip once a release has played out, and refreshes
    /// the normalised progress when the source duration is known.
    pub fn update_progress(&mut self, now_ms: u64)
        requires
            old(self).wf(),
        ensures
            *final(self) == spec_update_clip(*old(self), now_ms),
            final(self).wf(),
    {
        let elapsed: u64 = if now_ms >= self.started_ms {
            now_ms - self.started_ms
        } else {
            0
        };

        match &self.current_phase {
            PlaybackPhase::Attack(tween) => {
                self.current_volume = tween_sample(tween, elapsed);
            },
            PlaybackPhase::Sustain() => {},
            PlaybackPhase::Release(release_started_ms, tween) => {
                let rs: u64 = *release_started_ms;
                let since_release: u64 = if now_ms >= rs {
                    now_ms - rs
                } else {
                    0
                };
                self.current_volume = tween_sample(tween, since_release);
            },
        }

        match &self.current_phase {
            PlaybackPhase::Attack(tween) => {
                if elapsed >= tween.duration_ms {
                    self.current_phase = PlaybackPhase::Sustain();
                }
            },
            PlaybackPhase::Release(release_started_ms, tween) => {
                let rs: u64 = *release_started_ms;
                let since_release: u64 = if now_ms >= rs {
                    now_ms - rs
                } else {
                    0
                };
                if since_release >= tween.duration_ms {
                    self.sink_cleared = true;
                }
            },
            _ => {},
        }

        match self.duration_ms {
            Some(d) => {
                if d > 0 {
                    let scaled: u128 = ((elapsed % d) as u128) * (SCALE as u128);
                    let progress_wide: u128 = scaled / (d as u128);
                    proof {
                        let e = (elapsed % d) as int;
                        let di = d as int;
                        lemma_div_pos_is_pos(e * SCALE as int, di);
                        lemma_mul_inequality(e, di, SCALE as int);
                        lemma_div_is_ordered(e * SCALE as int, di * SCALE as int, di);
                        lemma_div_multiples_vanish(SCALE as int, di);
                        assert(SCALE as int * di == di * SCALE as int);
                        assert(0 <= e * SCALE as int / di <= SCALE as int);
                    }
                    self.last_known_progress = Some(progress_wide as u32);
                }
            },
            None => {},
        }
    }

    /// Last observed normalised progress, in thousandths of the source
    /// duration; `None` when the source has no known duration.
    pub fn progress(&self) -> (r: Option<u32>)
        ensures
            r == self.last_known_progress,
    {
        self.last_known_progress
    }

    /// Stops the clip at once: the paired sink is to be cleared, upon which
    /// it reports empty and the clip is pruned.
    pub fn stop(&mut self)
        ensures
            *final(self) == (ClipWithSink { sink_cleared: true, ..*old(self) }),
    {
        self.sink_cleared = true;
    }

    /// Begins a ramp-out: snapshots the current envelope gain and ramps it
    /// to silence over `duration_ms`, restarting the release if one was
    /// already running.
    pub fn fade_out(&mut self, duration_ms: u64, now_ms: u64)
        requires
            old(self).wf(),
        ensures
            *final(self) == (ClipWithSink {
                current_phase: PlaybackPhase::Release(
                    now_ms,
                    StoredTweener { from: old(self).current_volume, to: 0, duration_ms },
                ),
                ..*old(self)
            }),
            final(self).wf(),
    {
        let tween = StoredTweener { from: self.current_volume, to: 0, duration_ms };
        self.current_phase = PlaybackPhase::Release(now_ms, tween);
    }

    /// Halts playback without losing position; the paired sink is to be
    /// paused.
    pub fn pause(&mut self)
        ensures
            *final(self) == (ClipWithSink { paused: true, ..*old(self) }),
    {
        self.paused = true;
    }

    /// Continues halted playback; the paired sink is to be resumed.
    pub fn resume(&mut self)
        ensures
            *final(self) == (ClipWithSink { paused: false, ..*old(self) }),
    {
        self.paused = false;
    }

    /// Sets the master multiplier applied on top of the envelope, in
    /// thousandths of full gain.
    pub fn set_volume(&mut self, volume: u32)
        requires
            volume <= SCALE,
        ensures
            *final(self) == (ClipWithSink { master_volume: volume, ..*old(self) }),
    {
        self.master_volume = volume;
    }

    pub fn name(&self) -> (r: &str)
        ensures
            r@ == self.name@,
    {
        self.name.as_str()
    }

    /// The gain to apply to the paired sink: envelope gain times the master
    /// multiplier, in thousandths of full gain.
    pub open spec fn spec_applied_volume(&self) -> u32 {
        ((self.current_volume * self.master_volume) / SCALE as int) as u32
    }

    /// Instantaneous applied gain: envelope times master multiplier, in
    /// thousandths of full gain.
    pub fn current_volume(&self) -> (r: u32)
        requires
            self.wf(),
        ensures
            r == self.spec_applied_volume(),
            r <= SCALE,
    {
        proof {
            lemma_mul_inequality(
                self.current_volume as int,
                SCALE as int,
                self.master_volume as int,
            );
            lemma_mul_inequality(self.master_volume as int, SCALE as int, SCALE as int);
            lemma_div_is_ordered(
                self.current_volume as int * self.master_volume as int,
                SCALE as int * SCALE as int,
                SCALE as int,
            );
            lemma_div_pos_is_pos(self.current_volume as int * self.master_volume as int, SCALE as int);
            assert(self.current_volume as int * self.master_volume as int <= SCALE as int
                * SCALE as int);
            lemma_div_multiples_vanish(SCALE as int, SCALE as int);
            assert(SCALE as int * SCALE as int / SCALE as int == SCALE as int);
        }
        ((self.current_volume as u64 * self.master_volume as u64) / (SCALE as u64)) as u32
    }

    pub fn is_looping(&self) -> (r: bool)
        ensures
            r == self.is_looping,
    {
        self.is_looping
    }

    pub fn id(&self) -> (r: usize)
        ensures
            r == self.id,
    {
        self.id
    }

    pub fn phase(&self) -> (r: &PlaybackPhase)
        ensures
            r == self.current_phase,
    {
        &self.current_phase
    }

    pub fn is_paused(&self) -> (r: bool)
        ensures
            r == self.paused,
    {
        self.paused
    }
}

} // verus!
