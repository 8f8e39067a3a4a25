//! The clip catalog: an immutable set of clip descriptors loaded from a
//! manifest at startup. Reading and decoding the manifest file is the
//! caller's job; this module validates the entries and owns the loaded set.
//!
//! Catalog names are unique ignoring ASCII case, and lookup matches names the
//! same way.

use vstd::prelude::*;

verus! {

use crate::SCALE;
use crate::playback::PanWithRange;
use crate::utils::{eq_ignore_case, eq_ignore_case_spec};

/// One catalog entry: a logical clip name, the decodable file behind it, and
/// its default mixing parameters. The volume is in thousandths of full gain;
/// the pan position and spread are in thousandths of a channel index.
#[derive(Debug, Clone, PartialEq, Eq)]
pub struct AudioClipOnDisk {
    pub name: String,
    pub path: String,
    pub volume: Option<u32>,
    pub pan_position: Option<i32>,
    pub pan_spread: Option<u32>,
}

/// A descriptor's default volume, if any, does not exceed full gain.
pub open spec fn clip_volume_ok(clip: &AudioClipOnDisk) -> bool {
    match clip.volume {
        Some(v) => v <= SCALE,
        None => true,
    }
}

/// The default pan a descriptor carries: none unless a pan position was
/// given; a missing spread defaults to one channel width.
pub open spec fn spec_default_panning(
    pan_position: Option<i32>,
    pan_spread: Option<u32>,
) -> Option<PanWithRange> {
    match pan_position {
        None => None,
        Some(p) => Some(
            (
                p,
                match pan_spread {
                    Some(s) => s,
                    None => SCALE,
                },
            ),
        ),
    }
}

impl AudioClipOnDisk {
    /// Builds one catalog entry from already-decoded manifest fields.
    pub fn new(
        name: String,
        path: String,
        volume: Option<u32>,
        pan_position: Option<i32>,
        pan_spread: Option<u32>,
    ) -> (clip: AudioClipOnDisk)
        ensures
            clip.name == name,
            clip.path == path,
            clip.volume == volume,
            clip.pan_position == pan_position,
            clip.pan_spread == pan_spread,
    {
        AudioClipOnDisk { name, path, volume, pan_position, pan_spread }
    }

    pub fn name(&self) -> (r: &str)
        ensures
            r@ == self.name@,
    {
        self.name.as_str()
    }

    pub fn path(&self) -> (r: &str)
        ensures
            r@ == self.path@,
    {
        self.path.as_str()
    }

    /// The spec-level name of this entry.
    pub open spec fn spec_name(&self) -> Seq<char> {
        self.name@
    }

    /// Default volume in thousandths of full gain, if the manifest gave one.
    pub fn volume(&self) -> (r: Option<u32>)
        ensures
            r == self.volume,
    {
        self.volume
    }

    /// The spec-level default volume of this entry.
    pub open spec fn spec_volume(&self) -> Option<u32> {
        self.volume
    }

    /// Default panning, if the manifest gave a pan position; a missing
    /// spread defaults to one channel width.
    pub fn panning(&self) -> (r: Option<PanWithRange>)
        ensures
            r == self.spec_panning(),
    {
        crate::utils::parse_optional_panning(self.pan_position, self.pan_spread)
    }

    /// The spec-level default panning of this entry.
    pub open spec fn spec_panning(&self) -> Option<PanWithRange> {
        spec_default_panning(self.pan_position, self.pan_spread)
    }
}

/// Why loading a catalog was refused.
#[derive(Clone, Copy, PartialEq, Eq, Structural, Debug)]
pub enum LoadError {
    /// Two entries share a name, ignoring ASCII case.
    DuplicateName,
    /// An entry's default volume exceeds full gain.
    VolumeOutOfRange,
}

/// Every pair of distinct entries has distinct names, ignoring ASCII case.
pub open spec fn names_unique(clips: Seq<AudioClipOnDisk>) -> bool {
    forall|i: int, j: int|
        0 <= i < j < clips.len() ==> !eq_ignore_case_spec(
            clips[i].spec_name(),
            clips[j].spec_name(),
        )
}

/// Every entry's default volume is within full gain.
pub open spec fn volumes_ok(clips: Seq<AudioClipOnDisk>) -> bool {
    forall|i: int| 0 <= i < clips.len() ==> clip_volume_ok(&clips[i])
}

/// A loadable set of entries: volumes in range and names unique.
pub open spec fn catalog_ok(clips: Seq<AudioClipOnDisk>) -> bool {
    volumes_ok(clips) && names_unique(clips)
}

/// The immutable clip catalog.
#[derive(Debug)]
pub struct SoundBank {
    pub clips: Vec<AudioClipOnDisk>,
}

impl SoundBank {
    /// The catalog invariant established at load time.
    pub open spec fn wf(&self) -> bool {
        catalog_ok(self.clips@)
    }

    /// Validates and owns a decoded manifest: loading fails on a default
    /// volume beyond full gain, and on two entries whose names match
    /// ignoring ASCII case.
    pub fn new(clips: Vec<AudioClipOnDisk>) -> (r: Result<SoundBank, LoadError>)
        ensures
            match r {
                Ok(bank) => bank.clips == clips && catalog_ok(clips@),
                Err(LoadError::VolumeOutOfRange) => !volumes_ok(clips@),
                Err(LoadError::DuplicateName) => volumes_ok(clips@) && !names_unique(clips@),
            },
    {
        let n: usize = clips.len();
        let mut i: usize = 0;
        while i < n
            invariant
                n == clips@.len(),
                i <= n,
                forall|k: int| 0 <= k < i ==> clip_volume_ok(&clips@[k]),
            decreases n - i,
        {
            match clips[i].volume {
                Some(v) => {
                    if v > SCALE {
                        return Err(LoadError::VolumeOutOfRange);
                    }
                },
                None => {},
            }
            i = i + 1;
        }
        let mut i: usize = 0;
        while i < n
            invariant
                n == clips@.len(),
                i <= n,
                volumes_ok(clips@),
                forall|p: int, q: int|
                    0 <= p < q < i ==> !eq_ignore_case_spec(
                        clips@[p].spec_name(),
                        clips@[q].spec_name(),
                    ),
            decreases n - i,
        {
            let mut j: usize = 0;
            while j < i
                invariant
                    n == clips@.len(),
                    j <= i < n,
                    volumes_ok(clips@),
                    forall|q: int|
                        0 <= q < j ==> !eq_ignore_case_spec(
                            clips@[q].spec_name(),
                            clips@[i as int].spec_name(),
                        ),
                decreases i - j,
            {
                if eq_ignore_case(clips[j].name.as_str(), clips[i].name.as_str()) {
                    assert(!names_unique(clips@)) by {
                        assert(eq_ignore_case_spec(
                            clips@[j as int].spec_name(),
                            clips@[i as int].spec_name(),
                        ));
                    }
                    return Err(LoadError::DuplicateName);
                }
                j = j + 1;
            }
            i = i + 1;
        }
        Ok(SoundBank { clips })
    }

    /// Read-only view of the loaded entries.
    pub fn clips(&self) -> (r: &Vec<AudioClipOnDisk>)
        ensures
            r == self.clips,
    {
        &self.clips
    }

    /// Whether some entry matches the name, ignoring ASCII case.
    pub open spec fn spec_has_name(&self, name: Seq<char>) -> bool {
        exists|i: int|
            0 <= i < self.clips@.len() && eq_ignore_case_spec(self.clips@[i].spec_name(), name)
    }

    /// Finds the first entry whose name matches, ignoring ASCII case.
    pub fn find_by_name(&self, name: &str) -> (r: Option<usize>)
        ensures
            match r {
                Some(i) => spec_find_by_name(self.clips@, name@, 0) == Some(i as int),
                None => spec_find_by_name(self.clips@, name@, 0) is None,
            },
            r is Some <==> self.spec_has_name(name@),
    {
        proof {
            lemma_find_by_name_characterisation(self.clips@, name@);
        }
        let n: usize = self.clips.len();
        let mut i: usize = 0;
        while i < n
            invariant
                n == self.clips@.len(),
                i <= n,
                forall|j: int|
                    0 <= j < i ==> !eq_ignore_case_spec(self.clips@[j].spec_name(), name@),
            decreases n - i,
        {
            if eq_ignore_case(self.clips[i].name.as_str(), name) {
                proof {
                    lemma_find_by_name_skip(self.clips@, name@, i as int);
                }
                return Some(i);
            }
            i = i + 1;
        }
        proof {
            lemma_find_by_name_skip(self.clips@, name@, n as int);
        }
        None
    }
}

/// Index of the first entry at or after `from` whose name matches, ignoring
/// ASCII case.
pub open spec fn spec_find_by_name(
    clips: Seq<AudioClipOnDisk>,
    name: Seq<char>,
    from: int,
) -> Option<int>
    decreases clips.len() - from,
{
    if from < 0 || from >= clips.len() {
        None
    } else if eq_ignore_case_spec(clips[from].spec_name(), name) {
        Some(from)
    } else {
        spec_find_by_name(clips, name, from + 1)
    }
}

/// A search that has ruled out every entry before `from` finds the same
/// match whether it starts at the beginning or at `from`.
proof fn lemma_find_by_name_skip(clips: Seq<AudioClipOnDisk>, name: Seq<char>, from: int)
    requires
        0 <= from <= clips.len(),
        forall|j: int| 0 <= j < from ==> !eq_ignore_case_spec(clips[j].spec_name(), name),
    ensures
        spec_find_by_name(clips, name, 0) == spec_find_by_name(clips, name, from),
    decreases from,
{
    if from > 0 {
        lemma_find_by_name_skip(clips, name, from - 1);
    }
}

/// The search finds an entry exactly when one matches, and what it finds is
/// a match.
pub proof fn lemma_find_by_name_characterisation(clips: Seq<AudioClipOnDisk>, name: Seq<char>)
    ensures
        match spec_find_by_name(clips, name, 0) {
            Some(i) => 0 <= i < clips.len() && eq_ignore_case_spec(clips[i].spec_name(), name),
            None => forall|i: int|
                0 <= i < clips.len() ==> !eq_ignore_case_spec(clips[i].spec_name(), name),
        },
{
    lemma_find_by_name_range(clips, name, 0);
}

proof fn lemma_find_by_name_range(clips: Seq<AudioClipOnDisk>, name: Seq<char>, from: int)
    requires
        0 <= from,
    ensures
        match spec_find_by_name(clips, name, from) {
            Some(i) => from <= i < clips.len() && eq_ignore_case_spec(clips[i].spec_name(), name),
            None => forall|i: int|
                from <= i < clips.len() ==> !eq_ignore_case_spec(clips[i].spec_name(), name),
        },
    decreases clips.len() - from,
{
    if from < clips.len() {
        lemma_find_by_name_range(clips, name, from + 1);
    }
}

/// Resolves a clip path from the manifest against the manifest's own
/// directory: an absolute clip path stands alone; a relative one is joined
/// below the directory, with a separator added only when the directory is
/// non-empty and does not already end in one (a manifest named without a
/// directory leaves the clip path untouched).
pub open spec fn spec_joined_path(assets_path: Seq<char>, base_path: Seq<char>) -> Seq<char> {
    if base_path.len() > 0 && base_path[0] == '/' {
        base_path
    } else if assets_path.len() == 0 {
        base_path
    } else if assets_path.last() == '/' {
        assets_path + base_path
    } else {
        assets_path + seq!['/'] + base_path
    }
}

/// Builds the on-disk location of a clip file from the manifest directory
/// and the path the manifest entry gives.
pub fn get_sound_asset_path(assets_path: &str, base_path: &str) -> (r: String)
    ensures
        r@ == spec_joined_path(assets_path@, base_path@),
{
    if base_path.unicode_len() > 0 && base_path.get_char(0) == '/' {
        return base_path.to_owned();
    }
    let assets_len: usize = assets_path.unicode_len();
    if assets_len == 0 {
        return base_path.to_owned();
    }
    let mut joined: String = assets_path.to_owned();
    if assets_path.get_char(assets_len - 1) == '/' {
        joined.append(base_path);
        proof {
            assert(joined@ =~= assets_path@ + base_path@);
        }
    } else {
        joined.append("/");
        joined.append(base_path);
        proof {
            reveal_strlit("/");
            assert(joined@ =~= assets_path@ + seq!['/'] + base_path@);
        }
    }
    joined
}

} // verus!
