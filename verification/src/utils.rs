//! Small helpers shared by the catalog and the coordinator: ASCII case
//! folding for clip-name matching, the random pick used by scene commands,
//! and millisecond-to-`Duration` conversion for callers that drive real
//! timers.

use vstd::prelude::*;

verus! {

use core::time::Duration;

/// Character code with an ASCII upper-case letter folded to lower case.
pub open spec fn lower_code(c: char) -> u32 {
    if 65 <= c as u32 && c as u32 <= 90 {
        (c as u32 + 32) as u32
    } else {
        c as u32
    }
}

/// A text's character codes, ASCII-folded to lower case.
pub open spec fn lower_seq(s: Seq<char>) -> Seq<u32> {
    s.map_values(|c: char| lower_code(c))
}

/// Whether two texts match ignoring ASCII case.
pub open spec fn eq_ignore_case_spec(a: Seq<char>, b: Seq<char>) -> bool {
    lower_seq(a) == lower_seq(b)
}

fn lower_code_of(c: char) -> (u: u32)
    ensures
        u == lower_code(c),
{
    let code: u32 = c as u32;
    if 65 <= code && code <= 90 {
        code + 32
    } else {
        code
    }
}

/// Compares two names ignoring ASCII case, the equivalence used for catalog
/// lookup and scene reconciliation.
pub fn eq_ignore_case(a: &str, b: &str) -> (r: bool)
    ensures
        r == eq_ignore_case_spec(a@, b@),
{
    let a_len: usize = a.unicode_len();
    let b_len: usize = b.unicode_len();
    if a_len != b_len {
        assert(lower_seq(a@).len() != lower_seq(b@).len());
        return false;
    }
    let mut i: usize = 0;
    while i < a_len
        invariant
            a_len == a@.len(),
            b_len == b@.len(),
            a_len == b_len,
            i <= a_len,
            forall|j: int| 0 <= j < i ==> lower_seq(a@)[j] == lower_seq(b@)[j],
        decreases a_len - i,
    {
        let ca: u32 = lower_code_of(a.get_char(i));
        let cb: u32 = lower_code_of(b.get_char(i));
        if ca != cb {
            assert(lower_seq(a@)[i as int] != lower_seq(b@)[i as int]);
            return false;
        }
        i = i + 1;
    }
    assert(lower_seq(a@) =~= lower_seq(b@));
    true
}

/// If at least a pan position is provided, then return a valid panning pair,
/// and use a default pan spread of one channel width unless provided with
/// one as well; otherwise, return `None`.
pub fn parse_optional_panning(
    pan_position: Option<i32>,
    pan_spread: Option<u32>,
) -> (r: Option<crate::playback::PanWithRange>)
    ensures
        r == crate::loader::spec_default_panning(pan_position, pan_spread),
{
    match pan_position {
        None => None,
        Some(p) => Some(
            (
                p,
                match pan_spread {
                    Some(s) => s,
                    None => crate::SCALE,
                },
            ),
        ),
    }
}

use crate::playback::ClipWithSink;

/// Finds the first playing clip whose name equals `name` exactly, with its
/// position in the list.
pub fn get_clip_index_with_name<'a>(clips: &'a [ClipWithSink], name: &str) -> (r: Option<
    (usize, &'a ClipWithSink),
>)
    ensures
        match r {
            Some(found) => 0 <= found.0 < clips@.len() && found.1 == &clips@[found.0 as int]
                && clips@[found.0 as int].name@ == name@ && forall|j: int|
                0 <= j < found.0 ==> (#[trigger] clips@[j]).name@ != name@,
            None => forall|j: int| 0 <= j < clips@.len() ==> (#[trigger] clips@[j]).name@ != name@,
        },
{
    let n: usize = clips.len();
    let mut i: usize = 0;
    while i < n
        invariant
            n == clips@.len(),
            i <= n,
            forall|j: int| 0 <= j < i ==> (#[trigger] clips@[j]).name@ != name@,
        decreases n - i,
    {
        if str_eq(clips[i].name.as_str(), name) {
            return Some((i, &clips[i]));
        }
        i = i + 1;
    }
    None
}

/// Finds the playing clip with the given id, with its position in the list.
pub fn get_clip_index_with_id<'a>(clips: &'a [ClipWithSink], id: usize) -> (r: Option<
    (usize, &'a ClipWithSink),
>)
    ensures
        match r {
            Some(found) => 0 <= found.0 < clips@.len() && found.1 == &clips@[found.0 as int]
                && clips@[found.0 as int].id == id && forall|j: int|
                0 <= j < found.0 ==> (#[trigger] clips@[j]).id != id,
            None => forall|j: int| 0 <= j < clips@.len() ==> (#[trigger] clips@[j]).id != id,
        },
{
    let n: usize = clips.len();
    let mut i: usize = 0;
    while i < n
        invariant
            n == clips@.len(),
            i <= n,
            forall|j: int| 0 <= j < i ==> (#[trigger] clips@[j]).id != id,
        decreases n - i,
    {
        if clips[i].id() == id {
            return Some((i, &clips[i]));
        }
        i = i + 1;
    }
    None
}

/// Position of the playing clip with the given id, for callers that go on to
/// mutate it in place.
pub fn get_clip_index_with_id_mut(clips: &mut [ClipWithSink], id: usize) -> (r: Option<usize>)
    ensures
        final(clips)@ == old(clips)@,
        match r {
            Some(i) => 0 <= i < old(clips)@.len() && old(clips)@[i as int].id == id
                && forall|j: int| 0 <= j < i ==> (#[trigger] old(clips)@[j]).id != id,
            None => forall|j: int|
                0 <= j < old(clips)@.len() ==> (#[trigger] old(clips)@[j]).id != id,
        },
{
    let n: usize = clips.len();
    let mut i: usize = 0;
    while i < n
        invariant
            clips@ == old(clips)@,
            n == clips@.len(),
            i <= n,
            forall|j: int| 0 <= j < i ==> (#[trigger] clips@[j]).id != id,
        decreases n - i,
    {
        if clips[i].id() == id {
            return Some(i);
        }
        i = i + 1;
    }
    None
}

/// The lowest id strictly above every id in the list, zero when empty: the
/// successor of the highest id seen so far.
pub open spec fn spec_highest_id(clips: Seq<ClipWithSink>) -> int
    decreases clips.len(),
{
    if clips.len() == 0 {
        0
    } else {
        let rest = spec_highest_id(clips.drop_last());
        if clips.last().id >= rest {
            clips.last().id + 1
        } else {
            rest
        }
    }
}

/// Scans for the next id not yet in use: one above the highest id present.
pub fn get_highest_id(clips: &[ClipWithSink]) -> (r: usize)
    requires
        forall|i: int| 0 <= i < clips@.len() ==> (#[trigger] clips@[i]).id < usize::MAX,
    ensures
        r == spec_highest_id(clips@),
{
    let n: usize = clips.len();
    let mut highest_so_far: usize = 0;
    let mut i: usize = 0;
    while i < n
        invariant
            forall|k: int| 0 <= k < clips@.len() ==> (#[trigger] clips@[k]).id < usize::MAX,
            n == clips@.len(),
            i <= n,
            highest_so_far == spec_highest_id(clips@.take(i as int)),
        decreases n - i,
    {
        proof {
            assert(clips@.take(i + 1).drop_last() =~= clips@.take(i as int));
        }
        if clips[i].id() >= highest_so_far {
            highest_so_far = clips[i].id() + 1;
        }
        i = i + 1;
    }
    proof {
        assert(clips@.take(n as int) =~= clips@);
    }
    highest_so_far
}

/// Compares two texts for exact equality.
pub fn str_eq(a: &str, b: &str) -> (r: bool)
    ensures
        r == (a@ == b@),
{
    let owned_a: String = a.to_owned();
    let owned_b: String = b.to_owned();
    owned_a == owned_b
}

/// Relies on rand's `Rng::gen_range`: the result lies in the given range,
/// which must not be empty.
#[verifier::external_body]
pub(crate) fn random_index(bound: usize) -> (r: usize)
    requires
        bound > 0,
    ensures
        r < bound,
{
    let mut rng = rand::thread_rng();
    rand::Rng::gen_range(&mut rng, 0..bound)
}

/// Picks one clip name uniformly at random from a non-empty list.
pub fn pick_random_clip(clip_names: Vec<String>) -> (r: String)
    requires
        clip_names@.len() > 0,
    ensures
        exists|i: int| 0 <= i < clip_names@.len() && r == clip_names@[i],
{
    let index: usize = random_index(clip_names.len());
    clip_names[index].clone()
}

/// The `Duration` holding a given number of milliseconds.
pub uninterp spec fn duration_of_millis(ms: u64) -> Duration;

/// Relies on std's `Duration::from_millis`: the result is determined by the
/// argument alone.
#[verifier::external_body]
fn duration_from_millis(ms: u64) -> (d: Duration)
    ensures
        d == duration_of_millis(ms),
{
    Duration::from_millis(ms)
}

/// Converts an optional millisecond count into an optional `Duration`, for
/// callers that drive real timers and sinks.
pub fn optional_ms_to_duration(ms: Option<u64>) -> (r: Option<Duration>)
    ensures
        r == match ms {
            None => None::<Duration>,
            Some(v) => Some(duration_of_millis(v)),
        },
{
    match ms {
        None => None,
        Some(v) => Some(duration_from_millis(v)),
    }
}

} // verus!
