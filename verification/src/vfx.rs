//! Particle effects: emitters that burst a number of times, and which keys
//! of a lifetime curve apply at a point of a particle's life.
use vstd::prelude::*;

verus! {

/// How an emitter emits.
#[derive(Clone, Copy, PartialEq, Eq, Structural, Debug)]
pub enum VfxEmitterKind {
    Continuous { count_per_burst: u32, burst_count: u32, rate_millis: u32 },
}

/// A running emitter: how many particles each burst spawns, how many
/// bursts are left, and the period in milliseconds of the repeating timer
/// that paces them, which runs in the game engine.
#[derive(Clone, Copy, PartialEq, Eq, Structural, Debug)]
pub struct VfxContinuousEmitter {
    pub count_per_burst: u32,
    pub count_left: u32,
    pub burst_rate_millis: u32,
}

/// What one frame of an emitter does.
#[derive(Clone, Copy, PartialEq, Eq, Structural, Debug)]
pub struct EmitterStep {
    /// Whether to spawn a burst now.
    pub burst: bool,
    /// Whether the emitter is done and goes away.
    pub despawn: bool,
}

/// An effect starting: the size of the burst spawned at once, and the
/// emitter left for the other bursts of an effect with `burst_count`
/// bursts, paced by a repeating timer of `burst_rate_millis`.
pub fn spawn_vfx_emitter(count_per_burst: u32, burst_count: u32, burst_rate_millis: u32) -> (r: (u32, VfxContinuousEmitter))
    requires
        burst_count >= 1,
    ensures
        r.0 == count_per_burst,
        r.1 == (VfxContinuousEmitter { count_per_burst, count_left: (burst_count - 1) as u32, burst_rate_millis }),
{
    (count_per_burst, VfxContinuousEmitter { count_per_burst, count_left: burst_count - 1, burst_rate_millis })
}

/// Bursts left and bursts fired after a run of frames, `ticks[i]` telling
/// whether the timer ran out in frame `i`, from `left` bursts left.
pub open spec fn emitter_run(left: u32, ticks: Seq<bool>) -> (u32, nat)
    decreases ticks.len(),
{
    if ticks.len() == 0 {
        (left, 0)
    } else {
        let (l, n) = emitter_run(left, ticks.drop_last());
        if ticks.last() && l > 0 {
            ((l - 1) as u32, n + 1)
        } else {
            (l, n)
        }
    }
}

/// How many of `ticks` are timer run-outs.
pub open spec fn run_outs(ticks: Seq<bool>) -> nat
    decreases ticks.len(),
{
    if ticks.len() == 0 {
        0
    } else {
        run_outs(ticks.drop_last()) + if ticks.last() { 1nat } else { 0nat }
    }
}

/// An emitter bursts once per timer run-out until none are left: the
/// bursts fired and those left add up to what it started with, and once
/// the timer has run out as often as there were bursts left, all have
/// been fired.
pub proof fn emitter_fires_every_burst(left: u32, ticks: Seq<bool>)
    ensures
        emitter_run(left, ticks).0 + emitter_run(left, ticks).1 == left,
        emitter_run(left, ticks).1 <= run_outs(ticks),
        run_outs(ticks) >= left ==> emitter_run(left, ticks).1 == left,
        run_outs(ticks) < left ==> emitter_run(left, ticks).1 == run_outs(ticks),
    decreases ticks.len(),
{
    if ticks.len() > 0 {
        emitter_fires_every_burst(left, ticks.drop_last());
    }
}

/// An effect spawned with `burst_count` bursts fires all of them, the first
/// at once, once its timer has run out `burst_count - 1` times.
pub proof fn effect_fires_its_bursts(burst_count: u32, ticks: Seq<bool>)
    requires
        burst_count >= 1,
        run_outs(ticks) >= burst_count - 1,
    ensures
        1 + emitter_run((burst_count - 1) as u32, ticks).1 == burst_count,
        emitter_run((burst_count - 1) as u32, ticks).0 == 0,
{
    emitter_fires_every_burst((burst_count - 1) as u32, ticks);
}

impl VfxContinuousEmitter {
    /// One frame: when the timer has run out and bursts are left, burst
    /// and count it; an emitter with no bursts left goes away.
    pub fn tick(&mut self, timer_finished: bool) -> (r: EmitterStep)
        ensures
            r.burst == (timer_finished && old(self).count_left > 0),
            final(self).count_left == if r.burst { old(self).count_left - 1 } else { old(self).count_left as int },
            final(self).count_per_burst == old(self).count_per_burst,
            final(self).burst_rate_millis == old(self).burst_rate_millis,
            (final(self).count_left, r.burst) == ((emitter_run(old(self).count_left, seq![timer_finished]).0,
                emitter_run(old(self).count_left, seq![timer_finished]).1 == 1)),
            r.despawn == (final(self).count_left == 0),
    {
        let ghost start = self.count_left;
        let mut burst = false;
        if timer_finished && self.count_left > 0 {
            burst = true;
            self.count_left = self.count_left.saturating_sub(1);
        }
        proof {
            let t = seq![timer_finished];
            assert(t.drop_last() =~= Seq::<bool>::empty());
            assert(t.last() == timer_finished);
            assert(emitter_run(start, Seq::<bool>::empty()) == (start, 0nat));
            assert(emitter_run(start, t) == if timer_finished && start > 0 {
                ((start - 1) as u32, 1nat)
            } else {
                (start, 0nat)
            });
        }
        EmitterStep { burst, despawn: self.count_left == 0 }
    }
}

/// The end of the run of keys from `i` on whose times are at most
/// `percent`.
pub open spec fn run_end(percents: Seq<i32>, percent: i32, i: int) -> int
    decreases percents.len() - i,
{
    if i < 0 || i >= percents.len() || percents[i] > percent {
        i
    } else {
        run_end(percents, percent, i + 1)
    }
}

/// The key of a colour curve that applies at `percent` of a particle's
/// life: the last of the leading keys whose time has come, or the first key
/// when none has; and the key after it, to blend towards, unless it is the
/// last key.
pub fn color_keys(percents: &Vec<i32>, percent: i32) -> (r: (usize, Option<usize>))
    requires
        percents@.len() > 0,
    ensures
        r.0 == if run_end(percents@, percent, 0) > 0 { run_end(percents@, percent, 0) - 1 } else { 0 },
        r.1 == if r.0 + 1 < percents@.len() { Some((r.0 + 1) as usize) } else { None::<usize> },
{
    let mut i: usize = 0;
    while i < percents.len()
        invariant
            i <= percents@.len(),
            run_end(percents@, percent, 0) == run_end(percents@, percent, i as int),
        ensures
            i <= percents@.len(),
            run_end(percents@, percent, 0) == i,
        decreases percents@.len() - i,
    {
        if percents[i] > percent {
            break;
        }
        i = i + 1;
    }
    let index = if i > 0 { i - 1 } else { 0 };
    let next = if index + 1 < percents.len() { Some(index + 1) } else { None };
    (index, next)
}

/// Which keys of a scale curve apply at `percent` of a particle's life.
#[derive(Clone, Copy, PartialEq, Eq, Structural, Debug)]
pub enum ScaleKeys {
    /// The curve has no keys: the scale stays.
    Keep,
    /// The scale of this key, as it stands.
    At(usize),
    /// A blend from the first key towards the second.
    Blend(usize, usize),
}

/// The first key from `i` on whose time has come while the next key's has
/// not.
pub open spec fn first_rise(percents: Seq<i32>, percent: i32, i: int) -> Option<int>
    decreases percents.len() - i,
{
    if i < 0 || i + 1 >= percents.len() {
        None
    } else if percents[i] <= percent && percents[i + 1] > percent {
        Some(i)
    } else {
        first_rise(percents, percent, i + 1)
    }
}

/// The last key before `k` whose time has come, or -1.
pub open spec fn last_reached(percents: Seq<i32>, percent: i32, k: int) -> int
    decreases k,
{
    if k <= 0 || k > percents.len() {
        -1
    } else if percents[k - 1] <= percent {
        k - 1
    } else {
        last_reached(percents, percent, k - 1)
    }
}

/// The last key reached before `k` lies before `k`.
proof fn lemma_last_reached_below(percents: Seq<i32>, percent: i32, k: int)
    ensures
        -1 <= last_reached(percents, percent, k) < if k > 0 { k } else { 0 },
    decreases k,
{
    if k > 0 && k <= percents.len() {
        lemma_last_reached_below(percents, percent, k - 1);
    }
}

/// The keys of a scale curve that apply at `percent`.
pub open spec fn scale_keys_at(percents: Seq<i32>, percent: i32) -> ScaleKeys {
    let n = percents.len();
    if n == 0 {
        ScaleKeys::Keep
    } else if n == 1 {
        ScaleKeys::At(0)
    } else {
        let (prev, next) = match first_rise(percents, percent, 0) {
            Some(i) => (i, i + 1),
            None => (if last_reached(percents, percent, n as int) >= 0 {
                last_reached(percents, percent, n as int)
            } else {
                0
            }, 0),
        };
        if percents[prev] > percent {
            ScaleKeys::At(0)
        } else if percents[prev] == percents[n - 1] {
            ScaleKeys::At(prev as usize)
        } else {
            ScaleKeys::Blend(prev as usize, next as usize)
        }
    }
}

/// The keys of a scale curve that apply at `percent`: the only key; the
/// first key before its time; the last key reached when it has the last
/// key's time; else the last key reached, blended towards the key after it
/// where that key's time lies ahead.
pub fn scale_keys(percents: &Vec<i32>, percent: i32) -> (r: ScaleKeys)
    ensures
        r == scale_keys_at(percents@, percent),
{
    let n = percents.len();
    if n == 0 {
        return ScaleKeys::Keep;
    }
    if n == 1 {
        return ScaleKeys::At(0);
    }
    let mut prev: usize = 0;
    let mut next: usize = 0;
    let mut i: usize = 0;
    while i < n
        invariant_except_break
            n == percents@.len(),
            n > 1,
            i <= n,
            prev < n,
            next == 0,
            first_rise(percents@, percent, 0) == first_rise(percents@, percent, i as int),
            prev == if last_reached(percents@, percent, i as int) >= 0 {
                last_reached(percents@, percent, i as int)
            } else {
                0
            },
        ensures
            n == percents@.len(),
            n > 1,
            prev < n,
            match first_rise(percents@, percent, 0) {
                Some(k) => prev == k && next == k + 1,
                None => next == 0 && prev == if last_reached(percents@, percent, n as int) >= 0 {
                    last_reached(percents@, percent, n as int)
                } else {
                    0
                },
            },
        decreases n - i,
    {
        proof {
            lemma_last_reached_below(percents@, percent, i as int);
        }
        if percents[i] <= percent {
            prev = i;
        }
        if i < n - 1 && percents[i] <= percent && percents[i + 1] > percent {
            next = i + 1;
            break;
        }
        i = i + 1;
    }
    if percents[prev] > percent {
        return ScaleKeys::At(0);
    }
    if percents[prev] == percents[n - 1] {
        return ScaleKeys::At(prev);
    }
    ScaleKeys::Blend(prev, next)
}

/// A uniformly random `i32` in `min..max`, from the thread's generator.
#[verifier::external_body]
fn random_i32_in(min: i32, max: i32) -> (r: i32)
    requires
        min < max,
    ensures
        min <= r < max,
{
    rand::Rng::gen_range(&mut rand::thread_rng(), min..max)
}

/// A random `i32` in `min..max`, or `min` where the range is empty.
pub fn random_i32(min: i32, max: i32) -> (r: i32)
    ensures
        min >= max ==> r == min,
        min < max ==> min <= r < max,
{
    if min >= max {
        return min;
    }
    random_i32_in(min, max)
}

} // verus!
