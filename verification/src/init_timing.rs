//! Timing of the terrain's initialization stages, in milliseconds of a
//! monotonic clock that the caller reads.
use vstd::prelude::*;

verus! {

/// The stages of terrain initialization.
#[derive(Clone, Copy, Debug, PartialEq, Eq, Structural)]
pub enum TerrainInitializationState {
    Uninitialized,
    ConfigLoaded,
    BiomeInitialized,
    ChunkManagerInitialized,
    Ready,
    Error,
}

/// When each stage was reached.
#[derive(Clone, Copy, Debug)]
pub struct TerrainInitializationTiming {
    pub start_time: u64,
    pub config_loaded_time: Option<u64>,
    pub biome_initialized_time: Option<u64>,
    pub chunk_manager_initialized_time: Option<u64>,
    pub ready_time: Option<u64>,
    pub current_state: TerrainInitializationState,
}

/// How long each stage took, and its share of the whole in percent
/// (rounded down).
#[derive(Clone, Copy, Debug, PartialEq, Eq, Structural)]
pub struct StageBreakdown {
    pub config_ms: u64,
    pub config_pct: u64,
    pub biome_ms: u64,
    pub biome_pct: u64,
    pub chunk_ms: u64,
    pub chunk_pct: u64,
    pub final_ms: u64,
    pub final_pct: u64,
}

/// What reaching a stage reports.
#[derive(Clone, Copy, Debug, PartialEq, Eq, Structural)]
pub enum TimingReport {
    Nothing,
    /// Milliseconds since the start.
    ConfigLoaded(u64),
    /// Milliseconds since the configuration was loaded (or the start).
    BiomeInitialized(u64),
    /// Milliseconds since the biomes were initialized (or the start).
    ChunkManagerInitialized(u64),
    /// Milliseconds since the start, with a breakdown when every earlier
    /// stage was reached.
    Ready(u64, Option<StageBreakdown>),
    /// Milliseconds since the start.
    Error(u64),
}

/// The milliseconds from `a` to `b`, or 0 when `b` is earlier.
pub open spec fn elapsed(a: u64, b: u64) -> u64 {
    if b >= a {
        (b - a) as u64
    } else {
        0
    }
}

fn elapsed_exec(a: u64, b: u64) -> (d: u64)
    ensures
        d == elapsed(a, b),
{
    if b >= a {
        b - a
    } else {
        0
    }
}

/// `part` as a share of `total`, in percent rounded down.
pub open spec fn percent(part: u64, total: u64) -> int {
    (part as int * 100) / (total as int)
}

fn percent_exec(part: u64, total: u64) -> (p: u64)
    requires
        total > 0,
        part <= total,
    ensures
        p == percent(part, total),
        p <= 100,
{
    let p = (part as u128 * 100) / (total as u128);
    assert(p <= 100) by (nonlinear_arith)
        requires
            p == (part as int * 100) / (total as int),
            part <= total,
            total > 0,
    ;
    p as u64
}

/// The breakdown of a start at `s`, stages at `c`, `b`, `k`, and ready at
/// `now`.
pub open spec fn breakdown_of(s: u64, c: u64, b: u64, k: u64, now: u64) -> StageBreakdown {
    let total = elapsed(s, now);
    StageBreakdown {
        config_ms: elapsed(s, c),
        config_pct: percent(elapsed(s, c), total) as u64,
        biome_ms: elapsed(c, b),
        biome_pct: percent(elapsed(c, b), total) as u64,
        chunk_ms: elapsed(b, k),
        chunk_pct: percent(elapsed(b, k), total) as u64,
        final_ms: elapsed(k, now),
        final_pct: percent(elapsed(k, now), total) as u64,
    }
}

/// When the stages were reached in order, the four stages add up to the
/// whole time, and their shares to at most 100 percent.
pub proof fn lemma_breakdown_adds_up(s: u64, c: u64, b: u64, k: u64, now: u64)
    requires
        s <= c <= b <= k <= now,
        s < now,
    ensures
        ({
            let d = breakdown_of(s, c, b, k, now);
            &&& d.config_ms + d.biome_ms + d.chunk_ms + d.final_ms == elapsed(s, now)
            &&& d.config_pct + d.biome_pct + d.chunk_pct + d.final_pct <= 100
        }),
{
    let t = elapsed(s, now) as int;
    let x1 = elapsed(s, c) as int;
    let x2 = elapsed(c, b) as int;
    let x3 = elapsed(b, k) as int;
    let x4 = elapsed(k, now) as int;
    assert(x1 + x2 + x3 + x4 == t);
    lemma_floor_share(x1, t);
    lemma_floor_share(x2, t);
    lemma_floor_share(x3, t);
    lemma_floor_share(x4, t);
    let q1 = (x1 * 100) / t;
    let q2 = (x2 * 100) / t;
    let q3 = (x3 * 100) / t;
    let q4 = (x4 * 100) / t;
    assert((q1 + q2 + q3 + q4) * t <= 100 * t) by (nonlinear_arith)
        requires
            q1 * t <= x1 * 100,
            q2 * t <= x2 * 100,
            q3 * t <= x3 * 100,
            q4 * t <= x4 * 100,
            x1 + x2 + x3 + x4 == t,
    ;
    assert(q1 + q2 + q3 + q4 <= 100) by (nonlinear_arith)
        requires
            (q1 + q2 + q3 + q4) * t <= 100 * t,
            t > 0,
    ;
}

proof fn lemma_floor_share(x: int, t: int)
    requires
        0 <= x <= t,
        t > 0,
    ensures
        ((x * 100) / t) * t <= x * 100,
        0 <= (x * 100) / t <= 100,
{
    vstd::arithmetic::div_mod::lemma_fundamental_div_mod(x * 100, t);
    assert(0 <= (x * 100) / t <= 100) by (nonlinear_arith)
        requires
            0 <= x <= t,
            t > 0,
    ;
}

/// When every earlier stage was reached, each was reached between the
/// start and `now`, and `now` lies after the start (the clock is monotonic;
/// a breakdown over no time at all has no percentages).
pub open spec fn stamps_within(t: TerrainInitializationTiming, now: u64) -> bool {
    match (t.config_loaded_time, t.biome_initialized_time, t.chunk_manager_initialized_time) {
        (Some(c), Some(b), Some(k)) => {
            &&& t.start_time <= c <= now
            &&& t.start_time <= b <= now
            &&& t.start_time <= k <= now
            &&& t.start_time < now
        },
        _ => true,
    }
}

/// What reaching `state` at `now` reports, given the times so far.
pub open spec fn report_of(t: TerrainInitializationTiming, state: TerrainInitializationState, now: u64) -> TimingReport {
    match state {
        TerrainInitializationState::ConfigLoaded => TimingReport::ConfigLoaded(elapsed(t.start_time, now)),
        TerrainInitializationState::BiomeInitialized => TimingReport::BiomeInitialized(elapsed(
            match t.config_loaded_time { Some(c) => c, None => t.start_time },
            now,
        )),
        TerrainInitializationState::ChunkManagerInitialized => TimingReport::ChunkManagerInitialized(elapsed(
            match t.biome_initialized_time { Some(b) => b, None => t.start_time },
            now,
        )),
        TerrainInitializationState::Ready => TimingReport::Ready(
            elapsed(t.start_time, now),
            match (t.config_loaded_time, t.biome_initialized_time, t.chunk_manager_initialized_time) {
                (Some(c), Some(b), Some(k)) => Some(breakdown_of(t.start_time, c, b, k, now)),
                _ => None,
            },
        ),
        TerrainInitializationState::Error => TimingReport::Error(elapsed(t.start_time, now)),
        _ => TimingReport::Nothing,
    }
}

impl TerrainInitializationTiming {
    /// Timing that starts at `now_ms`, with no stage reached.
    pub fn new(now_ms: u64) -> (t: Self)
        ensures
            t.start_time == now_ms,
            t.config_loaded_time is None,
            t.biome_initialized_time is None,
            t.chunk_manager_initialized_time is None,
            t.ready_time is None,
            t.current_state == TerrainInitializationState::Uninitialized,
    {
        TerrainInitializationTiming {
            start_time: now_ms,
            config_loaded_time: None,
            biome_initialized_time: None,
            chunk_manager_initialized_time: None,
            ready_time: None,
            current_state: TerrainInitializationState::Uninitialized,
        }
    }

    /// Records that `state` was reached at `now_ms` and reports how long it
    /// took. Reaching Ready after every earlier stage also reports each
    /// stage's share of the whole.
    pub fn update_state(&mut self, state: TerrainInitializationState, now_ms: u64) -> (r: TimingReport)
        requires
            state == TerrainInitializationState::Ready ==> stamps_within(*old(self), now_ms),
        ensures
            r == report_of(*old(self), state, now_ms),
            final(self).current_state == state,
            final(self).start_time == old(self).start_time,
            final(self).config_loaded_time == (if state == TerrainInitializationState::ConfigLoaded {
                Some(now_ms)
            } else {
                old(self).config_loaded_time
            }),
            final(self).biome_initialized_time == (if state == TerrainInitializationState::BiomeInitialized {
                Some(now_ms)
            } else {
                old(self).biome_initialized_time
            }),
            final(self).chunk_manager_initialized_time == (if state == TerrainInitializationState::ChunkManagerInitialized {
                Some(now_ms)
            } else {
                old(self).chunk_manager_initialized_time
            }),
            final(self).ready_time == (if state == TerrainInitializationState::Ready {
                Some(now_ms)
            } else {
                old(self).ready_time
            }),
    {
        self.current_state = state;
        match state {
            TerrainInitializationState::ConfigLoaded => {
                self.config_loaded_time = Some(now_ms);
                TimingReport::ConfigLoaded(elapsed_exec(self.start_time, now_ms))
            },
            TerrainInitializationState::BiomeInitialized => {
                self.biome_initialized_time = Some(now_ms);
                let since = match self.config_loaded_time {
                    Some(c) => c,
                    None => self.start_time,
                };
                TimingReport::BiomeInitialized(elapsed_exec(since, now_ms))
            },
            TerrainInitializationState::ChunkManagerInitialized => {
                self.chunk_manager_initialized_time = Some(now_ms);
                let since = match self.biome_initialized_time {
                    Some(b) => b,
                    None => self.start_time,
                };
                TimingReport::ChunkManagerInitialized(elapsed_exec(since, now_ms))
            },
            TerrainInitializationState::Ready => {
                self.ready_time = Some(now_ms);
                let total = elapsed_exec(self.start_time, now_ms);
                let breakdown = match (self.config_loaded_time, self.biome_initialized_time, self.chunk_manager_initialized_time) {
                    (Some(c), Some(b), Some(k)) => {
                        let config_ms = elapsed_exec(self.start_time, c);
                        let biome_ms = elapsed_exec(c, b);
                        let chunk_ms = elapsed_exec(b, k);
                        let final_ms = elapsed_exec(k, now_ms);
                        Some(StageBreakdown {
                            config_ms,
                            config_pct: percent_exec(config_ms, total),
                            biome_ms,
                            biome_pct: percent_exec(biome_ms, total),
                            chunk_ms,
                            chunk_pct: percent_exec(chunk_ms, total),
                            final_ms,
                            final_pct: percent_exec(final_ms, total),
                        })
                    },
                    _ => None,
                };
                TimingReport::Ready(total, breakdown)
            },
            TerrainInitializationState::Error => TimingReport::Error(elapsed_exec(self.start_time, now_ms)),
            _ => TimingReport::Nothing,
        }
    }
}

} // verus!
