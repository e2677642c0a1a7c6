//! The tracker: a search for a period that repeats one period further
//! back, then step-by-step refinement of that period until an onset.
use vstd::prelude::*;

use crate::config::{Config, ConfigError};
use crate::correlation::{
    autocorrelation, autocorrelation_sum, energy, energy_sum, lemma_energy_bounds,
    product_bound, squared_difference, squared_difference_sum,
};
use crate::history::{lemma_push_shifts, History, HistoryView, HISTORY_SIZE};

verus! {

/// What the tracker is doing.
#[derive(Clone, Copy, Debug, PartialEq, Eq, Structural)]
pub enum Mode {
    Search,
    Track,
}

/// The state each mode keeps.
#[derive(Clone, Copy, Debug, PartialEq, Eq, Structural)]
pub enum Phase {
    /// Seeking a period; the best correlation seen so far in the scan.
    Search { best_correlation: i64 },
    /// Refining a confirmed period `anchor`, with a running average of the
    /// energy of one period. The average starts at the energy of the period
    /// that was confirmed.
    Track { anchor: usize, energy_average: u64 },
}

/// A snapshot of the tracker's estimate.
#[derive(Clone, Copy, Debug, PartialEq, Eq, Structural)]
pub struct Estimate {
    pub mode: Mode,
    /// The period, in samples.
    pub period_samples: usize,
    /// `sample_rate / period`, in thousandths of a hertz, rounded down.
    pub frequency_millihertz: u64,
}

/// Absolute value.
pub open spec fn abs(x: int) -> int {
    if x < 0 {
        -x
    } else {
        x
    }
}

/// `x` moved into `[lo, hi]`.
pub open spec fn clamp(x: int, lo: int, hi: int) -> int {
    if x < lo {
        lo
    } else if x > hi {
        hi
    } else {
        x
    }
}

/// The correlation `acc2` one period further back agrees with `acc` within
/// the relative tolerance.
pub open spec fn confirms(c: Config, acc: int, acc2: int) -> bool {
    abs(acc2 - acc) * c.tolerance_den < c.tolerance_num * acc
}

/// The state a search leaves, scanning from `delay` with `best` as the best
/// correlation so far.
pub open spec fn search_spec(c: Config, h: HistoryView, delay: int, best: int) -> (int, Phase)
    decreases c.max_delay - delay,
{
    let acc = autocorrelation_sum(h, delay, 0, delay);
    let acc2 = autocorrelation_sum(h, delay, delay, delay);
    if acc > best && confirms(c, acc, acc2) {
        (delay, Phase::Track { anchor: delay as usize, energy_average: energy_sum(h, delay) as u64 })
    } else if delay < c.max_delay {
        search_spec(c, h, delay + 1, if acc > best { acc } else { best })
    } else {
        (c.initial_delay_spec(), Phase::Search { best_correlation: 0 })
    }
}

/// The period after one descent step from `delay`, before clamping.
pub open spec fn step_spec(h: HistoryView, delay: int) -> int {
    let mid = squared_difference_sum(h, delay, delay);
    let low = squared_difference_sum(h, delay - 1, delay);
    let high = squared_difference_sum(h, delay + 1, delay);
    if mid <= low && mid <= high {
        delay
    } else if low < mid {
        delay - 1
    } else if high < mid {
        delay + 1
    } else {
        delay
    }
}

/// The state one tracking update leaves: back to search on an onset, else
/// one descent step clamped to the band around `anchor`, with the energy
/// average moved halfway toward the newest period's energy.
pub open spec fn track_spec(c: Config, h: HistoryView, delay: int, anchor: int, average: int) -> (
    int,
    Phase,
) {
    let e = energy_sum(h, delay);
    if e > c.onset_factor * average {
        (c.initial_delay_spec(), Phase::Search { best_correlation: 0 })
    } else {
        (
            clamp(step_spec(h, delay), c.band_low(anchor), c.band_high(anchor)),
            Phase::Track { anchor: anchor as usize, energy_average: ((average + e) / 2) as u64 },
        )
    }
}

/// Everything a tracker holds.
pub struct TrackerView {
    pub config: Config,
    pub history: HistoryView,
    pub delay: int,
    pub phase: Phase,
}

impl TrackerView {
    pub open spec fn wf(self) -> bool {
        &&& self.config.valid()
        &&& self.history.wf()
        &&& match self.phase {
            Phase::Search { .. } => self.config.initial_delay_spec() <= self.delay
                <= self.config.max_delay,
            Phase::Track { anchor, energy_average } => {
                &&& self.config.initial_delay_spec() <= anchor <= self.config.max_delay
                &&& self.config.band_low(anchor as int) <= self.delay <= self.config.band_high(
                    anchor as int,
                )
                &&& energy_average <= HISTORY_SIZE * product_bound()
            },
        }
    }

    /// One run of the engine of the current mode on the history as it is.
    pub open spec fn step(self) -> TrackerView {
        let r = match self.phase {
            Phase::Search { best_correlation } => search_spec(
                self.config,
                self.history,
                self.delay,
                best_correlation as int,
            ),
            Phase::Track { anchor, energy_average } => track_spec(
                self.config,
                self.history,
                self.delay,
                anchor as int,
                energy_average as int,
            ),
        };
        TrackerView { config: self.config, history: self.history, delay: r.0, phase: r.1 }
    }

    pub open spec fn with_history(self, h: HistoryView) -> TrackerView {
        TrackerView { config: self.config, history: h, delay: self.delay, phase: self.phase }
    }

    /// The state after one sample: it is pushed, then the engine runs.
    pub open spec fn next(self, s: i16) -> TrackerView {
        self.with_history(self.history.push(s)).step()
    }

    /// The state after a block: each sample is pushed, then the engine
    /// runs once.
    pub open spec fn next_block(self, ss: Seq<i16>) -> TrackerView {
        self.with_history(self.history.push_all(ss)).step()
    }

    pub open spec fn mode(self) -> Mode {
        match self.phase {
            Phase::Search { .. } => Mode::Search,
            Phase::Track { .. } => Mode::Track,
        }
    }

    pub open spec fn estimate(self) -> Estimate {
        Estimate {
            mode: self.mode(),
            period_samples: self.delay as usize,
            frequency_millihertz: (self.config.sample_rate * 1000 / self.delay) as u64,
        }
    }
}

/// The band around a period contains it, and grows with it.
proof fn lemma_band(c: Config, a: int, b: int)
    requires
        c.clamp_den > 0,
        c.clamp_low_num <= c.clamp_den <= c.clamp_high_num,
        0 <= a <= b,
    ensures
        c.band_low(a) <= a <= c.band_high(a),
        c.band_low(a) <= c.band_low(b),
        c.band_high(a) <= c.band_high(b),
{
    let d = c.clamp_den as int;
    let lo = c.clamp_low_num as int;
    let hi = c.clamp_high_num as int;
    assert(a * lo / d <= a) by (nonlinear_arith)
        requires
            d > 0,
            0 <= lo <= d,
            0 <= a,
    ;
    assert(a <= (a * hi + d - 1) / d) by (nonlinear_arith)
        requires
            d > 0,
            d <= hi,
            0 <= a,
    ;
    assert(a * lo / d <= b * lo / d) by (nonlinear_arith)
        requires
            d > 0,
            0 <= lo,
            0 <= a <= b,
    ;
    assert((a * hi + d - 1) / d <= (b * hi + d - 1) / d) by (nonlinear_arith)
        requires
            d > 0,
            0 <= hi,
            0 <= a <= b,
    ;
}

/// A valid configuration gives a first guess of at least one sample and
/// leaves room in the history for every lookback.
proof fn lemma_valid_config(c: Config, a: int)
    requires
        c.valid(),
        c.initial_delay_spec() <= a <= c.max_delay,
    ensures
        1 <= c.band_low(a),
        1 <= c.initial_delay_spec(),
        2 * c.band_high(a) < HISTORY_SIZE,
        c.band_low(a) <= a <= c.band_high(a),
{
    lemma_band(c, c.initial_delay_spec(), a);
    lemma_band(c, a, c.max_delay as int);
}

fn confirmed(c: &Config, acc: i64, acc2: i64) -> (r: bool)
    requires
        -0x200_0000_0000 <= acc <= 0x200_0000_0000,
        -0x200_0000_0000 <= acc2 <= 0x200_0000_0000,
    ensures
        r == confirms(*c, acc as int, acc2 as int),
{
    let d = acc2 as i128 - acc as i128;
    let a = if d < 0 {
        -d
    } else {
        d
    };
    proof {
        assert(a * c.tolerance_den <= 0x400_0000_0000 * 0x1_0000_0000) by (nonlinear_arith)
            requires
                0 <= a <= 0x400_0000_0000,
                0 <= c.tolerance_den < 0x1_0000_0000,
        ;
        assert(-0x200_0000_0000 * 0x1_0000_0000 <= c.tolerance_num * acc <= 0x200_0000_0000
            * 0x1_0000_0000) by (nonlinear_arith)
            requires
                -0x200_0000_0000 <= acc <= 0x200_0000_0000,
                0 <= c.tolerance_num < 0x1_0000_0000,
        ;
    }
    a * (c.tolerance_den as i128) < (c.tolerance_num as i128) * (acc as i128)
}

/// Scans periods from `start` up to the largest, stopping at the first
/// one whose correlation is a new best and agrees with the correlation one
/// period further back.
fn search(c: &Config, h: &History, start: usize, best0: i64) -> (r: (usize, Phase))
    requires
        c.valid(),
        h.wf(),
        c.initial_delay_spec() <= start <= c.max_delay,
    ensures
        (r.0 as int, r.1) == search_spec(*c, h@, start as int, best0 as int),
{
    let mut delay = start;
    let mut best = best0;
    loop
        invariant
            c.valid(),
            h.wf(),
            c.initial_delay_spec() <= delay <= c.max_delay,
            search_spec(*c, h@, delay as int, best as int) == search_spec(
                *c,
                h@,
                start as int,
                best0 as int,
            ),
        decreases c.max_delay - delay,
    {
        let acc = autocorrelation(h, delay, 0);
        if acc > best {
            let acc2 = autocorrelation(h, delay, delay);
            if confirmed(c, acc, acc2) {
                proof {
                    lemma_energy_bounds(h@, delay as int);
                }
                return (delay, Phase::Track { anchor: delay, energy_average: energy(h, delay) });
            }
            best = acc;
        }
        if delay < c.max_delay {
            delay = delay + 1;
        } else {
            return (c.initial_delay() as usize, Phase::Search { best_correlation: 0 });
        }
    }
}

/// One refinement step around the confirmed period `anchor`, or a return
/// to search when the newest period is much louder than the average.
fn track(c: &Config, h: &History, delay: usize, anchor: usize, average: u64) -> (r: (
    usize,
    Phase,
))
    requires
        c.valid(),
        h.wf(),
        c.initial_delay_spec() <= anchor <= c.max_delay,
        c.band_low(anchor as int) <= delay <= c.band_high(anchor as int),
        average <= HISTORY_SIZE * product_bound(),
    ensures
        (r.0 as int, r.1) == track_spec(*c, h@, delay as int, anchor as int, average as int),
{
    proof {
        lemma_valid_config(*c, anchor as int);
    }
    let e = energy(h, delay);
    proof {
        lemma_energy_bounds(h@, delay as int);
        assert(c.onset_factor * average <= 0x1_0000_0000 * 0x800_0000_0000) by (nonlinear_arith)
            requires
                0 <= c.onset_factor < 0x1_0000_0000,
                0 <= average <= 0x800_0000_0000,
        ;
        assert(delay as int * product_bound() <= HISTORY_SIZE * product_bound()) by (
        nonlinear_arith)
            requires
                delay <= HISTORY_SIZE,
                product_bound() > 0,
        ;
    }
    if e as u128 > c.onset_factor as u128 * average as u128 {
        return (c.initial_delay() as usize, Phase::Search { best_correlation: 0 });
    }
    let mid = squared_difference(h, delay, delay);
    let low = squared_difference(h, delay, delay - 1);
    let high = squared_difference(h, delay, delay + 1);
    let stepped = if mid <= low && mid <= high {
        delay
    } else if low < mid {
        delay - 1
    } else if high < mid {
        delay + 1
    } else {
        delay
    };
    let lo = c.low_bound(anchor);
    let hi = c.high_bound(anchor) as usize;
    let next = if stepped < lo {
        lo
    } else if stepped > hi {
        hi
    } else {
        stepped
    };
    (next, Phase::Track { anchor, energy_average: (average + e) / 2 })
}

/// A pitch tracker over a stream of samples at a fixed rate.
pub struct Tracker {
    config: Config,
    history: History,
    delay: usize,
    phase: Phase,
}

impl View for Tracker {
    type V = TrackerView;

    closed spec fn view(&self) -> TrackerView {
        TrackerView {
            config: self.config,
            history: self.history@,
            delay: self.delay as int,
            phase: self.phase,
        }
    }
}

impl Tracker {
    pub open spec fn wf(&self) -> bool {
        self@.wf()
    }

    /// A tracker in search at the first guess, over a silent history; or
    /// the first rule that `config` breaks.
    pub fn new(config: Config) -> (r: Result<Tracker, ConfigError>)
        ensures
            r is Ok <==> config.valid(),
            r matches Err(e) ==> config.error_spec() == Some(e),
            r matches Ok(t) ==> {
                &&& t.wf()
                &&& t@.config == config
                &&& t@.delay == config.initial_delay_spec()
                &&& t@.phase == Phase::Search { best_correlation: 0 }
                &&& t@.history.cursor == 0
                &&& forall|k: int| 0 <= k < HISTORY_SIZE ==> #[trigger] t@.history.samples[k] == 0
            },
    {
        match config.validate() {
            Err(e) => Err(e),
            Ok(()) => {
                let delay = config.initial_delay() as usize;
                Ok(
                    Tracker {
                        config,
                        history: History::new(),
                        delay,
                        phase: Phase::Search { best_correlation: 0 },
                    },
                )
            },
        }
    }

    /// A tracker with the standard settings and a first guess of
    /// `initial_frequency` hertz.
    pub fn initialize(sample_rate: u32, initial_frequency: u32) -> (r: Result<
        Tracker,
        ConfigError,
    >)
        ensures
            ({
                let c = Config {
                    sample_rate,
                    initial_frequency,
                    max_delay: 600,
                    tolerance_num: 1,
                    tolerance_den: 400,
                    clamp_low_num: 4,
                    clamp_high_num: 6,
                    clamp_den: 5,
                    onset_factor: 4,
                };
                &&& r is Ok <==> c.valid()
                &&& r matches Err(e) ==> c.error_spec() == Some(e)
                &&& r matches Ok(t) ==> {
                    &&& t.wf()
                    &&& t@.config == c
                    &&& t@.delay == c.initial_delay_spec()
                    &&& t@.phase == Phase::Search { best_correlation: 0 }
                    &&& t@.history.cursor == 0
                    &&& forall|k: int|
                        0 <= k < HISTORY_SIZE ==> #[trigger] t@.history.samples[k] == 0
                }
            }),
    {
        let mut config = Config::standard(sample_rate);
        config.initial_frequency = initial_frequency;
        Tracker::new(config)
    }

    /// Takes in one sample: it becomes the newest in the history, then the
    /// engine of the current mode runs on the history.
    pub fn ingest(&mut self, sample: i16)
        requires
            old(self).wf(),
        ensures
            final(self).wf(),
            final(self)@ == old(self)@.next(sample),
    {
        proof {
            lemma_push_shifts(self.history@, sample);
        }
        self.history.push(sample);
        self.run_engine();
    }

    /// Takes in a block of samples: each becomes the newest in the history
    /// in turn, then the engine of the current mode runs once.
    pub fn ingest_block(&mut self, samples: &[i16])
        requires
            old(self).wf(),
        ensures
            final(self).wf(),
            final(self)@ == old(self)@.next_block(samples@),
    {
        let mut i: usize = 0;
        while i < samples.len()
            invariant
                self.wf(),
                i <= samples@.len(),
                self@ == old(self)@.with_history(old(self)@.history.push_all(samples@.take(i as int))),
            decreases samples@.len() - i,
        {
            proof {
                lemma_push_shifts(self.history@, samples@[i as int]);
                assert(samples@.take(i + 1).drop_last() =~= samples@.take(i as int));
            }
            self.history.push(samples[i]);
            i = i + 1;
        }
        proof {
            assert(samples@.take(samples@.len() as int) =~= samples@);
        }
        self.run_engine();
    }

    /// Runs the engine of the current mode once on the history.
    fn run_engine(&mut self)
        requires
            old(self).wf(),
        ensures
            final(self).wf(),
            final(self)@ == old(self)@.step(),
    {
        let r = match self.phase {
            Phase::Search { best_correlation } => search(
                &self.config,
                &self.history,
                self.delay,
                best_correlation,
            ),
            Phase::Track { anchor, energy_average } => track(
                &self.config,
                &self.history,
                self.delay,
                anchor,
                energy_average,
            ),
        };
        self.delay = r.0;
        self.phase = r.1;
        proof {
            lemma_step_wf(old(self)@);
        }
    }

    /// The mode, the period and the frequency it gives.
    pub fn estimate(&self) -> (r: Estimate)
        requires
            self.wf(),
        ensures
            r == self@.estimate(),
    {
        proof {
            lemma_valid_config(self.config, self.config.initial_delay_spec());
            if let Phase::Track { anchor, .. } = self.phase {
                lemma_valid_config(self.config, anchor as int);
            }
        }
        let mode = match self.phase {
            Phase::Search { .. } => Mode::Search,
            Phase::Track { .. } => Mode::Track,
        };
        Estimate {
            mode,
            period_samples: self.delay,
            frequency_millihertz: self.config.sample_rate as u64 * 1000 / self.delay as u64,
        }
    }

    /// The settings the tracker was made with.
    pub fn config(&self) -> (r: Config)
        ensures
            r == self@.config,
    {
        self.config
    }
}

/// Every state a search can leave is either a confirmed period being
/// tracked, or the first guess with no best correlation.
proof fn lemma_search_outcome(c: Config, h: HistoryView, delay: int, best: int)
    requires
        c.valid(),
        h.wf(),
        c.initial_delay_spec() <= delay <= c.max_delay,
    ensures
        ({
            let r = search_spec(c, h, delay, best);
            match r.1 {
                Phase::Search { best_correlation } => r.0 == c.initial_delay_spec()
                    && best_correlation == 0,
                Phase::Track { anchor, energy_average } => {
                    &&& r.0 == anchor
                    &&& delay <= anchor <= c.max_delay
                    &&& energy_average == energy_sum(h, anchor as int)
                    &&& confirms(
                        c,
                        autocorrelation_sum(h, anchor as int, 0, anchor as int),
                        autocorrelation_sum(h, anchor as int, anchor as int, anchor as int),
                    )
                },
            }
        }),
    decreases c.max_delay - delay,
{
    lemma_valid_config(c, delay);
    lemma_energy_bounds(h, delay);
    let acc = autocorrelation_sum(h, delay, 0, delay);
    if delay < c.max_delay {
        lemma_search_outcome(c, h, delay + 1, if acc > best { acc } else { best });
    }
}

/// A run of the engine keeps the tracker's state well formed.
proof fn lemma_step_wf(v: TrackerView)
    requires
        v.wf(),
    ensures
        v.step().wf(),
{
    let h = v.history;
    match v.phase {
        Phase::Search { best_correlation } => {
            lemma_search_outcome(v.config, h, v.delay, best_correlation as int);
            let r = search_spec(v.config, h, v.delay, best_correlation as int);
            if let Phase::Track { anchor, .. } = r.1 {
                lemma_valid_config(v.config, anchor as int);
                lemma_energy_bounds(h, anchor as int);
                assert(anchor as int * product_bound() <= HISTORY_SIZE * product_bound()) by (
                nonlinear_arith)
                    requires
                        anchor <= HISTORY_SIZE,
                        product_bound() > 0,
                ;
            }
        },
        Phase::Track { anchor, energy_average } => {
            lemma_valid_config(v.config, anchor as int);
            lemma_energy_bounds(h, v.delay);
            assert(v.delay * product_bound() <= HISTORY_SIZE * product_bound()) by (
            nonlinear_arith)
                requires
                    v.delay <= HISTORY_SIZE,
                    product_bound() > 0,
            ;
        },
    }
}

/// While a steady signal is tracked, one run of the engine (one call of
/// `ingest` or `ingest_block`) moves the period by at most one sample,
/// keeps the confirmed period, and leaves the period inside the band
/// around the confirmed period.
pub proof fn lemma_track_stability(v: TrackerView)
    requires
        v.wf(),
        v.phase is Track,
        v.step().phase is Track,
    ensures
        v.step().phase->anchor == v.phase->anchor,
        v.delay - 1 <= v.step().delay <= v.delay + 1,
        v.config.band_low(v.phase->anchor as int) <= v.step().delay <= v.config.band_high(
            v.phase->anchor as int,
        ),
{
}

/// While tracking, a newest period whose energy exceeds the onset factor
/// times the running average sends the tracker back to search, at the first
/// guess, within that same run of the engine.
pub proof fn lemma_onset_resets(v: TrackerView)
    requires
        v.wf(),
        v.phase is Track,
        energy_sum(v.history, v.delay) > v.config.onset_factor * v.phase->energy_average,
    ensures
        v.step().phase == (Phase::Search { best_correlation: 0 }),
        v.step().delay == v.config.initial_delay_spec(),
{
}

/// A search that confirms no period up to the largest delay ends at the
/// first guess with no best correlation, ready to scan again.
pub proof fn lemma_search_resets(v: TrackerView)
    requires
        v.wf(),
        v.phase is Search,
        v.step().phase is Search,
    ensures
        v.step().phase == (Phase::Search { best_correlation: 0 }),
        v.step().delay == v.config.initial_delay_spec(),
{
    lemma_search_outcome(v.config, v.history, v.delay, v.phase->best_correlation as int);
}

/// A search only moves to tracking on a period whose correlation over the
/// newest period agrees, within the tolerance, with the correlation one
/// period further back; that period becomes the anchor.
pub proof fn lemma_confirmed_period(v: TrackerView)
    requires
        v.wf(),
        v.phase is Search,
        v.step().phase is Track,
    ensures
        ({
            let d = v.step().delay;
            &&& v.step().phase->anchor == d
            &&& v.delay <= d <= v.config.max_delay
            &&& confirms(
                v.config,
                autocorrelation_sum(v.history, d, 0, d),
                autocorrelation_sum(v.history, d, d, d),
            )
        }),
{
    lemma_search_outcome(v.config, v.history, v.delay, v.phase->best_correlation as int);
}

/// Taking in one sample is taking in a block that holds only that sample.
pub proof fn lemma_single_sample_block(v: TrackerView, s: i16)
    ensures
        v.next(s) == v.next_block(seq![s]),
{
    let one = seq![s];
    assert(one.drop_last() =~= Seq::<i16>::empty());
    assert(v.history.push_all(one.drop_last()) == v.history);
    assert(one.last() == s);
    assert(v.history.push_all(one) == v.history.push(s));
}

} // verus!
