//! The single-shot event detector.
//!
//! Given one channel of time-ordered samples and a [`TriggerConfig`], the
//! detector establishes a noise baseline from the samples inside an initial
//! window, classifies every sample as deviating or stable against a
//! tolerance band around that baseline, and reports the bounds of the last
//! deviation that resolved into a long-enough unbroken stable run.
//!
//! Timestamps are microseconds, sample values micro-units, both `i64`.  The
//! baseline mean is never rounded: a sample deviates when
//! `|value - sum/count| > tolerance` over the rationals, which the code
//! decides exactly as `|value*count - sum| > tolerance*count`.

use vstd::prelude::*;

verus! {

/// Largest timestamp magnitude (microseconds) the detector accepts.
pub const TIME_BOUND: i64 = 0x20_0000_0000_0000;

/// Largest sample-value magnitude (micro-units) the detector accepts.
pub const VALUE_BOUND: i64 = 0x20_0000_0000_0000;

/// One sample: a timestamp in microseconds and a value in micro-units.
#[derive(Clone, Copy, PartialEq, Eq, Structural, Debug)]
pub struct Sample {
    pub t: i64,
    pub v: i64,
}

/// The three parameters of the detector: the baseline/stability window
/// (microseconds), the deviation tolerance (micro-units), and the index of
/// the monitored channel.
#[derive(Clone, Copy, PartialEq, Eq, Structural, Debug)]
pub struct TriggerConfig {
    pub window_us: i64,
    pub tolerance: i64,
    pub input_slot: usize,
}

/// The default trigger: a 50 ms window, a tolerance of 0.1 units, channel 0.
pub open spec fn is_default_trigger_config(c: TriggerConfig) -> bool {
    c == (TriggerConfig { window_us: 50_000, tolerance: 100_000, input_slot: 0 })
}

impl Default for TriggerConfig {
    fn default() -> (r: Self)
        ensures
            is_default_trigger_config(r),
    {
        TriggerConfig { window_us: 50_000, tolerance: 100_000, input_slot: 0 }
    }
}

/// Whether sample `i` of the channel belongs to the baseline slice: its
/// timestamp lies within `window` of the first sample's timestamp.
pub open spec fn in_baseline(ch: Seq<Sample>, window: int, i: int) -> bool {
    ch[i].t - ch[0].t <= window
}

/// How many of the first `n` samples belong to the baseline slice.
pub open spec fn baseline_count(ch: Seq<Sample>, window: int, n: int) -> int
    decreases n,
{
    if n <= 0 {
        0
    } else {
        baseline_count(ch, window, n - 1) + if in_baseline(ch, window, n - 1) {
            1int
        } else {
            0int
        }
    }
}

/// The sum of the values of the baseline samples among the first `n`.
pub open spec fn baseline_sum(ch: Seq<Sample>, window: int, n: int) -> int
    decreases n,
{
    if n <= 0 {
        0
    } else {
        baseline_sum(ch, window, n - 1) + if in_baseline(ch, window, n - 1) {
            ch[n - 1].v as int
        } else {
            0int
        }
    }
}

/// The baseline count over the whole channel.
pub open spec fn baseline_count_of(ch: Seq<Sample>, window: int) -> int {
    baseline_count(ch, window, ch.len() as int)
}

/// The baseline sum over the whole channel.
pub open spec fn baseline_sum_of(ch: Seq<Sample>, window: int) -> int {
    baseline_sum(ch, window, ch.len() as int)
}

/// Whether a value deviates from the baseline mean `sum/cnt` by more than
/// `tol`: exactly `|v - sum/cnt| > tol` over the rationals, cleared of the
/// division (`cnt > 0`).
pub open spec fn deviates(v: int, sum: int, cnt: int, tol: int) -> bool {
    (if v * cnt - sum < 0 {
        sum - v * cnt
    } else {
        v * cnt - sum
    }) > tol * cnt
}

/// The scan's running state: the timestamp at which a pending deviation
/// began, the first timestamp of the current unbroken stable run, and the
/// bounds of the last event that closed.
pub struct ScanState {
    pub pending: Option<int>,
    pub run_first: Option<int>,
    pub found: Option<(int, int)>,
}

/// The state before any sample was scanned.
pub open spec fn initial_scan_state() -> ScanState {
    ScanState { pending: None, run_first: None, found: None }
}

/// One step of the scan, on sample `s`:
/// - a deviating sample opens a pending event at its timestamp (if none is
///   pending) and unconditionally breaks the stable run;
/// - a stable sample while an event is pending extends (or begins) the
///   stable run; once the run spans at least `window`, the event closes with
///   bounds `(pending - window, s.t)` and the scan state resets;
/// - a stable sample with no event pending changes nothing.
pub open spec fn scan_step(
    st: ScanState,
    s: Sample,
    sum: int,
    cnt: int,
    tol: int,
    window: int,
) -> ScanState {
    if deviates(s.v as int, sum, cnt, tol) {
        ScanState {
            pending: if st.pending is Some {
                st.pending
            } else {
                Some(s.t as int)
            },
            run_first: None,
            found: st.found,
        }
    } else if st.pending is Some {
        let first = match st.run_first {
            Some(f) => f,
            None => s.t as int,
        };
        if s.t as int - first >= window {
            ScanState {
                pending: None,
                run_first: None,
                found: Some((st.pending->0 - window, s.t as int)),
            }
        } else {
            ScanState { pending: st.pending, run_first: Some(first), found: st.found }
        }
    } else {
        st
    }
}

/// The scan state after the first `n` samples of the channel.
pub open spec fn scan(
    ch: Seq<Sample>,
    sum: int,
    cnt: int,
    tol: int,
    window: int,
    n: int,
) -> ScanState
    decreases n,
{
    if n <= 0 {
        initial_scan_state()
    } else {
        scan_step(scan(ch, sum, cnt, tol, window, n - 1), ch[n - 1], sum, cnt, tol, window)
    }
}

/// The channel list as mathematical sequences.
pub open spec fn channels(values: Seq<Vec<Sample>>) -> Seq<Seq<Sample>> {
    values.map_values(|ch: Vec<Sample>| ch@)
}

/// The monitored channel.
pub open spec fn channel_of(values: Seq<Seq<Sample>>, cfg: TriggerConfig) -> Seq<Sample> {
    values[cfg.input_slot as int]
}

/// What the detector returns: `None` when the channel index is out of range,
/// when the monitored channel has fewer than two samples, or when the
/// baseline slice is empty; otherwise the `found` bounds of the full scan.
pub open spec fn spec_detect(values: Seq<Seq<Sample>>, cfg: TriggerConfig) -> Option<(int, int)> {
    if cfg.input_slot >= values.len() || values[cfg.input_slot as int].len() < 2 {
        None
    } else {
        let ch = channel_of(values, cfg);
        let window = cfg.window_us as int;
        let cnt = baseline_count_of(ch, window);
        if cnt == 0 {
            None
        } else {
            scan(
                ch,
                baseline_sum_of(ch, window),
                cnt,
                cfg.tolerance as int,
                window,
                ch.len() as int,
            ).found
        }
    }
}

/// Whether a sample's timestamp and value lie within the detector's bounds.
pub open spec fn sample_bounded(s: Sample) -> bool {
    &&& -(TIME_BOUND as int) <= s.t as int <= TIME_BOUND as int
    &&& -(VALUE_BOUND as int) <= s.v as int <= VALUE_BOUND as int
}

/// Whether a trigger configuration's window and tolerance lie within the
/// detector's bounds.
pub open spec fn cfg_bounded(cfg: TriggerConfig) -> bool {
    &&& -(TIME_BOUND as int) <= cfg.window_us as int <= TIME_BOUND as int
    &&& -(VALUE_BOUND as int) <= cfg.tolerance as int <= VALUE_BOUND as int
}

/// Whether the inputs suffice for detection at all: the channel index is in
/// range and the monitored channel has at least two samples.
pub open spec fn detect_ready(values: Seq<Seq<Sample>>, cfg: TriggerConfig) -> bool {
    cfg.input_slot < values.len() && values[cfg.input_slot as int].len() >= 2
}

/// The detector's precondition: whenever detection will actually run, the
/// configuration and every sample of the monitored channel lie within the
/// fixed-point bounds (so all intermediate arithmetic fits).  Inputs on
/// which detection cannot run carry no obligation at all.
pub open spec fn detect_inputs_ok(values: Seq<Seq<Sample>>, cfg: TriggerConfig) -> bool {
    detect_ready(values, cfg) ==> {
        &&& cfg_bounded(cfg)
        &&& forall|i: int|
            0 <= i < channel_of(values, cfg).len() ==> sample_bounded(
                #[trigger] channel_of(values, cfg)[i],
            )
    }
}

/// The view of the returned event bounds.
pub open spec fn opt_event(o: Option<(i64, i64)>) -> Option<(int, int)> {
    match o {
        Some(p) => Some((p.0 as int, p.1 as int)),
        None => None,
    }
}

/// The view of an optional timestamp.
pub open spec fn opt_time(o: Option<i64>) -> Option<int> {
    match o {
        Some(t) => Some(t as int),
        None => None,
    }
}

/// If no sample of the channel deviates from the baseline, the scan never
/// leaves its initial state.
proof fn lemma_scan_stays_initial(
    ch: Seq<Sample>,
    sum: int,
    cnt: int,
    tol: int,
    window: int,
    n: int,
)
    requires
        0 <= n <= ch.len(),
        forall|i: int|
            0 <= i < ch.len() ==> !(#[trigger] deviates(ch[i].v as int, sum, cnt, tol)),
    ensures
        scan(ch, sum, cnt, tol, window, n) == initial_scan_state(),
    decreases n,
{
    if n > 0 {
        lemma_scan_stays_initial(ch, sum, cnt, tol, window, n - 1);
    }
}

/// Whether sample `i` of the channel lies within the tolerance band around
/// the baseline mean.
pub open spec fn within_band(ch: Seq<Sample>, window: int, tol: int, i: int) -> bool {
    !deviates(ch[i].v as int, baseline_sum_of(ch, window), baseline_count_of(ch, window), tol)
}

/// No-deviation law: when every sample of the monitored channel stays within
/// the tolerance band around the baseline mean, the detector reports no
/// event — no deviation ever opens, so none can close.
pub proof fn lemma_no_deviation_no_event(values: Seq<Seq<Sample>>, cfg: TriggerConfig)
    requires
        detect_ready(values, cfg) ==> forall|i: int|
            0 <= i < channel_of(values, cfg).len() ==> #[trigger] within_band(
                channel_of(values, cfg),
                cfg.window_us as int,
                cfg.tolerance as int,
                i,
            ),
    ensures
        spec_detect(values, cfg) is None,
{
    if detect_ready(values, cfg) {
        let ch = channel_of(values, cfg);
        let w = cfg.window_us as int;
        let tol = cfg.tolerance as int;
        let cnt = baseline_count_of(ch, w);
        if cnt != 0 {
            let sum = baseline_sum_of(ch, w);
            assert forall|i: int| 0 <= i < ch.len() implies !(#[trigger] deviates(
                ch[i].v as int,
                sum,
                cnt,
                tol,
            )) by {
                assert(within_band(ch, w, tol, i));
            }
            lemma_scan_stays_initial(ch, sum, cnt, tol, w, ch.len() as int);
        }
    }
}

/// Whether sample `i` of the channel deviates from the baseline.
pub open spec fn deviating_at(ch: Seq<Sample>, sum: int, cnt: int, tol: int, i: int) -> bool {
    0 <= i < ch.len() && deviates(ch[i].v as int, sum, cnt, tol)
}

/// Soundness of the scan state after `n` samples: a pending start is the
/// timestamp of a deviating sample already scanned, and closed-event bounds
/// are a deviating sample's timestamp shifted one window back together with
/// a non-deviating sample's timestamp.
proof fn lemma_scan_sound(ch: Seq<Sample>, sum: int, cnt: int, tol: int, window: int, n: int)
    requires
        0 <= n <= ch.len(),
    ensures
        match scan(ch, sum, cnt, tol, window, n).pending {
            Some(p) => exists|i: int|
                #[trigger] deviating_at(ch, sum, cnt, tol, i) && i < n && p == ch[i].t,
            None => true,
        },
        match scan(ch, sum, cnt, tol, window, n).found {
            Some(ev) => exists|i: int, j: int|
                #[trigger] deviating_at(ch, sum, cnt, tol, i) && i < n && 0 <= j < n && !deviates(
                    (#[trigger] ch[j]).v as int,
                    sum,
                    cnt,
                    tol,
                ) && ev.0 == ch[i].t - window && ev.1 == ch[j].t,
            None => true,
        },
    decreases n,
{
    if n > 0 {
        lemma_scan_sound(ch, sum, cnt, tol, window, n - 1);
        let st = scan(ch, sum, cnt, tol, window, n - 1);
        let stn = scan(ch, sum, cnt, tol, window, n);
        let s = ch[n - 1];
        if stn.pending is Some {
            let p = stn.pending->0;
            if st.pending is Some && p == st.pending->0 {
                let i = choose|i: int|
                    #[trigger] deviating_at(ch, sum, cnt, tol, i) && i < n - 1 && st.pending->0
                        == ch[i].t;
                assert(deviating_at(ch, sum, cnt, tol, i) && i < n && p == ch[i].t);
            } else {
                assert(deviating_at(ch, sum, cnt, tol, n - 1) && n - 1 < n && p == ch[n - 1].t);
            }
        }
        if stn.found is Some {
            let ev = stn.found->0;
            if st.found is Some && ev == st.found->0 {
                let prev = st.found->0;
                let (i, j) = choose|i: int, j: int|
                    #[trigger] deviating_at(ch, sum, cnt, tol, i) && i < n - 1 && 0 <= j < n - 1
                        && !deviates((#[trigger] ch[j]).v as int, sum, cnt, tol) && prev.0 == ch[
                    i].t - window && prev.1 == ch[j].t;
                assert(deviating_at(ch, sum, cnt, tol, i) && i < n && 0 <= j < n && !deviates(
                    ch[j].v as int,
                    sum,
                    cnt,
                    tol,
                ) && ev.0 == ch[i].t - window && ev.1 == ch[j].t);
            } else {
                let p = st.pending->0;
                let i = choose|i: int|
                    #[trigger] deviating_at(ch, sum, cnt, tol, i) && i < n - 1 && p == ch[i].t;
                assert(deviating_at(ch, sum, cnt, tol, i) && i < n && 0 <= n - 1 < n && !deviates(
                    ch[n - 1].v as int,
                    sum,
                    cnt,
                    tol,
                ) && ev.0 == ch[i].t - window && ev.1 == ch[n - 1].t);
            }
        }
    }
}

/// Event bounds come from the signal: when the detector reports an event,
/// its start is the timestamp of a sample that deviates from the baseline,
/// shifted one window back, and its end is the timestamp of a sample that
/// does not deviate.
pub proof fn lemma_event_bounds_from_samples(values: Seq<Seq<Sample>>, cfg: TriggerConfig)
    ensures
        match spec_detect(values, cfg) {
            Some(ev) => {
                let ch = channel_of(values, cfg);
                let w = cfg.window_us as int;
                let sum = baseline_sum_of(ch, w);
                let cnt = baseline_count_of(ch, w);
                let tol = cfg.tolerance as int;
                exists|i: int, j: int|
                    #[trigger] deviating_at(ch, sum, cnt, tol, i) && 0 <= j < ch.len()
                        && !deviates((#[trigger] ch[j]).v as int, sum, cnt, tol) && ev.0 == ch[
                    i].t - w && ev.1 == ch[j].t
            },
            None => true,
        },
{
    if spec_detect(values, cfg) is Some {
        let ch = channel_of(values, cfg);
        let w = cfg.window_us as int;
        let sum = baseline_sum_of(ch, w);
        let cnt = baseline_count_of(ch, w);
        let tol = cfg.tolerance as int;
        lemma_scan_sound(ch, sum, cnt, tol, w, ch.len() as int);
        let ev = spec_detect(values, cfg)->0;
        assert(scan(ch, sum, cnt, tol, w, ch.len() as int).found == Some(ev));
        let (i, j) = choose|i: int, j: int|
            #[trigger] deviating_at(ch, sum, cnt, tol, i) && i < ch.len() && 0 <= j < ch.len()
                && !deviates((#[trigger] ch[j]).v as int, sum, cnt, tol) && ev.0 == ch[i].t - w
                && ev.1 == ch[j].t;
        assert(deviating_at(ch, sum, cnt, tol, i) && 0 <= j < ch.len() && !deviates(
            ch[j].v as int,
            sum,
            cnt,
            tol,
        ) && ev.0 == ch[i].t - w && ev.1 == ch[j].t);
    }
}

/// The sum of the values of the first `n` samples of the channel.
pub open spec fn total_sum(ch: Seq<Sample>, n: int) -> int
    decreases n,
{
    if n <= 0 {
        0
    } else {
        total_sum(ch, n - 1) + ch[n - 1].v as int
    }
}

/// Timestamps never decrease along the channel.
pub open spec fn monotone_times(ch: Seq<Sample>) -> bool {
    forall|i: int, j: int| 0 <= i <= j < ch.len() ==> (#[trigger] ch[i]).t <= (#[trigger] ch[j]).t
}

/// When the channel's whole time span fits inside the window, the baseline
/// slice is the whole channel: its count is the length and its sum is the
/// channel's total sum.
proof fn lemma_baseline_covers_all(ch: Seq<Sample>, window: int, n: int)
    requires
        monotone_times(ch),
        0 < ch.len(),
        ch[ch.len() - 1].t - ch[0].t <= window,
        0 <= n <= ch.len(),
    ensures
        baseline_count(ch, window, n) == n,
        baseline_sum(ch, window, n) == total_sum(ch, n),
    decreases n,
{
    if n > 0 {
        lemma_baseline_covers_all(ch, window, n - 1);
        assert(ch[n - 1].t <= ch[ch.len() - 1].t);
        assert(in_baseline(ch, window, n - 1));
    }
}

/// Own-mean law: a time-ordered channel whose whole duration fits inside the
/// baseline window — so the baseline mean is the channel's own mean — and
/// whose samples all lie within tolerance of that mean yields no event.
pub proof fn lemma_within_own_mean_no_event(values: Seq<Seq<Sample>>, cfg: TriggerConfig)
    requires
        detect_ready(values, cfg) ==> {
            let ch = channel_of(values, cfg);
            &&& monotone_times(ch)
            &&& ch[ch.len() - 1].t - ch[0].t <= cfg.window_us as int
            &&& forall|i: int|
                0 <= i < ch.len() ==> !(#[trigger] deviates(
                    ch[i].v as int,
                    total_sum(ch, ch.len() as int),
                    ch.len() as int,
                    cfg.tolerance as int,
                ))
        },
    ensures
        spec_detect(values, cfg) is None,
{
    if detect_ready(values, cfg) {
        let ch = channel_of(values, cfg);
        let w = cfg.window_us as int;
        lemma_baseline_covers_all(ch, w, ch.len() as int);
        lemma_scan_stays_initial(
            ch,
            baseline_sum_of(ch, w),
            baseline_count_of(ch, w),
            cfg.tolerance as int,
            w,
            ch.len() as int,
        );
    }
}

/// Scans the channel selected by `trigger_config.input_slot` for one
/// transient deviation event and returns its `(start, end)` bounds in
/// microseconds, or `None` when there is no such event.
///
/// The result is exactly [`spec_detect`] of the inputs: insufficient data
/// (channel index out of range, or fewer than two samples) yields `None`,
/// and otherwise the bounds are those of the last deviation that resolved
/// into an unbroken stable run spanning at least the window, the start
/// shifted one window before the first deviating sample.
pub fn detect_single_shot(values: &Vec<Vec<Sample>>, trigger_config: &TriggerConfig) -> (r: Option<
    (i64, i64),
>)
    requires
        detect_inputs_ok(channels(values@), *trigger_config),
    ensures
        opt_event(r) == spec_detect(channels(values@), *trigger_config),
        trigger_config.input_slot >= values@.len() ==> r is None,
        trigger_config.input_slot < values@.len() && values@[trigger_config.input_slot as int]@.len()
            < 2 ==> r is None,
{
    let window = trigger_config.window_us;
    let tolerance = trigger_config.tolerance;
    let input_slot = trigger_config.input_slot;

    proof {
        assert(channels(values@).len() == values@.len());
        if input_slot < values.len() {
            assert(channels(values@)[input_slot as int] == values@[input_slot as int]@);
        }
    }

    if input_slot >= values.len() {
        return None;
    }
    let ch: &Vec<Sample> = &values[input_slot];
    if ch.len() < 2 {
        return None;
    }

    let ghost gch: Seq<Sample> = ch@;
    let ghost gw: int = window as int;

    let first_time = ch[0].t;

    let mut sum: i128 = 0;
    let mut cnt: usize = 0;
    let mut i: usize = 0;
    while i < ch.len()
        invariant
            i <= ch.len(),
            2 <= ch.len(),
            ch@ == gch,
            window == trigger_config.window_us,
            gw == trigger_config.window_us as int,
            first_time == gch[0].t,
            cfg_bounded(*trigger_config),
            forall|k: int| 0 <= k < gch.len() ==> sample_bounded(#[trigger] gch[k]),
            cnt as int == baseline_count(gch, gw, i as int),
            sum as int == baseline_sum(gch, gw, i as int),
            0 <= cnt <= i,
            -(cnt as int * (VALUE_BOUND as int)) <= sum as int <= cnt as int * (
            VALUE_BOUND as int),
        decreases ch.len() - i,
    {
        let s = ch[i];
        if s.t - first_time <= window {
            sum = sum + s.v as i128;
            cnt = cnt + 1;
        }
        i = i + 1;
    }

    if cnt == 0 {
        return None;
    }

    let ghost gsum: int = sum as int;
    let ghost gcnt: int = cnt as int;
    let ghost gtol: int = tolerance as int;

    let mut pending: Option<i64> = None;
    let mut run_first: Option<i64> = None;
    let mut found: Option<(i64, i64)> = None;
    let mut j: usize = 0;
    while j < ch.len()
        invariant
            j <= ch.len(),
            2 <= ch.len(),
            ch@ == gch,
            window == trigger_config.window_us,
            gw == trigger_config.window_us as int,
            tolerance == trigger_config.tolerance,
            gtol == trigger_config.tolerance as int,
            cfg_bounded(*trigger_config),
            forall|k: int| 0 <= k < gch.len() ==> sample_bounded(#[trigger] gch[k]),
            1 <= gcnt <= gch.len(),
            cnt as int == gcnt,
            sum as int == gsum,
            -(gcnt * (VALUE_BOUND as int)) <= gsum <= gcnt * (VALUE_BOUND as int),
            scan(gch, gsum, gcnt, gtol, gw, j as int) == (ScanState {
                pending: opt_time(pending),
                run_first: opt_time(run_first),
                found: opt_event(found),
            }),
            match pending {
                Some(t) => -TIME_BOUND <= t <= TIME_BOUND,
                None => true,
            },
            match run_first {
                Some(t) => -TIME_BOUND <= t <= TIME_BOUND,
                None => true,
            },
        decreases ch.len() - j,
    {
        let p = ch[j];
        proof {
            assert(sample_bounded(gch[j as int]));
            let pv = p.v as int;
            let c = cnt as int;
            assert(-((VALUE_BOUND as int) * c) <= pv * c <= (VALUE_BOUND as int) * c)
                by (nonlinear_arith)
                requires
                    -(VALUE_BOUND as int) <= pv <= (VALUE_BOUND as int),
                    0 <= c,
            ;
            let tv = tolerance as int;
            assert(-((VALUE_BOUND as int) * c) <= tv * c <= (VALUE_BOUND as int) * c)
                by (nonlinear_arith)
                requires
                    -(VALUE_BOUND as int) <= tv <= (VALUE_BOUND as int),
                    0 <= c,
            ;
            assert(c <= 0xFFFF_FFFF_FFFF_FFFF);
            assert((VALUE_BOUND as int) * c <= (VALUE_BOUND as int) * 0xFFFF_FFFF_FFFF_FFFF);
        }
        let diff: i128 = (p.v as i128) * (cnt as i128) - sum;
        let dev: i128 = if diff < 0 {
            -diff
        } else {
            diff
        };
        let exceeds = dev > (tolerance as i128) * (cnt as i128);
        proof {
            assert(exceeds == deviates(p.v as int, gsum, gcnt, gtol));
        }
        if exceeds {
            if pending.is_none() {
                pending = Some(p.t);
            }
            run_first = None;
        } else if let Some(start_time) = pending {
            let first = match run_first {
                Some(f) => f,
                None => p.t,
            };
            if p.t - first >= window {
                found = Some((start_time - window, p.t));
                pending = None;
                run_first = None;
            } else {
                run_first = Some(first);
            }
        }
        j = j + 1;
    }

    found
}

} // verus!
