use serial_monitor::detector::{detect_single_shot, Sample, TriggerConfig};

fn s(t: i64, v: i64) -> Sample {
    Sample { t, v }
}

fn cfg(window_us: i64, tolerance: i64, input_slot: usize) -> TriggerConfig {
    TriggerConfig { window_us, tolerance, input_slot }
}

#[test]
fn no_channels_returns_none() {
    let channels: Vec<Vec<Sample>> = Vec::new();
    assert_eq!(detect_single_shot(&channels, &cfg(50_000, 500_000, 0)), None);
    assert_eq!(detect_single_shot(&channels, &cfg(-7, -7, 3)), None);
}

#[test]
fn out_of_range_slot_returns_none() {
    let channels = vec![vec![s(0, 0), s(10_000, 0), s(20_000, 5_000_000)]];
    assert_eq!(detect_single_shot(&channels, &cfg(50_000, 500_000, 1)), None);
    assert_eq!(detect_single_shot(&channels, &cfg(50_000, 500_000, usize::MAX)), None);
}

#[test]
fn single_sample_returns_none() {
    let channels = vec![vec![s(0, 0)]];
    assert_eq!(detect_single_shot(&channels, &cfg(50_000, 500_000, 0)), None);
}

#[test]
fn empty_channel_returns_none() {
    let channels = vec![Vec::new()];
    assert_eq!(detect_single_shot(&channels, &cfg(50_000, 500_000, 0)), None);
}

#[test]
fn negative_window_empty_baseline_returns_none() {
    // With a negative window not even the first sample enters the baseline
    // slice, and the defensive empty-baseline guard reports no event.
    let channels = vec![vec![s(0, 0), s(10_000, 5_000_000), s(100_000, 0)]];
    assert_eq!(detect_single_shot(&channels, &cfg(-1, 500_000, 0)), None);
}

#[test]
fn all_values_near_mean_returns_none() {
    // Every value within tolerance of the channel's own mean: no deviation.
    let channels = vec![vec![
        s(0, 0),
        s(10_000, 80_000),
        s(20_000, -60_000),
        s(30_000, 50_000),
        s(40_000, -70_000),
    ]];
    assert_eq!(detect_single_shot(&channels, &cfg(50_000, 100_000, 0)), None);
}

#[test]
fn deviation_without_recovery_returns_none() {
    // The signal deviates and never comes back: no stable run, no event.
    let channels = vec![vec![
        s(0, 0),
        s(10_000, 0),
        s(100_000, 5_000_000),
        s(200_000, 5_000_000),
        s(300_000, 5_000_000),
    ]];
    assert_eq!(detect_single_shot(&channels, &cfg(50_000, 500_000, 0)), None);
}

#[test]
fn single_shot_scenario_short_recovery_returns_none() {
    // Samples: three baseline points at zero, a 5-unit excursion, then a
    // recovery whose stable run spans only 20 ms — short of the 50 ms window,
    // so the event never closes.
    let channels = vec![vec![
        s(0, 0),
        s(10_000, 0),
        s(20_000, 0),
        s(100_000, 5_000_000),
        s(110_000, 5_000_000),
        s(200_000, 0),
        s(210_000, 0),
        s(220_000, 0),
    ]];
    assert_eq!(detect_single_shot(&channels, &cfg(50_000, 500_000, 0)), None);
}

#[test]
fn single_shot_scenario_closes_on_spanning_sample() {
    // The same excursion, with one more stable sample at 250 ms: the stable
    // run that began at 200 ms now spans exactly the 50 ms window, so the
    // event closes there.  Its start is the first deviating sample's
    // timestamp (100 ms) shifted one window back, its end the timestamp of
    // the sample that completed the stable span.
    let channels = vec![vec![
        s(0, 0),
        s(10_000, 0),
        s(20_000, 0),
        s(100_000, 5_000_000),
        s(110_000, 5_000_000),
        s(200_000, 0),
        s(210_000, 0),
        s(220_000, 0),
        s(250_000, 0),
    ]];
    assert_eq!(
        detect_single_shot(&channels, &cfg(50_000, 500_000, 0)),
        Some((50_000, 250_000))
    );
}

#[test]
fn detector_reads_the_configured_slot() {
    // The event sits on channel 1; monitoring channel 0 sees nothing.
    let quiet = vec![s(0, 0), s(10_000, 0), s(200_000, 0)];
    let active = vec![
        s(0, 0),
        s(10_000, 0),
        s(100_000, 5_000_000),
        s(150_000, 0),
        s(200_000, 0),
    ];
    let channels = vec![quiet, active];
    assert_eq!(detect_single_shot(&channels, &cfg(50_000, 500_000, 0)), None);
    assert_eq!(
        detect_single_shot(&channels, &cfg(50_000, 500_000, 1)),
        Some((50_000, 200_000))
    );
}

#[test]
fn last_closed_event_wins() {
    // Two excursions, both of which close: the detector reports the later.
    let channels = vec![vec![
        s(0, 0),
        s(10_000, 0),
        s(100_000, 5_000_000),
        s(150_000, 0),
        s(200_000, 0),
        s(300_000, 5_000_000),
        s(350_000, 0),
        s(400_000, 0),
    ]];
    assert_eq!(
        detect_single_shot(&channels, &cfg(50_000, 500_000, 0)),
        Some((250_000, 400_000))
    );
}

#[test]
fn deviation_is_strictly_beyond_tolerance() {
    // A value exactly at the tolerance band's edge does not deviate; one
    // micro-unit beyond it does.
    let at_edge = vec![vec![
        s(0, 0),
        s(10_000, 0),
        s(60_000, 100_000),
        s(120_000, 0),
        s(170_000, 0),
    ]];
    assert_eq!(detect_single_shot(&at_edge, &cfg(50_000, 100_000, 0)), None);

    let beyond = vec![vec![
        s(0, 0),
        s(10_000, 0),
        s(60_000, 100_001),
        s(120_000, 0),
        s(170_000, 0),
    ]];
    assert_eq!(
        detect_single_shot(&beyond, &cfg(50_000, 100_000, 0)),
        Some((10_000, 170_000))
    );
}

#[test]
fn interrupted_stable_run_starts_over() {
    // A fresh deviation inside the recovery clears the stable run: the run
    // must be unbroken, so the event closes only after the second recovery.
    let channels = vec![vec![
        s(0, 0),
        s(10_000, 0),
        s(100_000, 5_000_000),
        s(130_000, 0),
        s(160_000, 5_000_000),
        s(200_000, 0),
        s(250_000, 0),
    ]];
    assert_eq!(
        detect_single_shot(&channels, &cfg(50_000, 500_000, 0)),
        Some((50_000, 250_000))
    );
}

#[test]
fn baseline_mean_is_exact() {
    // Baseline samples 0 and 100_000 give a mean of 50_000: a later value of
    // 140_000 sits 90_000 away — inside a 100_000 tolerance — while 160_000
    // sits 110_000 away and deviates, then recovers into an event.
    let inside = vec![vec![
        s(0, 0),
        s(10_000, 100_000),
        s(60_000, 140_000),
        s(120_000, 50_000),
        s(170_000, 50_000),
    ]];
    assert_eq!(detect_single_shot(&inside, &cfg(50_000, 100_000, 0)), None);

    let outside = vec![vec![
        s(0, 0),
        s(10_000, 100_000),
        s(60_000, 160_000),
        s(120_000, 50_000),
        s(170_000, 50_000),
    ]];
    assert_eq!(
        detect_single_shot(&outside, &cfg(50_000, 100_000, 0)),
        Some((10_000, 170_000))
    );
}
