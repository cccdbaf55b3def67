use nebula_bench::acquisition::{Acquisition, AcquisitionAction, AcquisitionEvent};
use nebula_bench::aggregation::{analyze_efficiency_data, analyze_power_data, find_under_sampled, get_missing_data};
use nebula_bench::association::{all_wf_samples, associate_power_measurements, energy_of, estimate_power, BASELINE_IDLE};
use nebula_bench::invocation::{FunctionResult, Metrics, ModuleType};
use nebula_bench::sensor::{combine_registers, floor_div, measure_baseline, MeterError, SensorData, MAX_SAMPLE_POWER};
use nebula_bench::stats::{isqrt, summarize};

fn sample(power: i128, start_read: u64, end_read: u64) -> SensorData {
    SensorData { current: 0, voltage: 240, power_factor: 0, power, start_read, end_read }
}

fn metrics(start: u64, end: u64) -> Metrics {
    Metrics {
        startup_time: 10,
        start_since_epoch: start,
        total_runtime: end - start,
        end_since_epoch: end,
        startup_percentage: 0,
        power: None,
    }
}

fn record(kind: ModuleType, name: &str, input: &str, m: Option<Metrics>) -> FunctionResult {
    FunctionResult {
        metrics: m,
        result: String::new(),
        func_type: kind,
        func_name: name.to_string(),
        input: input.to_string(),
        base_image: String::new(),
    }
}

#[test]
fn median_of_odd_and_even_counts() {
    let odd = summarize(&vec![1, 3, 2]);
    assert_eq!((odd.median_low, odd.median_high), (2, 2));
    let even = summarize(&vec![1, 2, 3, 4]);
    assert_eq!((even.median_low, even.median_high), (2, 3));
    assert_eq!(even.median_low + even.median_high, 5);
}

#[test]
fn summary_of_a_series() {
    let m = summarize(&vec![2, 4, 4, 4, 5, 5, 7, 9]);
    assert_eq!(m.count, 8);
    assert_eq!(m.min, 2);
    assert_eq!(m.max, 9);
    assert_eq!(m.sum, Some(40));
    assert_eq!(m.mean, Some(5));
    assert_eq!(m.std_deviation, Some(2));
    assert_eq!((m.median_low, m.median_high), (4, 5));
}

#[test]
fn summary_of_nothing_and_of_overflowing_values() {
    let empty = summarize(&vec![]);
    assert_eq!(empty.count, 0);
    assert_eq!(empty.mean, None);
    assert_eq!(empty.std_deviation, None);
    let big = summarize(&vec![u128::MAX, 1]);
    assert_eq!(big.sum, None);
    assert_eq!(big.mean, Some(1u128 << 127));
    assert_eq!(big.std_deviation, None);
    assert_eq!(big.max, u128::MAX);
    assert_eq!(big.min, 1);
}

#[test]
fn integer_square_root() {
    assert_eq!(isqrt(0), 0);
    assert_eq!(isqrt(15), 3);
    assert_eq!(isqrt(16), 4);
    assert_eq!(isqrt(u128::MAX), u64::MAX);
}

#[test]
fn window_inclusion_is_half_open() {
    let samples = vec![sample(10_000_000, 100, 150)];
    assert!(estimate_power(&metrics(100, 200), &samples).is_some());
    assert!(estimate_power(&metrics(50, 100), &samples).is_none());
    assert!(estimate_power(&metrics(150, 200), &samples).is_none());
}

#[test]
fn invocation_without_samples_is_dropped() {
    let samples = vec![sample(10_000_000, 100, 150)];
    let rs = vec![
        record(ModuleType::Wasm, "f", "0", Some(metrics(100, 200))),
        record(ModuleType::Wasm, "f", "1", Some(metrics(300, 400))),
        record(ModuleType::Wasm, "f", "2", None),
    ];
    let out = associate_power_measurements(rs, &samples);
    assert_eq!(out.len(), 1);
    assert_eq!(out[0].input, "0");
}

#[test]
fn energy_of_ten_watts_for_an_hour() {
    let samples = vec![sample(10_000_000, 1_000, 2_000)];
    let e = estimate_power(&metrics(0, 3_600_000_000), &samples).unwrap();
    assert_eq!(e.average_power, 10_000_000);
    assert_eq!(e.energy_consumption, 10_000_000_000_000);
    assert_eq!(e.average_power_isolated, (10_000_000 - BASELINE_IDLE) as u128);
    assert_eq!(e.energy_consumption_isolated, (10_000_000 - BASELINE_IDLE) as u128 * 1_000_000);
}

#[test]
fn mean_power_is_rounded_down() {
    let samples = vec![sample(3_000_001, 10, 20), sample(3_000_000, 30, 40)];
    let e = estimate_power(&metrics(0, 3_600), &samples).unwrap();
    assert_eq!(e.average_power, 3_000_000);
    assert_eq!(e.energy_consumption, 3_000_000);
}

#[test]
fn idle_power_invocation_is_dropped() {
    let at_baseline = vec![sample(BASELINE_IDLE as i128, 110, 120), sample(BASELINE_IDLE as i128 - 5, 130, 140)];
    let rs = vec![record(ModuleType::Docker, "f", "0", Some(metrics(100, 200)))];
    assert!(associate_power_measurements(rs, &at_baseline).is_empty());
    let above = vec![sample(BASELINE_IDLE as i128 + 1, 110, 120)];
    let rs = vec![record(ModuleType::Docker, "f", "0", Some(metrics(100, 200)))];
    let out = associate_power_measurements(rs, &above);
    assert_eq!(out.len(), 1);
    let p = out[0].metrics.unwrap().power.unwrap();
    assert_eq!(p.average_power_isolated, 1);
}

fn repeated(kind: ModuleType, name: &str, n: usize) -> Vec<FunctionResult> {
    (0..n).map(|_| record(kind, name, "0", Some(metrics(0, 100)))).collect()
}

#[test]
fn gap_detection_finds_only_short_groups() {
    let mut rs = repeated(ModuleType::Wasm, "A", 3);
    rs.extend(repeated(ModuleType::Wasm, "B", 5));
    rs.extend(repeated(ModuleType::Wasm, "C", 7));
    let stats = analyze_power_data(&rs);
    assert_eq!(stats.len(), 3);
    let missing = get_missing_data(&stats);
    assert_eq!(missing.len(), 1);
    assert_eq!(missing[0].0.func_name, "A");
    assert_eq!(missing[0].1, 3);
    let at_eight = find_under_sampled(&stats, 8);
    assert_eq!(at_eight.len(), 3);
}

fn scenario_records() -> Vec<FunctionResult> {
    vec![
        record(ModuleType::Wasm, "f", "0", Some(metrics(1_000, 2_000))),
        record(ModuleType::Docker, "f", "0", Some(metrics(3_000, 4_000))),
        record(ModuleType::Wasm, "f", "5", Some(metrics(5_000, 6_000))),
        record(ModuleType::Docker, "f", "5", Some(metrics(7_000, 8_000))),
    ]
}

#[test]
fn end_to_end_two_watts_is_below_baseline() {
    let samples = vec![sample(2_000_000, 1_100, 1_200), sample(2_000_000, 1_300, 1_400)];
    let out = associate_power_measurements(scenario_records(), &samples);
    let stats = analyze_power_data(&out);
    assert!(stats.is_empty());
}

#[test]
fn end_to_end_one_group_survives() {
    let samples = vec![sample(3_000_000, 1_100, 1_200), sample(3_000_000, 1_300, 1_400)];
    let out = associate_power_measurements(scenario_records(), &samples);
    let stats = analyze_power_data(&out);
    assert_eq!(stats.len(), 1);
    assert_eq!(stats[0].0.module_type, ModuleType::Wasm);
    assert_eq!(stats[0].0.func_name, "f");
    assert_eq!(stats[0].0.input, "0");
    assert_eq!(stats[0].1.num_invoked, 1);
    assert_eq!(stats[0].1.average_power.min, 3_000_000);
    assert_eq!(stats[0].1.energy_consumption.max, 3_000_000 * 1_000 / 3_600);
}

#[test]
fn aggregation_over_mixed_records() {
    let mut rs = scenario_records();
    rs.push(record(ModuleType::Wasm, "f", "0", Some(Metrics { total_runtime: 50, ..metrics(0, 60) })));
    rs.push(record(ModuleType::Wasm, "f", "0", None));
    let stats = analyze_efficiency_data(&rs);
    assert_eq!(stats.len(), 4);
    let first = &stats[0].1;
    assert_eq!(first.num_invoked, 3);
    assert_eq!(first.startup_time.count, 2);
    assert_eq!(first.runtime.min, 40);
    assert_eq!(first.runtime.max, 990);
}

#[test]
fn registers_decode_to_a_sample() {
    assert_eq!(combine_registers(0, 5), 5);
    assert_eq!(combine_registers(1, 2), 65_538);
    assert_eq!(combine_registers(0xffff, 0xffff), -1);
    let s = SensorData::from_registers(&[0, 500], &[0, 900], 10, 20).unwrap();
    assert_eq!(s.current, 500);
    assert_eq!(s.power_factor, 900);
    assert_eq!(s.power, 240 * 500 * 900);
    assert_eq!(s.voltage, 240);
}

#[test]
fn malformed_meter_responses() {
    assert_eq!(SensorData::from_registers(&[0], &[0, 900], 10, 20), Err(MeterError::MalformedResponse));
    assert_eq!(SensorData::from_registers(&[0, 1, 2], &[0, 900], 10, 20), Err(MeterError::MalformedResponse));
    assert_eq!(SensorData::from_registers(&[0, 1], &[0, 1000], 20, 20), Err(MeterError::ClockNotAdvanced));
}

#[test]
fn baseline_is_mean_power() {
    assert_eq!(measure_baseline(vec![sample(3, 1, 2), sample(4, 3, 4)]), 3);
    assert_eq!(measure_baseline(vec![sample(-3, 1, 2)]), 0);
    assert_eq!(measure_baseline(vec![]), 0);
}

#[test]
fn acquisition_keeps_samples_until_driver_finishes() {
    let mut a = Acquisition::new();
    assert_eq!(a.step(AcquisitionEvent::Reading(Ok(sample(5, 1, 2)))), AcquisitionAction::ReadMeter);
    assert_eq!(a.step(AcquisitionEvent::Reading(Err(MeterError::MalformedResponse))), AcquisitionAction::ReadMeter);
    assert_eq!(a.step(AcquisitionEvent::DriverFinished), AcquisitionAction::Stop);
    assert_eq!(a.step(AcquisitionEvent::Reading(Ok(sample(7, 3, 4)))), AcquisitionAction::Stop);
    assert_eq!(a.samples.len(), 2);
    let out = a.finish(vec![record(ModuleType::Wasm, "f", "0", Some(metrics(0, 10)))]);
    assert!(out.is_empty());
}

#[test]
fn empty_summary() {
    let m = nebula_bench::stats::Metrics::new();
    assert_eq!(m, summarize(&vec![]));
    assert_eq!(m.sum, Some(0));
}

#[test]
fn sample_well_formedness() {
    assert!(sample(1, 1, 2).is_wf());
    assert!(!sample(1, 2, 2).is_wf());
    assert!(!sample(i128::MAX, 1, 2).is_wf());
    assert!(sample(MAX_SAMPLE_POWER, 1, 2).is_wf());
    assert!(all_wf_samples(&vec![sample(1, 1, 2), sample(2, 3, 4)]));
    assert!(!all_wf_samples(&vec![sample(1, 1, 2), sample(2, 4, 3)]));
    assert!(all_wf_samples(&vec![]));
}

#[test]
fn acquisition_hands_samples_to_association() {
    let mut a = Acquisition::new();
    a.step(AcquisitionEvent::Reading(Ok(sample(4_000_000, 10, 20))));
    a.step(AcquisitionEvent::Reading(Ok(sample(1, 30, 20))));
    assert_eq!(a.samples.len(), 1);
    a.step(AcquisitionEvent::DriverFinished);
    let out = a.finish(vec![record(ModuleType::Docker, "g", "3", Some(metrics(0, 3_600)))]);
    assert_eq!(out.len(), 1);
    assert_eq!(out[0].metrics.unwrap().power.unwrap().average_power, 4_000_000);
    assert_eq!(out[0].metrics.unwrap().power.unwrap().energy_consumption, 4_000_000);
}

#[test]
fn any_power_factor_gives_a_sample() {
    let s = SensorData::from_registers(&[0, 1], &[0, 2000], 10, 20).unwrap();
    assert_eq!(s.power_factor, 2000);
    assert_eq!(s.power, 240 * 2000);
    let extreme = SensorData::from_registers(&[0x8000, 0], &[0x8000, 0], 10, 20).unwrap();
    assert_eq!(extreme.current, i32::MIN);
    assert_eq!(extreme.power, MAX_SAMPLE_POWER);
    assert!(extreme.is_wf());
    let negative = SensorData::from_registers(&[0, 10], &[0xffff, 0xfc18], 10, 20).unwrap();
    assert_eq!(negative.power_factor, -1000);
    assert_eq!(negative.power, -2_400_000);
}

#[test]
fn largest_powers_do_not_overflow() {
    let samples = vec![sample(MAX_SAMPLE_POWER, 10, 20), sample(MAX_SAMPLE_POWER, 30, 40), sample(MAX_SAMPLE_POWER - 1, 50, 60)];
    let e = estimate_power(&metrics(0, u64::MAX), &samples).unwrap();
    assert_eq!(e.average_power, MAX_SAMPLE_POWER as u128 - 1);
    assert_eq!(e.energy_consumption, (MAX_SAMPLE_POWER as u128 - 1) * (u64::MAX as u128 / 3600)
        + (MAX_SAMPLE_POWER as u128 - 1) * (u64::MAX as u128 % 3600) / 3600);
    assert_eq!(energy_of(7, 3600 * 5 + 1800), 7 * 5 + 3);
    assert_eq!(measure_baseline(vec![sample(MAX_SAMPLE_POWER, 1, 2), sample(MAX_SAMPLE_POWER, 3, 4)]), MAX_SAMPLE_POWER);
}

#[test]
fn mixed_sign_powers_average_down() {
    let samples = vec![sample(-5, 10, 20), sample(3 * BASELINE_IDLE as i128 + 8, 30, 40)];
    let e = estimate_power(&metrics(0, 3_600), &samples).unwrap();
    assert_eq!(e.average_power, (3 * BASELINE_IDLE as u128 + 3) / 2);
    assert_eq!(measure_baseline(vec![sample(-7, 1, 2), sample(4, 3, 4)]), 0);
    assert_eq!(measure_baseline(vec![sample(-7, 1, 2), sample(10, 3, 4)]), 1);
}

#[test]
fn euclidean_division() {
    assert_eq!(floor_div(7, 2), (3, 1));
    assert_eq!(floor_div(-7, 2), (-4, 1));
    assert_eq!(floor_div(-6, 3), (-2, 0));
    assert_eq!(floor_div(0, 5), (0, 0));
}
