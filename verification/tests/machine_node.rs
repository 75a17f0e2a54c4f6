use batpu_host::machine_node::{signal_for_tick, MachineNode, Signal, SpeedSample, Step};

fn running(now: u64, rate: u32) -> MachineNode {
    let mut node = MachineNode::new(now);
    node.instructions_per_second = rate;
    node.start();
    assert_eq!(node.run_ticks(now, None), Step::Instant);
    node
}

fn percentage(sample: SpeedSample) -> f32 {
    let ideal = sample.ideal_micros as f64 / 1_000_000.0;
    if ideal > 0.0 {
        ((sample.actual_ticks as f64 / ideal) * 100.0) as f32
    } else {
        100.0
    }
}

#[test]
fn a_new_scheduler_is_stopped_at_its_defaults() {
    let node = MachineNode::new(123);
    assert!(!node.is_running());
    assert!(!node.tick_instantly);
    assert_eq!(node.previous_time, 123);
    assert_eq!(node.remaining_micros, 0);
    assert_eq!(node.speed_accum_start, 123);
    assert_eq!(node.sum_actual_ticks, 0);
    assert_eq!(node.sum_ideal_micros, 0);
    assert_eq!(node.instructions_per_second, 100);
    assert_eq!(node.speed_interval_micros, 500_000);
}

#[test]
fn start_and_stop_flip_the_state() {
    let mut node = MachineNode::new(0);
    node.start();
    assert!(node.is_running());
    assert!(node.tick_instantly);
    node.stop();
    assert!(!node.is_running());
    assert!(!node.tick_instantly);
}

#[test]
fn a_stopped_scheduler_idles_and_forgets_the_gap() {
    let mut node = MachineNode::new(0);
    node.remaining_micros = 999;
    node.sum_actual_ticks = 5;
    node.sum_ideal_micros = 6;
    assert_eq!(node.run_ticks(5_000_000, None), Step::Idle);
    assert_eq!(node.previous_time, 5_000_000);
    assert_eq!(node.remaining_micros, 0);
    assert_eq!(node.speed_accum_start, 5_000_000);
    assert_eq!(node.sum_actual_ticks, 0);
    assert_eq!(node.sum_ideal_micros, 0);
    assert!(!node.is_running());
}

#[test]
fn instant_tick_after_start() {
    let mut node = MachineNode::new(1_000);
    node.start();
    assert_eq!(node.run_ticks(1_000, None), Step::Instant);
    assert!(node.is_running());
    assert!(!node.tick_instantly);
    assert_eq!(node.previous_time, 1_000);
    assert_eq!(node.remaining_micros, 0);
    assert_eq!(node.sum_actual_ticks, 0);
    assert_eq!(node.sum_ideal_micros, 0);
    assert_eq!(node.run_ticks(1_000, None), Step::Batch { ticks: 0, speed: None });
}

#[test]
fn instant_tick_ignores_a_long_gap_and_a_cap() {
    let mut node = MachineNode::new(0);
    node.start();
    assert_eq!(node.run_ticks(60_000_000, Some(0)), Step::Instant);
    assert_eq!(node.previous_time, 60_000_000);
    assert_eq!(node.remaining_micros, 0);
}

#[test]
fn ticks_follow_the_rate_and_the_rest_is_carried() {
    let mut node = running(0, 100);
    assert_eq!(node.run_ticks(16_000, None), Step::Batch { ticks: 1, speed: None });
    assert_eq!(node.remaining_micros, 600_000);
    assert_eq!(node.run_ticks(32_000, None), Step::Batch { ticks: 2, speed: None });
    assert_eq!(node.remaining_micros, 200_000);
    assert_eq!(node.run_ticks(33_000, None), Step::Batch { ticks: 0, speed: None });
    assert_eq!(node.remaining_micros, 300_000);
    assert_eq!(node.previous_time, 33_000);
}

#[test]
fn no_tick_is_lost_to_rounding() {
    let mut node = running(0, 60);
    node.speed_interval_micros = u32::MAX;
    let mut now: u64 = 0;
    let mut total: u64 = 0;
    for frame in 0..1000u64 {
        now += 16_000 + (frame * 7919) % 1_700;
        match node.run_ticks(now, None) {
            Step::Batch { ticks, .. } => total += ticks,
            other => panic!("unexpected step {:?}", other),
        }
        assert!(node.remaining_micros < 1_000_000);
    }
    assert_eq!(total * 1_000_000 + node.remaining_micros, now * 60);
    assert_eq!(total, now * 60 / 1_000_000);
}

#[test]
fn the_cap_defers_ticks_into_the_carry() {
    let mut node = running(0, 100);
    // 100 ms at 100 ticks per second ask for 10 ticks; 4 are affordable.
    assert_eq!(node.run_ticks(100_000, Some(4)), Step::Batch { ticks: 4, speed: None });
    // 6 deferred ticks stand for 60 000 microseconds.
    assert_eq!(node.remaining_micros, 60_000);
}

#[test]
fn the_cap_adds_to_what_was_already_carried() {
    let mut node = running(0, 3);
    node.speed_interval_micros = u32::MAX;
    node.remaining_micros = 999_999;
    // 2 s at 3 per second: 6 000 000 + 999 999 owed, 6 ticks and 999 999 left.
    assert_eq!(node.run_ticks(2_000_000, Some(1)), Step::Batch { ticks: 1, speed: None });
    // 5 deferred ticks: 5 000 000 / 3 = 1 666 666.
    assert_eq!(node.remaining_micros, 999_999 + 1_666_666);
}

#[test]
fn a_cap_that_is_not_reached_changes_nothing() {
    let mut capped = running(0, 100);
    let mut free = running(0, 100);
    assert_eq!(capped.run_ticks(100_000, Some(10)), free.run_ticks(100_000, None));
    assert_eq!(capped, free);
}

#[test]
fn a_cap_of_zero_runs_nothing_and_keeps_the_time() {
    let mut node = running(0, 1_000);
    assert_eq!(node.run_ticks(10_000, Some(0)), Step::Batch { ticks: 0, speed: None });
    assert_eq!(node.remaining_micros, 10_000);
}

#[test]
fn a_rate_of_zero_is_never_capped() {
    let mut node = running(0, 0);
    node.remaining_micros = 3_500_000;
    assert_eq!(node.run_ticks(1_000, Some(1)), Step::Batch { ticks: 3, speed: None });
    assert_eq!(node.remaining_micros, 500_000);
}

#[test]
fn sums_saturate() {
    let mut node = running(0, 2);
    node.speed_interval_micros = u32::MAX;
    node.remaining_micros = 7;
    let step = node.run_ticks(u64::MAX, None);
    assert_eq!(step, Step::Batch { ticks: u64::MAX / 1_000_000, speed: Some(SpeedSample {
        actual_ticks: u64::MAX / 1_000_000,
        ideal_micros: u64::MAX,
    }) });
    assert_eq!(node.remaining_micros, u64::MAX % 1_000_000);
}

#[test]
fn the_reclaimed_time_saturates() {
    let mut node = running(0, 1);
    node.remaining_micros = u64::MAX;
    // u64::MAX tick-micros owed; all but one tick deferred.
    let wanted = u64::MAX / 1_000_000;
    assert_eq!(node.run_ticks(0, Some(1)), Step::Batch { ticks: 1, speed: None });
    let reclaimed = (wanted - 1) * 1_000_000;
    assert_eq!(node.remaining_micros, u64::MAX % 1_000_000 + reclaimed);
}

#[test]
fn a_clock_that_goes_back_counts_as_no_time() {
    let mut node = running(10_000, 100);
    assert_eq!(node.elapsed(4_000), 0);
    assert_eq!(node.run_ticks(4_000, None), Step::Batch { ticks: 0, speed: None });
    assert_eq!(node.previous_time, 4_000);
    assert_eq!(node.remaining_micros, 0);
}

#[test]
fn elapsed_is_the_time_since_the_last_step() {
    let node = running(1_000, 100);
    assert_eq!(node.elapsed(1_000), 0);
    assert_eq!(node.elapsed(17_500), 16_500);
}

#[test]
fn speed_telemetry_at_the_target_rate() {
    let mut node = running(0, 100);
    let mut now: u64 = 0;
    let mut sample = None;
    while sample.is_none() {
        now += 10_000;
        match node.run_ticks(now, None) {
            Step::Batch { ticks, speed } => {
                assert_eq!(ticks, 1);
                sample = speed;
            },
            other => panic!("unexpected step {:?}", other),
        }
    }
    assert_eq!(now, 500_000);
    let sample = sample.unwrap();
    assert_eq!(sample, SpeedSample { actual_ticks: 50, ideal_micros: 50_000_000 });
    assert!((percentage(sample) - 100.0).abs() < 1e-4);
    assert_eq!(node.speed_accum_start, 500_000);
    assert_eq!(node.sum_actual_ticks, 0);
    assert_eq!(node.sum_ideal_micros, 0);
}

#[test]
fn speed_telemetry_under_a_cap() {
    let mut node = running(0, 100);
    assert_eq!(node.run_ticks(250_000, Some(5)), Step::Batch { ticks: 5, speed: None });
    assert_eq!(node.sum_actual_ticks, 5);
    assert_eq!(node.sum_ideal_micros, 25_000_000);
    let step = node.run_ticks(500_000, Some(5));
    let sample = SpeedSample { actual_ticks: 10, ideal_micros: 50_000_000 };
    assert_eq!(step, Step::Batch { ticks: 5, speed: Some(sample) });
    assert!((percentage(sample) - 20.0).abs() < 1e-4);
}

#[test]
fn a_window_without_time_shows_full_speed() {
    let mut node = running(0, 100);
    node.speed_interval_micros = 0;
    let step = node.run_ticks(0, None);
    let sample = SpeedSample { actual_ticks: 0, ideal_micros: 0 };
    assert_eq!(step, Step::Batch { ticks: 0, speed: Some(sample) });
    assert_eq!(percentage(sample), 100.0);
}

#[test]
fn reset_time_fields_keeps_the_configuration() {
    let mut node = running(0, 250);
    node.speed_interval_micros = 1_000;
    node.run_ticks(300, None);
    node.reset_time_fields(900);
    assert_eq!(node.previous_time, 900);
    assert_eq!(node.remaining_micros, 0);
    assert_eq!(node.speed_accum_start, 900);
    assert_eq!(node.sum_actual_ticks, 0);
    assert_eq!(node.sum_ideal_micros, 0);
    assert!(node.is_running());
    assert!(!node.tick_instantly);
    assert_eq!(node.instructions_per_second, 250);
    assert_eq!(node.speed_interval_micros, 1_000);
}

#[test]
fn only_the_last_tick_of_a_batch_is_signalled_as_last() {
    assert_eq!(signal_for_tick(0, 1), Signal::LastTicked);
    assert_eq!(signal_for_tick(0, 3), Signal::Ticked);
    assert_eq!(signal_for_tick(1, 3), Signal::Ticked);
    assert_eq!(signal_for_tick(2, 3), Signal::LastTicked);
    assert_eq!(signal_for_tick(u64::MAX - 1, u64::MAX), Signal::LastTicked);
}
