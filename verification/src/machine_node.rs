//! The tick scheduler: turns the irregular times at which the host calls
//! into the number of machine ticks to run.

use vstd::prelude::*;

verus! {

/// Microseconds in a second; also the tick-micros that make one tick.
pub const MICROS_PER_SECOND: u64 = 1_000_000;

/// `n` held to the range of `u64`.
pub open spec fn saturate(n: int) -> u64 {
    if n > u64::MAX {
        u64::MAX
    } else if n < 0 {
        0
    } else {
        n as u64
    }
}

/// The totals of one closed speed window. The speed reached is
/// `actual_ticks` out of `ideal_micros / 1_000_000` ticks.
#[derive(Clone, Copy, Debug, PartialEq, Eq, Structural)]
pub struct SpeedSample {
    /// Ticks run in the window.
    pub actual_ticks: u64,
    /// Ticks that the target rate asked for in the window, in millionths.
    pub ideal_micros: u64,
}

/// What the host has to do after a step.
#[derive(Clone, Copy, Debug, PartialEq, Eq, Structural)]
pub enum Step {
    /// The machine is stopped: run no tick.
    Idle,
    /// The first step after a start: run exactly one tick, the last of its
    /// frame.
    Instant,
    /// Run `ticks` ticks. `speed` holds the totals of the speed window where
    /// this step closed it.
    Batch { ticks: u64, speed: Option<SpeedSample> },
}

/// The event that the host signals after a tick.
#[derive(Clone, Copy, Debug, PartialEq, Eq, Structural)]
pub enum Signal {
    Ticked,
    LastTicked,
}

/// The scheduler's state. Times are microseconds of a monotonic clock.
#[derive(Clone, Copy, Debug, PartialEq, Eq, Structural)]
pub struct MachineNode {
    /// Whether ticking is enabled.
    pub run: bool,
    /// Set by a start, cleared by the step that follows it.
    pub tick_instantly: bool,
    /// The time of the last step.
    pub previous_time: u64,
    /// What the last step left over, in tick-micros (microseconds times the
    /// rate): the part of a tick that is carried into the next step.
    pub remaining_micros: u64,
    /// When the open speed window began.
    pub speed_accum_start: u64,
    /// Ticks run in the open speed window.
    pub sum_actual_ticks: u64,
    /// Ticks asked for in the open speed window, in millionths.
    pub sum_ideal_micros: u64,
    /// The target rate, in ticks per second.
    pub instructions_per_second: u32,
    /// The length of a speed window.
    pub speed_interval_micros: u32,
}

impl MachineNode {
    /// The state once ticking is enabled: the next step runs one tick at once.
    pub open spec fn started(self) -> MachineNode {
        MachineNode { run: true, tick_instantly: true, ..self }
    }

    /// The state once ticking is disabled.
    pub open spec fn stopped(self) -> MachineNode {
        MachineNode { run: false, tick_instantly: false, ..self }
    }

    /// The state with its pacing and speed totals begun anew at `current_time`.
    pub open spec fn rewound(self, current_time: u64) -> MachineNode {
        MachineNode {
            previous_time: current_time,
            remaining_micros: 0,
            speed_accum_start: current_time,
            sum_actual_ticks: 0,
            sum_ideal_micros: 0,
            ..self
        }
    }

    /// Microseconds from the last step to `current_time`.
    pub open spec fn elapsed_to(self, current_time: u64) -> u64 {
        saturate(current_time - self.previous_time)
    }

    /// Tick-micros that the time to `current_time` adds.
    pub open spec fn earned(self, current_time: u64) -> u64 {
        saturate(self.elapsed_to(current_time) * self.instructions_per_second)
    }

    /// Tick-micros owed at `current_time`: earned and carried.
    pub open spec fn owed(self, current_time: u64) -> u64 {
        saturate(self.earned(current_time) + self.remaining_micros)
    }

    /// Ticks that the target rate asks for at `current_time`.
    pub open spec fn wanted_ticks(self, current_time: u64) -> u64 {
        self.owed(current_time) / MICROS_PER_SECOND
    }

    /// Whether `max_ticks` cuts the step at `current_time` short. A rate of
    /// zero is never cut.
    pub open spec fn capped(self, current_time: u64, max_ticks: Option<u64>) -> bool {
        match max_ticks {
            Some(max) => self.instructions_per_second != 0 && self.wanted_ticks(current_time)
                > max,
            None => false,
        }
    }

    /// Ticks that the step at `current_time` grants.
    pub open spec fn granted_ticks(self, current_time: u64, max_ticks: Option<u64>) -> u64 {
        if self.capped(current_time, max_ticks) {
            max_ticks->0
        } else {
            self.wanted_ticks(current_time)
        }
    }

    /// Ticks that the step at `current_time` puts off.
    pub open spec fn deferred_ticks(self, current_time: u64, max_ticks: Option<u64>) -> u64 {
        (self.wanted_ticks(current_time) - self.granted_ticks(current_time, max_ticks)) as u64
    }

    /// Microseconds that the deferred ticks stand for at the target rate.
    pub open spec fn reclaimed_micros(self, current_time: u64, max_ticks: Option<u64>) -> u64 {
        if self.capped(current_time, max_ticks) {
            saturate(self.deferred_ticks(current_time, max_ticks) * MICROS_PER_SECOND)
                / (self.instructions_per_second as u64)
        } else {
            0
        }
    }

    /// What the step at `current_time` carries into the next one.
    pub open spec fn carried(self, current_time: u64, max_ticks: Option<u64>) -> u64 {
        saturate(
            self.owed(current_time) % MICROS_PER_SECOND + self.reclaimed_micros(
                current_time,
                max_ticks,
            ),
        )
    }

    /// Whether the step at `current_time` closes the speed window.
    pub open spec fn window_closes(self, current_time: u64) -> bool {
        saturate(current_time - self.speed_accum_start) >= self.speed_interval_micros
    }

    /// The speed totals with the step at `current_time` counted in.
    pub open spec fn totals(self, current_time: u64, max_ticks: Option<u64>) -> SpeedSample {
        SpeedSample {
            actual_ticks: saturate(
                self.sum_actual_ticks + self.granted_ticks(current_time, max_ticks),
            ),
            ideal_micros: saturate(self.sum_ideal_micros + self.earned(current_time)),
        }
    }

    /// The state after a step at `current_time`, and what the host is to do.
    pub open spec fn stepped(self, current_time: u64, max_ticks: Option<u64>) -> (
        MachineNode,
        Step,
    ) {
        if !self.run {
            (self.rewound(current_time), Step::Idle)
        } else if self.tick_instantly {
            (MachineNode { tick_instantly: false, ..self.rewound(current_time) }, Step::Instant)
        } else {
            let totals = self.totals(current_time, max_ticks);
            let closes = self.window_closes(current_time);
            (
                MachineNode {
                    previous_time: current_time,
                    remaining_micros: self.carried(current_time, max_ticks),
                    speed_accum_start: if closes {
                        current_time
                    } else {
                        self.speed_accum_start
                    },
                    sum_actual_ticks: if closes {
                        0
                    } else {
                        totals.actual_ticks
                    },
                    sum_ideal_micros: if closes {
                        0
                    } else {
                        totals.ideal_micros
                    },
                    ..self
                },
                Step::Batch {
                    ticks: self.granted_ticks(current_time, max_ticks),
                    speed: if closes {
                        Some(totals)
                    } else {
                        None
                    },
                },
            )
        }
    }

    /// A stopped scheduler at 100 ticks per second, with speed windows of
    /// half a second.
    pub fn new(current_time: u64) -> (node: Self)
        ensures
            node == (MachineNode {
                run: false,
                tick_instantly: false,
                previous_time: current_time,
                remaining_micros: 0,
                speed_accum_start: current_time,
                sum_actual_ticks: 0,
                sum_ideal_micros: 0,
                instructions_per_second: 100,
                speed_interval_micros: 500_000,
            }),
    {
        MachineNode {
            run: false,
            tick_instantly: false,
            previous_time: current_time,
            remaining_micros: 0,
            speed_accum_start: current_time,
            sum_actual_ticks: 0,
            sum_ideal_micros: 0,
            instructions_per_second: 100,
            speed_interval_micros: 500_000,
        }
    }

    /// Whether ticking is enabled.
    pub fn is_running(&self) -> (running: bool)
        ensures
            running == self.run,
    {
        self.run
    }

    /// Enables ticking; the next step runs one tick at once.
    pub fn start(&mut self)
        ensures
            *final(self) == old(self).started(),
    {
        self.tick_instantly = true;
        self.run = true;
    }

    /// Disables ticking.
    pub fn stop(&mut self)
        ensures
            *final(self) == old(self).stopped(),
    {
        self.run = false;
        self.tick_instantly = false;
    }

    /// Begins pacing and speed totals anew at `current_time`. Whether the
    /// machine runs does not change.
    pub fn reset_time_fields(&mut self, current_time: u64)
        ensures
            *final(self) == old(self).rewound(current_time),
    {
        self.previous_time = current_time;
        self.remaining_micros = 0;
        self.speed_accum_start = current_time;
        self.sum_actual_ticks = 0;
        self.sum_ideal_micros = 0;
    }

    /// Microseconds from the last step to `current_time`; zero where the
    /// clock has gone back.
    pub fn elapsed(&self, current_time: u64) -> (micros: u64)
        ensures
            micros == self.elapsed_to(current_time),
    {
        current_time.saturating_sub(self.previous_time)
    }

    /// One step of the scheduler, at `current_time`. `max_ticks` is the most
    /// ticks that the host can afford in the time `elapsed(current_time)`,
    /// where it has measured what a tick costs.
    ///
    /// A stopped machine, or one just started, has its pacing and speed
    /// totals begun anew; one just started then runs a single tick.
    /// Otherwise the elapsed time times the rate, with what the last step
    /// carried, gives the ticks to run and a new carry below one tick. Ticks
    /// over `max_ticks` are put off: the time that they stand for is added
    /// to the carry. All sums saturate.
    pub fn run_ticks(&mut self, current_time: u64, max_ticks: Option<u64>) -> (step: Step)
        ensures
            (*final(self), step) == old(self).stepped(current_time, max_ticks),
            step matches Step::Batch { .. } && !old(self).capped(current_time, max_ticks)
                ==> final(self).remaining_micros < MICROS_PER_SECOND,
    {
        if !self.run || self.tick_instantly {
            self.reset_time_fields(current_time);
            if self.tick_instantly && self.run {
                self.tick_instantly = false;
                return Step::Instant;
            }
            return Step::Idle;
        }
        let delta_time: u64 = self.elapsed(current_time);
        let rate: u64 = self.instructions_per_second as u64;
        let earned: u64 = match delta_time.checked_mul(rate) {
            Some(product) => product,
            None => u64::MAX,
        };
        let tick_micros: u64 = earned.saturating_add(self.remaining_micros);
        let mut ticks_to_run: u64 = tick_micros / MICROS_PER_SECOND;
        let mut remaining: u64 = tick_micros % MICROS_PER_SECOND;
        if let Some(max) = max_ticks {
            if rate != 0 && ticks_to_run > max {
                let removed: u64 = ticks_to_run - max;
                let micros_reclaim: u64 = match removed.checked_mul(MICROS_PER_SECOND) {
                    Some(product) => product,
                    None => u64::MAX,
                } / rate;
                remaining = remaining.saturating_add(micros_reclaim);
                ticks_to_run = max;
            }
        }
        let window_age: u64 = current_time.saturating_sub(self.speed_accum_start);
        let totals = SpeedSample {
            actual_ticks: self.sum_actual_ticks.saturating_add(ticks_to_run),
            ideal_micros: self.sum_ideal_micros.saturating_add(earned),
        };
        self.previous_time = current_time;
        self.remaining_micros = remaining;
        if window_age >= self.speed_interval_micros as u64 {
            self.sum_actual_ticks = 0;
            self.sum_ideal_micros = 0;
            self.speed_accum_start = current_time;
            Step::Batch { ticks: ticks_to_run, speed: Some(totals) }
        } else {
            self.sum_actual_ticks = totals.actual_ticks;
            self.sum_ideal_micros = totals.ideal_micros;
            Step::Batch { ticks: ticks_to_run, speed: None }
        }
    }
}

/// The signal after tick `index` of a batch of `ticks`: the last tick of a
/// batch is signalled as such, every other as a plain tick.
pub fn signal_for_tick(index: u64, ticks: u64) -> (signal: Signal)
    requires
        index < ticks,
    ensures
        signal == if index + 1 == ticks {
            Signal::LastTicked
        } else {
            Signal::Ticked
        },
{
    if index == ticks - 1 {
        Signal::LastTicked
    } else {
        Signal::Ticked
    }
}

/// Ticks that a step hands to the host.
pub open spec fn step_ticks(step: Step) -> nat {
    match step {
        Step::Idle => 0,
        Step::Instant => 1,
        Step::Batch { ticks, .. } => ticks as nat,
    }
}

/// Whether `times` begins at or after `start` and never goes back.
pub open spec fn ascending(start: u64, times: Seq<u64>) -> bool {
    &&& times.len() > 0 ==> start <= times[0]
    &&& forall|i: int, j: int| 0 <= i <= j < times.len() ==> times[i] <= times[j]
}

impl MachineNode {
    /// The state after one uncapped step at each of `times`.
    pub open spec fn after_steps(self, times: Seq<u64>) -> MachineNode
        decreases times.len(),
    {
        if times.len() == 0 {
            self
        } else {
            self.after_steps(times.drop_last()).stepped(times.last(), None).0
        }
    }

    /// The ticks that uncapped steps at `times` grant, all told.
    pub open spec fn ticks_over(self, times: Seq<u64>) -> nat
        decreases times.len(),
    {
        if times.len() == 0 {
            0
        } else {
            self.ticks_over(times.drop_last()) + step_ticks(
                self.after_steps(times.drop_last()).stepped(times.last(), None).1,
            )
        }
    }
}

/// No tick is lost to rounding. Let a running scheduler take uncapped steps
/// at ascending times, over a span short enough that no sum saturates. Then
/// the ticks granted, in tick-micros, and the carry left at the end make up
/// exactly the span times the rate and the carry at the start; so the ticks
/// granted are the span times the rate, rounded down to whole ticks.
pub proof fn lemma_accumulator_conserves(node: MachineNode, times: Seq<u64>)
    requires
        node.run,
        !node.tick_instantly,
        ascending(node.previous_time, times),
        times.len() > 0 ==> (times.last() - node.previous_time) * node.instructions_per_second
            + node.remaining_micros <= u64::MAX,
    ensures
        node.after_steps(times).run,
        !node.after_steps(times).tick_instantly,
        node.after_steps(times).instructions_per_second == node.instructions_per_second,
        node.after_steps(times).previous_time == if times.len() == 0 {
            node.previous_time
        } else {
            times.last()
        },
        MICROS_PER_SECOND * node.ticks_over(times) + node.after_steps(times).remaining_micros
            == (node.after_steps(times).previous_time - node.previous_time)
            * node.instructions_per_second + node.remaining_micros,
        node.remaining_micros < MICROS_PER_SECOND ==> node.after_steps(times).remaining_micros
            < MICROS_PER_SECOND,
    decreases times.len(),
{
    if times.len() > 0 {
        let earlier = times.drop_last();
        let now = times.last();
        let rate = node.instructions_per_second as int;
        let mid = node.after_steps(earlier);
        assert(ascending(node.previous_time, earlier));
        if earlier.len() > 0 {
            assert(earlier.last() == times[times.len() - 2]);
            assert(earlier.last() <= now);
            assert((earlier.last() - node.previous_time) * rate <= (now - node.previous_time)
                * rate) by (nonlinear_arith)
                requires
                    earlier.last() <= now,
                    node.previous_time <= earlier.last(),
                    0 <= rate,
            ;
        } else {
            assert(times[0] == now);
        }
        lemma_accumulator_conserves(node, earlier);
        assert(mid.previous_time <= now);
        let span = now - mid.previous_time;
        assert((now - node.previous_time) * rate == (mid.previous_time - node.previous_time)
            * rate + span * rate) by (nonlinear_arith)
            requires
                span == now - mid.previous_time,
        ;
        assert(0 <= span * rate) by (nonlinear_arith)
            requires
                0 <= span,
                0 <= rate,
        ;
        assert(mid.elapsed_to(now) == span);
        assert(mid.earned(now) == span * rate);
        assert(mid.owed(now) == span * rate + mid.remaining_micros);
        assert(!mid.capped(now, None));
        assert(mid.reclaimed_micros(now, None) == 0);
    }
}

/// The cap puts ticks off and loses none of their time. Where a step is cut
/// short, the ticks granted and the ticks deferred make up the ticks wanted,
/// and the carry grows by the microseconds that the deferred ticks stand for
/// at the target rate (rounded down, and held to the range of `u64`).
pub proof fn lemma_cap_defers(node: MachineNode, current_time: u64, max_ticks: u64)
    requires
        node.run,
        !node.tick_instantly,
        node.capped(current_time, Some(max_ticks)),
    ensures
        node.stepped(current_time, Some(max_ticks)).1 matches Step::Batch { ticks, .. } && ticks
            == max_ticks,
        max_ticks + node.deferred_ticks(current_time, Some(max_ticks)) == node.wanted_ticks(
            current_time,
        ),
        node.deferred_ticks(current_time, Some(max_ticks)) > 0,
        node.stepped(current_time, Some(max_ticks)).0.remaining_micros == saturate(
            node.owed(current_time) % MICROS_PER_SECOND + saturate(
                node.deferred_ticks(current_time, Some(max_ticks)) * MICROS_PER_SECOND,
            ) / (node.instructions_per_second as u64),
        ),
        node.stepped(current_time, Some(max_ticks)).0.remaining_micros >= node.owed(current_time)
            % MICROS_PER_SECOND,
{
}

/// A step alone never grants more than the cap: the work of one step is
/// bounded by what the host said it can afford.
pub proof fn lemma_cap_bounds(node: MachineNode, current_time: u64, max_ticks: u64)
    requires
        node.run,
        !node.tick_instantly,
        node.instructions_per_second != 0,
    ensures
        step_ticks(node.stepped(current_time, Some(max_ticks)).1) <= max_ticks,
{
}

/// A start shows at once. Whatever the state was, the step after a start
/// grants exactly one tick, however much or little time has passed and
/// whatever the cap; it leaves the scheduler running with nothing carried
/// and no tick counted toward the speed, and the steps after it pace as usual.
pub proof fn lemma_start_ticks_once(node: MachineNode, current_time: u64, max_ticks: Option<u64>)
    ensures
        node.started().stepped(current_time, max_ticks).1 == Step::Instant,
        step_ticks(node.started().stepped(current_time, max_ticks).1) == 1,
        node.started().stepped(current_time, max_ticks).0 == (MachineNode {
            run: true,
            tick_instantly: false,
            ..node.rewound(current_time)
        }),
        node.stopped().stepped(current_time, max_ticks) == (
            node.stopped().rewound(current_time),
            Step::Idle,
        ),
{
}

/// The speed totals follow the rate. Let a running scheduler whose speed
/// window has just opened take uncapped steps at ascending times, none but
/// the last of which may close the window, over a span short enough that no
/// sum saturates. Then the totals with the last step counted in hold the
/// ticks run and the ticks asked for, and the two differ by the carries
/// alone: by less than one tick. A window run at the target rate thus shows
/// a speed of 100 percent to within one tick.
pub proof fn lemma_speed_follows_rate(node: MachineNode, times: Seq<u64>)
    requires
        node.run,
        !node.tick_instantly,
        node.sum_actual_ticks == 0,
        node.sum_ideal_micros == 0,
        node.remaining_micros < MICROS_PER_SECOND,
        times.len() > 0,
        ascending(node.previous_time, times),
        forall|i: int| 0 <= i < times.len() - 1 ==> !node.window_closes(#[trigger] times[i]),
        (times.last() - node.previous_time) * node.instructions_per_second
            + node.remaining_micros <= u64::MAX,
    ensures
        ({
            let before = node.after_steps(times.drop_last());
            let totals = before.totals(times.last(), None);
            &&& totals.ideal_micros == (times.last() - node.previous_time)
                * node.instructions_per_second
            &&& MICROS_PER_SECOND * totals.actual_ticks + node.after_steps(
                times,
            ).remaining_micros == totals.ideal_micros + node.remaining_micros
            &&& -MICROS_PER_SECOND < MICROS_PER_SECOND * totals.actual_ticks
                - totals.ideal_micros < MICROS_PER_SECOND
            &&& before.window_closes(times.last()) ==> node.after_steps(times.drop_last()).stepped(
                times.last(),
                None,
            ).1 == (Step::Batch {
                ticks: before.granted_ticks(times.last(), None),
                speed: Some(totals),
            })
        }),
    decreases times.len(),
{
    let earlier = times.drop_last();
    let now = times.last();
    let rate = node.instructions_per_second as int;
    let before = node.after_steps(earlier);
    assert(ascending(node.previous_time, earlier));
    if earlier.len() > 0 {
        assert(earlier.last() == times[times.len() - 2]);
        assert(earlier.last() <= now);
        assert((earlier.last() - node.previous_time) * rate <= (now - node.previous_time) * rate)
            by (nonlinear_arith)
            requires
                earlier.last() <= now,
                node.previous_time <= earlier.last(),
                0 <= rate,
        ;
        assert forall|i: int| 0 <= i < earlier.len() - 1 implies !node.window_closes(
            #[trigger] earlier[i],
        ) by {
            assert(earlier[i] == times[i]);
        }
        lemma_speed_follows_rate(node, earlier);
        lemma_accumulator_conserves(node, earlier);
        lemma_window_stays_open(node, earlier);
        let start = node.after_steps(earlier.drop_last());
        assert(!node.window_closes(times[times.len() - 2]));
        assert(!start.window_closes(earlier.last()));
        assert(before.sum_actual_ticks == start.totals(earlier.last(), None).actual_ticks);
        assert(before.sum_ideal_micros == start.totals(earlier.last(), None).ideal_micros);
    } else {
        assert(times[0] == now);
        assert(before == node);
    }
    lemma_accumulator_conserves(node, earlier);
    lemma_accumulator_conserves(node, times);
    let span = now - before.previous_time;
    assert((now - node.previous_time) * rate == (before.previous_time - node.previous_time) * rate
        + span * rate) by (nonlinear_arith)
        requires
            span == now - before.previous_time,
    ;
    assert(0 <= span * rate) by (nonlinear_arith)
        requires
            0 <= span,
            0 <= rate,
    ;
    assert(0 <= (before.previous_time - node.previous_time) * rate) by (nonlinear_arith)
        requires
            0 <= before.previous_time - node.previous_time,
            0 <= rate,
    ;
    assert(before.elapsed_to(now) == span);
    assert(before.earned(now) == span * rate);
    assert(before.owed(now) == span * rate + before.remaining_micros);
    assert(!before.capped(now, None));
}

/// Steps that do not close the speed window leave its start where it was.
proof fn lemma_window_stays_open(node: MachineNode, times: Seq<u64>)
    requires
        node.run,
        !node.tick_instantly,
        times.len() > 0,
        forall|i: int| 0 <= i < times.len() - 1 ==> !node.window_closes(#[trigger] times[i]),
    ensures
        node.after_steps(times.drop_last()).run,
        !node.after_steps(times.drop_last()).tick_instantly,
        node.after_steps(times.drop_last()).speed_accum_start == node.speed_accum_start,
        node.after_steps(times.drop_last()).speed_interval_micros == node.speed_interval_micros,
    decreases times.len(),
{
    if times.len() > 1 {
        let earlier = times.drop_last();
        assert forall|i: int| 0 <= i < earlier.len() - 1 implies !node.window_closes(
            #[trigger] earlier[i],
        ) by {
            assert(earlier[i] == times[i]);
        }
        lemma_window_stays_open(node, earlier);
        assert(earlier.last() == times[times.len() - 2]);
        assert(!node.window_closes(times[times.len() - 2]));
    }
}

} // verus!
