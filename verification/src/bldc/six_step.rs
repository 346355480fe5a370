//! The STM32L476 six-step BLDC controller's decisions.
//!
//! TIM1 drives three main/complementary output pairs; the Hall state selects
//! one of six commutation rows of `TIM1_CCER`. An open-loop start advances the
//! canonical electrical sequence at a fixed cadence for eight electrical
//! revolutions, then Hall feedback takes over and a bounded proportional loop
//! sets the PWM duty from the Hall-edge period. A motor-fault or over-current
//! input, a Hall state that stays invalid, or a stall ends in a fault, which
//! the firmware answers by gating the outputs off before reporting it.
//!
//! One call of [`SixStepController::step`] is one pass of the firmware's
//! control loop: it takes the two GPIO input registers and returns what the
//! pass decided; [`plan`] orders that into the register writes, UART reports
//! and halt the firmware performs, gating the outputs off before any fault is
//! reported.
use vstd::prelude::*;

verus! {

/// `GPIOA` input: motor-fault line.
pub const MOTOR_FAULT: u32 = 0x80;

/// `GPIOB` input: over-current line.
pub const OVER_CURRENT: u32 = 0x80;

/// `GPIOA` inputs carrying the three Hall lines (bits 1..3).
pub const HALL_MASK: u32 = 0x0e;

/// `TIM1_ARR`: PWM period in timer ticks.
pub const PWM_PERIOD: u32 = 999;

/// Lowest duty the speed loop may command.
pub const MIN_DUTY: u32 = 180;

/// Highest duty the speed loop may command.
pub const MAX_DUTY: u32 = 720;

/// Duty before the speed loop runs.
pub const INITIAL_DUTY: u32 = 300;

/// Open-loop steps before Hall control takes over (eight electrical turns).
pub const STARTUP_STEPS: u32 = 48;

/// Loop passes per open-loop step.
pub const STARTUP_TICKS_PER_STEP: u32 = 100;

/// Consecutive invalid Hall readings tolerated.
pub const INVALID_HALL_LIMIT: u32 = 20_000;

/// Loop passes without a Hall edge that count as a stall once running.
pub const STALL_LIMIT: u32 = 4_000_000;

/// Hall edges after which the target speed is reported.
pub const TARGET_EDGES: u32 = 8;

/// `TIM1_CCER` enable bits: main (`CCxE`) and complementary (`CCxNE`) output
/// of each phase.
pub const CC1E: u32 = 0x001;

pub const CC1NE: u32 = 0x004;

pub const CC2E: u32 = 0x010;

pub const CC2NE: u32 = 0x040;

pub const CC3E: u32 = 0x100;

pub const CC3NE: u32 = 0x400;

/// The `TIM1_CCER` row for Hall state `hall`: one sourcing main output and
/// one sinking complementary output (`A+B-`, `B+C-`, `B+A-`, `C+A-`, `A+C-`,
/// `C+B-` for Hall states 1 to 6); the invalid states 0 and 7 drive nothing.
pub open spec fn commutation_row(hall: u32) -> u32 {
    if hall == 1 {
        CC1E | CC2NE
    } else if hall == 2 {
        CC2E | CC3NE
    } else if hall == 3 {
        CC2E | CC1NE
    } else if hall == 4 {
        CC3E | CC1NE
    } else if hall == 5 {
        CC1E | CC3NE
    } else if hall == 6 {
        CC3E | CC2NE
    } else {
        0
    }
}

/// The Hall state commanded at open-loop step `k`: the canonical sequence
/// `1, 5, 4, 6, 2, 3`.
pub open spec fn startup_hall(k: int) -> u32 {
    let i = k % 6;
    if i == 0 {
        1
    } else if i == 1 {
        5
    } else if i == 2 {
        4
    } else if i == 3 {
        6
    } else if i == 4 {
        2
    } else {
        3
    }
}

/// The commutation table by Hall state: `TIM1_CCER` rows 0, 0x041 (CC1E,
/// CC2NE: A+ B-), 0x410 (B+ C-), 0x014 (B+ A-), 0x104 (C+ A-), 0x401
/// (A+ C-), 0x140 (C+ B-), 0 for states 0 to 7; and the open-loop start
/// walks the Hall states 1, 5, 4, 6, 2, 3 round and round.
pub proof fn lemma_commutation_table(hall: u32, k: int)
    ensures
        hall < 8 ==> commutation_row(hall) == seq![0u32, 0x041, 0x410, 0x014, 0x104, 0x401, 0x140, 0][hall as int],
        hall >= 8 ==> commutation_row(hall) == 0,
        k >= 0 ==> startup_hall(k) == seq![1u32, 5, 4, 6, 2, 3][k % 6],
{
    lemma_row_bits();
}

/// The speed loop: an edge period of 14000 passes keeps the duty, a shorter
/// period (a faster motor) never yields a lower duty than a longer one, the
/// period counts only up to 28000, and the duty stays in range.
pub proof fn lemma_speed_loop(duty: u32, s1: u32, s2: u32)
    requires
        MIN_DUTY <= duty <= MAX_DUTY,
    ensures
        next_duty(duty, 14_000) == duty,
        s1 <= s2 ==> next_duty(duty, s1) >= next_duty(duty, s2),
        s1 >= 28_000 ==> next_duty(duty, s1) == next_duty(duty, 28_000),
        MIN_DUTY <= next_duty(duty, s1) <= MAX_DUTY,
{
    let p1: int = if s1 < 28_000 { s1 as int } else { 28_000 };
    let p2: int = if s2 < 28_000 { s2 as int } else { 28_000 };
    if s1 <= s2 {
        assert(p1 <= p2);
        assert(trunc_div(14_000 - p1, 256) >= trunc_div(14_000 - p2, 256)) by {
            let a = 14_000 - p1;
            let b = 14_000 - p2;
            assert(a >= b);
            if a >= 0 && b >= 0 {
                assert(a / 256 >= b / 256) by (nonlinear_arith)
                    requires
                        a >= b,
                        b >= 0,
                ;
            } else if a < 0 && b < 0 {
                assert((-b) / 256 >= (-a) / 256) by (nonlinear_arith)
                    requires
                        -b >= -a,
                        -a >= 0,
                ;
            } else {
                assert(a / 256 >= 0) by (nonlinear_arith)
                    requires
                        a >= 0,
                ;
                assert((-b) / 256 >= 0) by (nonlinear_arith)
                    requires
                        -b >= 0,
                ;
            }
        }
    }
}

/// Division truncating toward zero, as the firmware's integer division.
pub open spec fn trunc_div(a: int, b: int) -> int {
    if a >= 0 {
        a / b
    } else {
        -((-a) / b)
    }
}

/// The speed loop's next duty: the previous duty plus the edge-period error
/// `(14000 - min(period, 28000)) / 256`, clamped to `MIN_DUTY..=MAX_DUTY`.
pub open spec fn next_duty(duty: u32, since_edge: u32) -> u32 {
    let period = if since_edge < 28_000 {
        since_edge as int
    } else {
        28_000
    };
    let d = duty + trunc_div(14_000 - period, 256);
    if d < MIN_DUTY {
        MIN_DUTY
    } else if d > MAX_DUTY {
        MAX_DUTY
    } else {
        d as u32
    }
}

/// Why the controller shut the inverter down.
#[derive(Clone, Copy, Debug, PartialEq, Eq)]
pub enum Fault {
    /// The motor-fault input, or no Hall edge for too long while running.
    Stall,
    /// The over-current input.
    Current,
    /// The Hall lines stayed in an invalid state.
    Hall,
}

/// What one control pass decided: the `TIM1_CCER` write, the duty write, the
/// target report and the fault; [`plan`] turns it into the ordered actions
/// the firmware performs.
#[derive(Clone, Copy, Debug, PartialEq, Eq)]
pub struct ControlOutput {
    pub fault: Option<Fault>,
    /// New `TIM1_CCER` value.
    pub ccer: Option<u32>,
    /// New duty for `TIM1_CCR1..3`.
    pub duty: Option<u32>,
    /// Print `TARGET REACHED`.
    pub report_target: bool,
}

/// Nothing to do.
pub open spec fn idle_output() -> ControlOutput {
    ControlOutput { fault: None, ccer: None, duty: None, report_target: false }
}

/// A fault output.
pub open spec fn fault_output(f: Fault) -> ControlOutput {
    ControlOutput { fault: Some(f), ccer: None, duty: None, report_target: false }
}

/// The controller's loop state.
#[derive(Clone, Copy, Debug, PartialEq, Eq)]
pub struct SixStepController {
    pub previous_hall: u32,
    pub since_edge: u32,
    pub invalid_hall: u32,
    pub stationary: u32,
    pub edges: u32,
    pub duty: u32,
    pub startup_ticks: u32,
    pub startup_step: u32,
    pub target_reported: bool,
    /// A fault was raised; the firmware has halted.
    pub halted: bool,
}

/// The controller state after one pass with inputs `gpioa` and `gpiob`, and
/// what the pass asks of the firmware.
pub open spec fn control_step(s: SixStepController, gpioa: u32, gpiob: u32) -> (
    SixStepController,
    ControlOutput,
) {
    if s.halted {
        (s, idle_output())
    } else if gpioa & MOTOR_FAULT != 0 {
        (SixStepController { halted: true, ..s }, fault_output(Fault::Stall))
    } else if gpiob & OVER_CURRENT != 0 {
        (SixStepController { halted: true, ..s }, fault_output(Fault::Current))
    } else if s.startup_step < STARTUP_STEPS {
        let advance = s.startup_ticks + 1 >= STARTUP_TICKS_PER_STEP;
        let step = if advance {
            s.startup_step + 1
        } else {
            s.startup_step as int
        };
        let report = step == STARTUP_STEPS && !s.target_reported;
        (
            SixStepController {
                startup_ticks: if advance {
                    0
                } else {
                    (s.startup_ticks + 1) as u32
                },
                startup_step: step as u32,
                target_reported: s.target_reported || report,
                ..s
            },
            ControlOutput {
                fault: None,
                ccer: if advance {
                    Some(commutation_row(startup_hall(step)))
                } else {
                    None
                },
                duty: None,
                report_target: report,
            },
        )
    } else {
        let hall = (gpioa & HALL_MASK) >> 1u32;
        let since = if s.since_edge == u32::MAX {
            u32::MAX
        } else {
            (s.since_edge + 1) as u32
        };
        if hall == 0 || hall == 7 {
            if s.invalid_hall + 1 > INVALID_HALL_LIMIT {
                (
                    SixStepController { invalid_hall: (s.invalid_hall + 1) as u32, halted: true, ..s },
                    fault_output(Fault::Hall),
                )
            } else {
                (
                    SixStepController {
                        invalid_hall: (s.invalid_hall + 1) as u32,
                        since_edge: since,
                        ..s
                    },
                    idle_output(),
                )
            }
        } else if hall != s.previous_hall {
            let edges = s.edges.wrapping_add(1);
            let duty = next_duty(s.duty, s.since_edge);
            let report = edges == TARGET_EDGES && !s.target_reported;
            (
                SixStepController {
                    invalid_hall: 0,
                    previous_hall: hall,
                    edges,
                    stationary: 0,
                    duty,
                    since_edge: 1,
                    target_reported: s.target_reported || report,
                    ..s
                },
                ControlOutput {
                    fault: None,
                    ccer: Some(commutation_row(hall)),
                    duty: Some(duty),
                    report_target: report,
                },
            )
        } else {
            let stationary = s.stationary.wrapping_add(1);
            if s.edges >= TARGET_EDGES && stationary > STALL_LIMIT {
                (
                    SixStepController { invalid_hall: 0, stationary, halted: true, ..s },
                    ControlOutput {
                        fault: Some(Fault::Stall),
                        ccer: Some(commutation_row(hall)),
                        duty: None,
                        report_target: false,
                    },
                )
            } else {
                (
                    SixStepController { invalid_hall: 0, stationary, since_edge: since, ..s },
                    ControlOutput {
                        fault: None,
                        ccer: Some(commutation_row(hall)),
                        duty: None,
                        report_target: false,
                    },
                )
            }
        }
    }
}

impl SixStepController {
    /// The states the controller can be in: duty inside the loop's range,
    /// open-loop counters inside their cadence, invalid-Hall count below its
    /// limit unless halted.
    pub open spec fn wf(self) -> bool {
        &&& MIN_DUTY <= self.duty <= MAX_DUTY
        &&& self.startup_step <= STARTUP_STEPS
        &&& self.startup_ticks < STARTUP_TICKS_PER_STEP
        &&& (self.halted || self.invalid_hall <= INVALID_HALL_LIMIT)
    }

    /// The state at reset: duty 300, nothing counted, start-up pending.
    pub fn new() -> (r: Self)
        ensures
            r.wf(),
            r == (SixStepController {
                previous_hall: 0,
                since_edge: 0,
                invalid_hall: 0,
                stationary: 0,
                edges: 0,
                duty: INITIAL_DUTY,
                startup_ticks: 0,
                startup_step: 0,
                target_reported: false,
                halted: false,
            }),
    {
        SixStepController {
            previous_hall: 0,
            since_edge: 0,
            invalid_hall: 0,
            stationary: 0,
            edges: 0,
            duty: INITIAL_DUTY,
            startup_ticks: 0,
            startup_step: 0,
            target_reported: false,
            halted: false,
        }
    }

    /// One pass of the control loop.
    pub fn step(&mut self, gpioa: u32, gpiob: u32) -> (r: ControlOutput)
        requires
            old(self).wf(),
        ensures
            (*final(self), r) == control_step(*old(self), gpioa, gpiob),
            final(self).wf(),
    {
        if self.halted {
            return ControlOutput { fault: None, ccer: None, duty: None, report_target: false };
        }
        if gpioa & MOTOR_FAULT != 0 {
            self.halted = true;
            return ControlOutput {
                fault: Some(Fault::Stall),
                ccer: None,
                duty: None,
                report_target: false,
            };
        }
        if gpiob & OVER_CURRENT != 0 {
            self.halted = true;
            return ControlOutput {
                fault: Some(Fault::Current),
                ccer: None,
                duty: None,
                report_target: false,
            };
        }
        if self.startup_step < STARTUP_STEPS {
            let mut ccer = None;
            self.startup_ticks = self.startup_ticks + 1;
            if self.startup_ticks >= STARTUP_TICKS_PER_STEP {
                self.startup_ticks = 0;
                self.startup_step = self.startup_step + 1;
                ccer = Some(commutation(startup_order(self.startup_step)));
            }
            let mut report_target = false;
            if self.startup_step == STARTUP_STEPS && !self.target_reported {
                self.target_reported = true;
                report_target = true;
            }
            return ControlOutput { fault: None, ccer, duty: None, report_target };
        }
        let hall = (gpioa & HALL_MASK) >> 1u32;
        let mut out = ControlOutput { fault: None, ccer: None, duty: None, report_target: false };
        if hall == 0 || hall == 7 {
            self.invalid_hall = self.invalid_hall + 1;
            if self.invalid_hall > INVALID_HALL_LIMIT {
                self.halted = true;
                return ControlOutput {
                    fault: Some(Fault::Hall),
                    ccer: None,
                    duty: None,
                    report_target: false,
                };
            }
        } else {
            self.invalid_hall = 0;
            out.ccer = Some(commutation(hall));
            if hall != self.previous_hall {
                self.previous_hall = hall;
                self.edges = self.edges.wrapping_add(1);
                self.stationary = 0;
                let duty = speed_loop_duty(self.duty, self.since_edge);
                self.duty = duty;
                out.duty = Some(duty);
                self.since_edge = 0;
                if self.edges == TARGET_EDGES && !self.target_reported {
                    self.target_reported = true;
                    out.report_target = true;
                }
            } else {
                self.stationary = self.stationary.wrapping_add(1);
                if self.edges >= TARGET_EDGES && self.stationary > STALL_LIMIT {
                    self.halted = true;
                    out.fault = Some(Fault::Stall);
                    return out;
                }
            }
        }
        self.since_edge = self.since_edge.saturating_add(1);
        out
    }
}

/// The `TIM1_CCER` row for a Hall state.
pub fn commutation(hall: u32) -> (r: u32)
    ensures
        r == commutation_row(hall),
{
    if hall == 1 {
        CC1E | CC2NE
    } else if hall == 2 {
        CC2E | CC3NE
    } else if hall == 3 {
        CC2E | CC1NE
    } else if hall == 4 {
        CC3E | CC1NE
    } else if hall == 5 {
        CC1E | CC3NE
    } else if hall == 6 {
        CC3E | CC2NE
    } else {
        0
    }
}

/// The Hall state commanded at open-loop step `k`.
pub fn startup_order(k: u32) -> (r: u32)
    ensures
        r == startup_hall(k as int),
{
    let order: [u32; 6] = [1, 5, 4, 6, 2, 3];
    order[(k % 6) as usize]
}

/// The speed loop's next duty.
pub fn speed_loop_duty(duty: u32, since_edge: u32) -> (r: u32)
    requires
        duty <= MAX_DUTY,
    ensures
        r == next_duty(duty, since_edge),
        MIN_DUTY <= r <= MAX_DUTY,
{
    let period: i32 = if since_edge < 28_000 {
        since_edge as i32
    } else {
        28_000
    };
    let error: i32 = 14_000 - period;
    let step: i32 = if error >= 0 {
        error / 256
    } else {
        -((-error) / 256)
    };
    let d: i32 = duty as i32 + step;
    if d < MIN_DUTY as i32 {
        MIN_DUTY
    } else if d > MAX_DUTY as i32 {
        MAX_DUTY
    } else {
        d as u32
    }
}

/// Whether a `TIM1_CCER` value never enables both outputs of one leg and
/// enables at most one main and one complementary output.
pub open spec fn no_shoot_through(ccer: u32) -> bool {
    &&& !(ccer & CC1E != 0 && ccer & CC1NE != 0)
    &&& !(ccer & CC2E != 0 && ccer & CC2NE != 0)
    &&& !(ccer & CC3E != 0 && ccer & CC3NE != 0)
}

/// The six commutation rows and the empty row never enable both switches of
/// a leg, and the six rows are not empty.
proof fn lemma_row_bits()
    by (bit_vector)
    ensures
        no_shoot_through(CC1E | CC2NE),
        no_shoot_through(CC2E | CC3NE),
        no_shoot_through(CC2E | CC1NE),
        no_shoot_through(CC3E | CC1NE),
        no_shoot_through(CC1E | CC3NE),
        no_shoot_through(CC3E | CC2NE),
        no_shoot_through(0),
        (CC1E | CC2NE) != 0 && (CC2E | CC3NE) != 0 && (CC2E | CC1NE) != 0,
        (CC3E | CC1NE) != 0 && (CC1E | CC3NE) != 0 && (CC3E | CC2NE) != 0,
        CC1E | CC2NE == 0x041 && CC2E | CC3NE == 0x410 && CC2E | CC1NE == 0x014,
        CC3E | CC1NE == 0x104 && CC1E | CC3NE == 0x401 && CC3E | CC2NE == 0x140,
{
}

/// Every commutation row drives one phase high and another low, never both
/// switches of a leg.
pub proof fn lemma_rows_never_shoot_through(hall: u32)
    ensures
        no_shoot_through(commutation_row(hall)),
        1 <= hall <= 6 ==> commutation_row(hall) != 0,
{
    lemma_row_bits();
}

/// Whatever the inputs, a pass never commands a shoot-through row and never
/// leaves the duty range; a fault halts the controller, which then drives
/// nothing forever; an asserted motor-fault or over-current input always
/// faults a running controller.
pub proof fn lemma_step_safety(s: SixStepController, gpioa: u32, gpiob: u32)
    requires
        s.wf(),
    ensures
        ({
            let (t, out) = control_step(s, gpioa, gpiob);
            &&& t.wf()
            &&& (out.ccer matches Some(c) ==> no_shoot_through(c))
            &&& (out.duty matches Some(d) ==> MIN_DUTY <= d <= MAX_DUTY)
            &&& (out.fault is Some ==> t.halted)
            &&& (s.halted ==> t == s && out == idle_output())
            &&& (!s.halted && (gpioa & MOTOR_FAULT != 0 || gpiob & OVER_CURRENT != 0) ==> out.fault
                is Some && out.ccer is None && out.duty is None && !out.report_target)
        }),
{
    let (t, out) = control_step(s, gpioa, gpiob);
    let hall = (gpioa & HALL_MASK) >> 1u32;
    lemma_rows_never_shoot_through(hall);
    if s.startup_step < STARTUP_STEPS && s.startup_ticks + 1 >= STARTUP_TICKS_PER_STEP {
        lemma_rows_never_shoot_through(startup_hall(s.startup_step + 1));
    }
}


/// A line the firmware prints on USART2.
#[derive(Clone, Copy, Debug, PartialEq, Eq)]
pub enum Message {
    /// `TARGET REACHED`
    TargetReached,
    /// `FAULT STALL`
    FaultStall,
    /// `FAULT CURRENT`
    FaultCurrent,
    /// `FAULT HALL`
    FaultHall,
    /// `INVERTER OFF`
    InverterOff,
}

/// One thing the firmware does, in the order [`plan`] lists them.
#[derive(Clone, Copy, Debug, PartialEq, Eq)]
pub enum Action {
    /// Write `TIM1_CCER`.
    WriteCcer(u32),
    /// Write the duty to `TIM1_CCR1..3`.
    WriteDuty(u32),
    /// Print a line.
    Report(Message),
    /// Clear `MOE` in `TIM1_BDTR`, clear `TIM1_CCER` and drop the external
    /// enable on `GPIOA_ODR`.
    GateOff,
    /// Stop: wait for interrupt forever.
    Halt,
}

/// The line that reports a fault.
pub open spec fn fault_message(f: Fault) -> Message {
    match f {
        Fault::Stall => Message::FaultStall,
        Fault::Current => Message::FaultCurrent,
        Fault::Hall => Message::FaultHall,
    }
}

/// Whether a message reports a fault or the inverter's shutdown.
pub open spec fn is_shutdown_report(a: Action) -> bool {
    match a {
        Action::Report(m) => m != Message::TargetReached,
        _ => false,
    }
}

/// The actions of one pass: the `TIM1_CCER` write, the duty write, the target
/// report, then, on a fault, the output gating, the fault line, `INVERTER OFF`
/// and the halt.
pub open spec fn plan_of(out: ControlOutput) -> Seq<Action> {
    let ccer = match out.ccer {
        Some(c) => seq![Action::WriteCcer(c)],
        None => Seq::empty(),
    };
    let duty = match out.duty {
        Some(d) => seq![Action::WriteDuty(d)],
        None => Seq::empty(),
    };
    let report = if out.report_target {
        seq![Action::Report(Message::TargetReached)]
    } else {
        Seq::empty()
    };
    let shutdown = match out.fault {
        Some(f) => seq![
            Action::GateOff,
            Action::Report(fault_message(f)),
            Action::Report(Message::InverterOff),
            Action::Halt,
        ],
        None => Seq::empty(),
    };
    ccer + duty + report + shutdown
}

/// The ordered actions the firmware performs for one pass's output.
pub fn plan(out: &ControlOutput) -> (r: Vec<Action>)
    ensures
        r@ == plan_of(*out),
{
    let mut v: Vec<Action> = Vec::new();
    if let Some(c) = out.ccer {
        v.push(Action::WriteCcer(c));
    }
    if let Some(d) = out.duty {
        v.push(Action::WriteDuty(d));
    }
    if out.report_target {
        v.push(Action::Report(Message::TargetReached));
    }
    let ghost head = v@;
    if let Some(f) = out.fault {
        let m = match f {
            Fault::Stall => Message::FaultStall,
            Fault::Current => Message::FaultCurrent,
            Fault::Hall => Message::FaultHall,
        };
        v.push(Action::GateOff);
        v.push(Action::Report(m));
        v.push(Action::Report(Message::InverterOff));
        v.push(Action::Halt);
        assert(v@ =~= head + seq![
            Action::GateOff,
            Action::Report(fault_message(f)),
            Action::Report(Message::InverterOff),
            Action::Halt,
        ]);
    } else {
        assert(v@ =~= head + Seq::<Action>::empty());
    }
    let ghost ccer = match out.ccer {
        Some(c) => seq![Action::WriteCcer(c)],
        None => Seq::<Action>::empty(),
    };
    let ghost duty = match out.duty {
        Some(d) => seq![Action::WriteDuty(d)],
        None => Seq::<Action>::empty(),
    };
    let ghost report = if out.report_target {
        seq![Action::Report(Message::TargetReached)]
    } else {
        Seq::<Action>::empty()
    };
    assert(head =~= ccer + duty + report);
    v
}

/// The text of a line, with its line ending.
pub fn message_text(m: Message) -> (r: &'static str)
    ensures
        r@ == match m {
            Message::TargetReached => "TARGET REACHED\r\n"@,
            Message::FaultStall => "FAULT STALL\r\n"@,
            Message::FaultCurrent => "FAULT CURRENT\r\n"@,
            Message::FaultHall => "FAULT HALL\r\n"@,
            Message::InverterOff => "INVERTER OFF\r\n"@,
        },
{
    match m {
        Message::TargetReached => "TARGET REACHED\r\n",
        Message::FaultStall => "FAULT STALL\r\n",
        Message::FaultCurrent => "FAULT CURRENT\r\n",
        Message::FaultHall => "FAULT HALL\r\n",
        Message::InverterOff => "INVERTER OFF\r\n",
    }
}

/// The controller fed `inputs` (pairs of `GPIOA_IDR`, `GPIOB_IDR`) pass by
/// pass: its final state and every action the firmware performs, in order.
pub open spec fn run_plans(s: SixStepController, inputs: Seq<(u32, u32)>) -> (
    SixStepController,
    Seq<Action>,
)
    decreases inputs.len(),
{
    if inputs.len() == 0 {
        (s, Seq::empty())
    } else {
        let (t, out) = control_step(s, inputs[0].0, inputs[0].1);
        let (u, rest) = run_plans(t, inputs.drop_first());
        (u, plan_of(out) + rest)
    }
}

/// A halted controller does nothing more, whatever it reads.
pub proof fn lemma_halted_is_silent(s: SixStepController, inputs: Seq<(u32, u32)>)
    requires
        s.halted,
    ensures
        run_plans(s, inputs) == (s, Seq::<Action>::empty()),
    decreases inputs.len(),
{
    if inputs.len() > 0 {
        lemma_halted_is_silent(s, inputs.drop_first());
        assert(plan_of(idle_output()) =~= Seq::<Action>::empty());
        assert(Seq::<Action>::empty() + Seq::<Action>::empty() =~= Seq::<Action>::empty());
    }
}

/// In one pass's actions, every fault line and `INVERTER OFF` comes after the
/// output gating, the halt comes last, and a pass without a fault neither
/// gates, reports a fault nor halts.
pub proof fn lemma_plan_gates_before_reporting(out: ControlOutput)
    ensures
        ({
            let p = plan_of(out);
            &&& forall|i: int|
                0 <= i < p.len() && is_shutdown_report(#[trigger] p[i]) ==> exists|j: int|
                    0 <= j < i && p[j] == Action::GateOff
            &&& forall|i: int| 0 <= i < p.len() && #[trigger] p[i] == Action::Halt ==> i == p.len() - 1
            &&& out.fault is None ==> forall|i: int|
                0 <= i < p.len() ==> !is_shutdown_report(#[trigger] p[i]) && p[i] != Action::GateOff
                    && p[i] != Action::Halt
            &&& out.fault matches Some(f) ==> p.len() >= 4 && p.subrange(p.len() - 4, p.len() as int)
                == seq![
                Action::GateOff,
                Action::Report(fault_message(f)),
                Action::Report(Message::InverterOff),
                Action::Halt,
            ]
        }),
{
    let p = plan_of(out);
    let ccer = match out.ccer {
        Some(c) => seq![Action::WriteCcer(c)],
        None => Seq::<Action>::empty(),
    };
    let duty = match out.duty {
        Some(d) => seq![Action::WriteDuty(d)],
        None => Seq::<Action>::empty(),
    };
    let report = if out.report_target {
        seq![Action::Report(Message::TargetReached)]
    } else {
        Seq::<Action>::empty()
    };
    let head = ccer + duty + report;
    assert(forall|i: int|
        0 <= i < head.len() ==> !is_shutdown_report(#[trigger] head[i]) && head[i]
            != Action::GateOff && head[i] != Action::Halt);
    match out.fault {
        Some(f) => {
            let tail = seq![
                Action::GateOff,
                Action::Report(fault_message(f)),
                Action::Report(Message::InverterOff),
                Action::Halt,
            ];
            assert(p =~= head + tail);
            assert(p[head.len() as int] == Action::GateOff);
            assert forall|i: int|
                0 <= i < p.len() && is_shutdown_report(#[trigger] p[i]) implies exists|j: int|
                0 <= j < i && p[j] == Action::GateOff by {
                assert(i > head.len());
                assert(p[head.len() as int] == Action::GateOff);
            }
            assert(p.subrange(p.len() - 4, p.len() as int) =~= tail);
        },
        None => {
            assert(p =~= head);
        },
    }
}

/// Fault gating across the whole loop: whatever the controller reads, every
/// fault line and `INVERTER OFF` it prints comes after the outputs were gated
/// off, and nothing follows the halt.
pub proof fn lemma_run_gates_before_reporting(s: SixStepController, inputs: Seq<(u32, u32)>)
    requires
        s.wf(),
    ensures
        ({
            let a = run_plans(s, inputs).1;
            &&& forall|i: int|
                0 <= i < a.len() && is_shutdown_report(#[trigger] a[i]) ==> exists|j: int|
                    0 <= j < i && a[j] == Action::GateOff
            &&& forall|i: int| 0 <= i < a.len() && #[trigger] a[i] == Action::Halt ==> i == a.len() - 1
        }),
    decreases inputs.len(),
{
    if inputs.len() > 0 {
        let (t, out) = control_step(s, inputs[0].0, inputs[0].1);
        lemma_step_safety(s, inputs[0].0, inputs[0].1);
        lemma_plan_gates_before_reporting(out);
        let p = plan_of(out);
        let rest = run_plans(t, inputs.drop_first()).1;
        let a = run_plans(s, inputs).1;
        assert(a == p + rest);
        if out.fault is Some {
            lemma_halted_is_silent(t, inputs.drop_first());
            assert(a =~= p);
        } else {
            lemma_run_gates_before_reporting(t, inputs.drop_first());
            assert forall|i: int|
                0 <= i < a.len() && is_shutdown_report(#[trigger] a[i]) implies exists|j: int|
                0 <= j < i && a[j] == Action::GateOff by {
                assert(i >= p.len()) by {
                    if i < p.len() {
                        assert(a[i] == p[i]);
                    }
                }
                assert(rest[i - p.len()] == a[i]);
                let k = choose|k: int| 0 <= k < i - p.len() && rest[k] == Action::GateOff;
                assert(a[k + p.len()] == rest[k]);
            }
            assert forall|i: int| 0 <= i < a.len() && #[trigger] a[i] == Action::Halt implies i == a.len()
                - 1 by {
                if i < p.len() {
                    assert(a[i] == p[i]);
                } else {
                    assert(rest[i - p.len()] == a[i]);
                }
            }
        }
    }
}

/// A motor fault or over-current present from the first pass: the firmware
/// gates the outputs off, reports the fault and `INVERTER OFF`, halts, and
/// never reports `TARGET REACHED`, whatever it reads afterwards.
pub proof fn lemma_fault_at_start(s: SixStepController, inputs: Seq<(u32, u32)>)
    requires
        s.wf(),
        !s.halted,
        inputs.len() > 0,
        inputs[0].0 & MOTOR_FAULT != 0 || inputs[0].1 & OVER_CURRENT != 0,
    ensures
        run_plans(s, inputs).1 == seq![
            Action::GateOff,
            Action::Report(
                if inputs[0].0 & MOTOR_FAULT != 0 {
                    Message::FaultStall
                } else {
                    Message::FaultCurrent
                },
            ),
            Action::Report(Message::InverterOff),
            Action::Halt,
        ],
{
    let (t, out) = control_step(s, inputs[0].0, inputs[0].1);
    lemma_halted_is_silent(t, inputs.drop_first());
    assert(plan_of(out) + Seq::<Action>::empty() =~= plan_of(out));
    assert(plan_of(out) =~= seq![
        Action::GateOff,
        Action::Report(
            if inputs[0].0 & MOTOR_FAULT != 0 {
                Message::FaultStall
            } else {
                Message::FaultCurrent
            },
        ),
        Action::Report(Message::InverterOff),
        Action::Halt,
    ]);
}

} // verus!
