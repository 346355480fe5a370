//! Digital parts of the motor models: inverter gate commands and their
//! resolution, six-step commutation, Hall-state sampling from a sector, the
//! H-bridge pin truth table and the quadrature-encoder pin pattern.
//!
//! The continuous physics (winding currents, back-EMF, shaft integration)
//! works on floating-point values and lives outside this verified library.
use vstd::prelude::*;

verus! {

/// Describes an invalid physical-model parameter or state transition.
#[derive(Debug, Clone, PartialEq, Eq)]
pub struct ModelError {
    pub field: &'static str,
    pub message: String,
}

impl ModelError {
    /// An error for `field` with the given explanation.
    pub fn new(field: &'static str, message: &str) -> (r: Self)
        ensures
            r.field == field,
            r.message@ == message@,
    {
        Self { field, message: message.to_owned() }
    }

    /// The standard rendering: ``invalid model field `FIELD`: MESSAGE``.
    pub fn to_string(&self) -> (r: String)
        ensures
            r@ == "invalid model field `"@ + self.field@ + "`: "@ + self.message@,
    {
        let mut r = String::from_str("invalid model field `");
        r.append(self.field);
        r.append("`: ");
        r.append(self.message.as_str());
        r
    }
}

/// One motor phase.
#[derive(Debug, Clone, Copy, PartialEq, Eq, Structural)]
pub enum Phase {
    A,
    B,
    C,
}

/// Leg index of a phase: A = 0, B = 1, C = 2.
pub open spec fn phase_index(p: Phase) -> int {
    match p {
        Phase::A => 0,
        Phase::B => 1,
        Phase::C => 2,
    }
}

impl Phase {
    fn index(self) -> (r: usize)
        ensures
            r == phase_index(self),
    {
        match self {
            Phase::A => 0,
            Phase::B => 1,
            Phase::C => 2,
        }
    }
}

/// High-side and low-side gate states for one inverter leg.
#[derive(Debug, Clone, Copy, Default, PartialEq, Eq, Structural)]
pub struct GatePair {
    pub high: bool,
    pub low: bool,
}

impl GatePair {
    /// Both switches open.
    pub fn off() -> (r: Self)
        ensures
            !r.high && !r.low,
    {
        Self { high: false, low: false }
    }

    /// Only the high-side switch closed.
    pub fn high() -> (r: Self)
        ensures
            r.high && !r.low,
    {
        Self { high: true, low: false }
    }

    /// Only the low-side switch closed.
    pub fn low() -> (r: Self)
        ensures
            !r.high && r.low,
    {
        Self { high: false, low: true }
    }
}

/// Digital command for a three-phase, two-level inverter.
#[derive(Debug, Clone, Copy, PartialEq, Eq, Structural)]
pub struct InverterCommand {
    pub enabled: bool,
    pub phase_a: GatePair,
    pub phase_b: GatePair,
    pub phase_c: GatePair,
}

/// The switch pair driving phase leg number `i` (0 for A, 1 for B, 2 for C).
pub open spec fn leg(c: InverterCommand, i: int) -> GatePair {
    if i == 0 {
        c.phase_a
    } else if i == 1 {
        c.phase_b
    } else {
        c.phase_c
    }
}

/// The (high, low) phases of forward commutation sector `sector` (0..=5):
/// `C+/B-`, `A+/B-`, `A+/C-`, `B+/C-`, `B+/A-`, `C+/A-`.
pub open spec fn sector_phases(sector: u8) -> (Phase, Phase) {
    if sector == 0 {
        (Phase::C, Phase::B)
    } else if sector == 1 {
        (Phase::A, Phase::B)
    } else if sector == 2 {
        (Phase::A, Phase::C)
    } else if sector == 3 {
        (Phase::B, Phase::C)
    } else if sector == 4 {
        (Phase::B, Phase::A)
    } else {
        (Phase::C, Phase::A)
    }
}

/// `c` is enabled, drives leg `high` high and leg `low` low, and floats the third.
pub open spec fn drives(c: InverterCommand, high: Phase, low: Phase) -> bool {
    &&& c.enabled
    &&& forall|i: int|
        0 <= i < 3 ==> #[trigger] leg(c, i) == (if i == phase_index(high) {
            GatePair { high: true, low: false }
        } else if i == phase_index(low) {
            GatePair { high: false, low: true }
        } else {
            GatePair { high: false, low: false }
        })
}

/// The error for a commutation sector outside `0..=5`.
pub open spec fn is_sector_error(e: ModelError) -> bool {
    e.field@ == "commutation_sector"@ && e.message@ == "must be between 0 and 5 inclusive"@
}

impl InverterCommand {
    /// Disables the inverter so all three terminals float.
    pub fn off() -> (r: Self)
        ensures
            !r.enabled,
            forall|i: int| 0 <= i < 3 ==> #[trigger] leg(r, i) == (GatePair { high: false, low: false }),
    {
        Self {
            enabled: false,
            phase_a: GatePair::off(),
            phase_b: GatePair::off(),
            phase_c: GatePair::off(),
        }
    }

    /// Enables all three low-side switches for dynamic braking.
    pub fn brake() -> (r: Self)
        ensures
            r.enabled,
            forall|i: int| 0 <= i < 3 ==> #[trigger] leg(r, i) == (GatePair { high: false, low: true }),
    {
        Self {
            enabled: true,
            phase_a: GatePair::low(),
            phase_b: GatePair::low(),
            phase_c: GatePair::low(),
        }
    }

    /// Selects one of the six canonical forward commutation states.
    pub fn six_step(sector: u8) -> (r: Result<Self, ModelError>)
        ensures
            sector <= 5 ==> (r matches Ok(c) && drives(c, sector_phases(sector).0, sector_phases(sector).1)),
            sector > 5 ==> (r matches Err(e) && is_sector_error(e)),
    {
        Self::six_step_with_direction(sector, false)
    }

    /// Selects the opposite polarity of a canonical six-step state.
    pub fn reverse_six_step(sector: u8) -> (r: Result<Self, ModelError>)
        ensures
            sector <= 5 ==> (r matches Ok(c) && drives(c, sector_phases(sector).1, sector_phases(sector).0)),
            sector > 5 ==> (r matches Err(e) && is_sector_error(e)),
    {
        Self::six_step_with_direction(sector, true)
    }

    fn six_step_with_direction(sector: u8, reverse: bool) -> (r: Result<Self, ModelError>)
        ensures
            sector <= 5 && !reverse ==> (r matches Ok(c) && drives(c, sector_phases(sector).0, sector_phases(sector).1)),
            sector <= 5 && reverse ==> (r matches Ok(c) && drives(c, sector_phases(sector).1, sector_phases(sector).0)),
            sector > 5 ==> (r matches Err(e) && is_sector_error(e)),
    {
        let (high, low) = if sector == 0 {
            (Phase::C, Phase::B)
        } else if sector == 1 {
            (Phase::A, Phase::B)
        } else if sector == 2 {
            (Phase::A, Phase::C)
        } else if sector == 3 {
            (Phase::B, Phase::C)
        } else if sector == 4 {
            (Phase::B, Phase::A)
        } else if sector == 5 {
            (Phase::C, Phase::A)
        } else {
            return Err(ModelError::new("commutation_sector", "must be between 0 and 5 inclusive"));
        };
        let (high, low) = if reverse {
            (low, high)
        } else {
            (high, low)
        };
        let mut gates = [GatePair::off(), GatePair::off(), GatePair::off()];
        gates[high.index()] = GatePair::high();
        gates[low.index()] = GatePair::low();
        let c = Self { enabled: true, phase_a: gates[0], phase_b: gates[1], phase_c: gates[2] };
        assert(forall|i: int| 0 <= i < 3 ==> #[trigger] leg(c, i) == gates@[i]);
        Ok(c)
    }
}

/// A non-destructive inverter diagnostic.
#[derive(Debug, Clone, Copy, PartialEq, Eq)]
pub enum InverterFault {
    ShootThrough { phase: Phase },
}

/// How one resolved inverter leg drives its motor terminal.
#[derive(Debug, Clone, Copy, PartialEq, Eq)]
pub enum LegDrive {
    /// Connected to the DC bus.
    Bus,
    /// Connected to ground.
    Low,
    /// Disconnected.
    Floating,
}

/// Switch-level resolution of a command: what each terminal is connected to,
/// and the shoot-through faults found (in leg order).
#[derive(Debug, Clone, PartialEq, Eq)]
pub struct LegResolution {
    pub legs: [LegDrive; 3],
    pub faults: Vec<InverterFault>,
}

/// Drive of a leg with gates `g` in an enabled inverter; an overlap floats it.
pub open spec fn leg_drive(g: GatePair) -> LegDrive {
    if g.high && !g.low {
        LegDrive::Bus
    } else if !g.high && g.low {
        LegDrive::Low
    } else {
        LegDrive::Floating
    }
}

/// The phase of leg `i`.
pub open spec fn phase_at(i: int) -> Phase {
    if i == 0 {
        Phase::A
    } else if i == 1 {
        Phase::B
    } else {
        Phase::C
    }
}

/// Shoot-through faults of the legs before `n`, in leg order.
pub open spec fn overlap_faults(c: InverterCommand, n: int) -> Seq<InverterFault>
    decreases n,
{
    if n <= 0 {
        Seq::empty()
    } else if leg(c, n - 1).high && leg(c, n - 1).low {
        overlap_faults(c, n - 1).push(InverterFault::ShootThrough { phase: phase_at(n - 1) })
    } else {
        overlap_faults(c, n - 1)
    }
}

/// Stateless three-phase inverter resolver.
#[derive(Debug, Clone, Copy, Default)]
pub struct Inverter;

impl Inverter {
    /// Resolves each leg independently. A disabled inverter always floats and
    /// reports nothing; when enabled, a high/low overlap reports shoot-through
    /// and floats only the affected leg.
    pub fn resolve_legs(command: InverterCommand) -> (r: LegResolution)
        ensures
            !command.enabled ==> r.legs@ == seq![LegDrive::Floating, LegDrive::Floating, LegDrive::Floating]
                && r.faults@ == Seq::<InverterFault>::empty(),
            command.enabled ==> r.legs@ == seq![
                leg_drive(command.phase_a),
                leg_drive(command.phase_b),
                leg_drive(command.phase_c),
            ] && r.faults@ == overlap_faults(command, 3),
    {
        if !command.enabled {
            let r = LegResolution {
                legs: [LegDrive::Floating, LegDrive::Floating, LegDrive::Floating],
                faults: Vec::new(),
            };
            assert(r.legs@ =~= seq![LegDrive::Floating, LegDrive::Floating, LegDrive::Floating]);
            return r;
        }
        let mut faults = Vec::new();
        assert(overlap_faults(command, 0) =~= Seq::<InverterFault>::empty());
        let a = resolve_leg(command.phase_a, Phase::A, &mut faults);
        assert(faults@ =~= overlap_faults(command, 1));
        let b = resolve_leg(command.phase_b, Phase::B, &mut faults);
        assert(faults@ =~= overlap_faults(command, 2));
        let c = resolve_leg(command.phase_c, Phase::C, &mut faults);
        assert(faults@ =~= overlap_faults(command, 3));
        let r = LegResolution { legs: [a, b, c], faults };
        assert(r.legs@ =~= seq![
            leg_drive(command.phase_a),
            leg_drive(command.phase_b),
            leg_drive(command.phase_c),
        ]);
        r
    }
}

fn resolve_leg(gates: GatePair, phase: Phase, faults: &mut Vec<InverterFault>) -> (r: LegDrive)
    ensures
        r == leg_drive(gates),
        final(faults)@ == if gates.high && gates.low {
            old(faults)@.push((InverterFault::ShootThrough { phase }))
        } else {
            old(faults)@
        },
{
    if gates.high && !gates.low {
        LegDrive::Bus
    } else if !gates.high && gates.low {
        LegDrive::Low
    } else if !gates.high && !gates.low {
        LegDrive::Floating
    } else {
        faults.push(InverterFault::ShootThrough { phase });
        LegDrive::Floating
    }
}

/// Hall states of the six commutation sectors: `001, 101, 100, 110, 010, 011`.
pub open spec fn hall_of_sector(sector: u8) -> u8 {
    if sector == 0 {
        0b001
    } else if sector == 1 {
        0b101
    } else if sector == 2 {
        0b100
    } else if sector == 3 {
        0b110
    } else if sector == 4 {
        0b010
    } else {
        0b011
    }
}

/// Samples the conventional six-state, 120-degree Hall pattern.
#[derive(Debug, Clone, Copy, PartialEq, Eq)]
pub struct HallSensors {
    pole_pairs: u8,
}

impl HallSensors {
    pub closed spec fn pole_pairs_view(self) -> u8 {
        self.pole_pairs
    }

    /// Sensors for a rotor with `pole_pairs` pole pairs (at least one).
    pub fn new(pole_pairs: u8) -> (r: Result<Self, ModelError>)
        ensures
            pole_pairs > 0 ==> (r matches Ok(h) && h.pole_pairs_view() == pole_pairs),
            pole_pairs == 0 ==> (r matches Err(e) && e.field@ == "pole_pairs"@ && e.message@
                == "must be between 1 and 255 inclusive"@),
    {
        if pole_pairs == 0 {
            return Err(ModelError::new("pole_pairs", "must be between 1 and 255 inclusive"));
        }
        Ok(Self { pole_pairs })
    }

    pub fn pole_pairs(self) -> (r: u8)
        ensures
            r == self.pole_pairs_view(),
    {
        self.pole_pairs
    }

    /// The three-bit Hall state seen in commutation sector `sector`.
    pub fn state_for_sector(sector: u8) -> (r: u8)
        requires
            sector <= 5,
        ensures
            r == hall_of_sector(sector),
    {
        let seq: [u8; 6] = [0b001, 0b101, 0b100, 0b110, 0b010, 0b011];
        seq[sector as usize]
    }
}

/// Fault inputs applied to the motor model.
#[derive(Debug, Clone, Copy, Default, PartialEq, Eq)]
pub struct MotorFaults {
    pub stalled: bool,
}

/// Electrical state selected by an H-bridge.
#[derive(Debug, Clone, Copy, PartialEq, Eq, Structural)]
pub enum HBridgeState {
    Forward,
    Reverse,
    Brake,
    Coast,
}

/// The bridge state selected by its digital inputs.
pub open spec fn bridge_state_of(enable: bool, in1: bool, in2: bool, brake: bool) -> HBridgeState {
    if !enable {
        HBridgeState::Coast
    } else if brake || (in1 && in2) {
        HBridgeState::Brake
    } else if in1 {
        HBridgeState::Forward
    } else if in2 {
        HBridgeState::Reverse
    } else {
        HBridgeState::Coast
    }
}

impl HBridgeState {
    /// Converts digital bridge inputs into a state: disabled coasts; enabled
    /// with `brake` brakes; otherwise `in1`/`in2` select coast, forward,
    /// reverse or (both) brake.
    pub fn from_pins(enable: bool, in1: bool, in2: bool, brake: bool) -> (r: Self)
        ensures
            r == bridge_state_of(enable, in1, in2, brake),
    {
        if !enable {
            return HBridgeState::Coast;
        }
        if brake {
            return HBridgeState::Brake;
        }
        match (in1, in2) {
            (false, false) => HBridgeState::Coast,
            (true, false) => HBridgeState::Forward,
            (false, true) => HBridgeState::Reverse,
            (true, true) => HBridgeState::Brake,
        }
    }
}

/// Fewest quadrature cycles per revolution.
pub const MIN_CPR: u32 = 1;

/// Most quadrature cycles per revolution.
pub const MAX_CPR: u32 = 1_000_000;

/// Digital outputs produced by a quadrature encoder sample.
#[derive(Debug, Clone, Copy, PartialEq, Eq)]
pub struct EncoderPins {
    pub a: bool,
    pub b: bool,
    /// Synthetic index pulse, high only for transition bin zero.
    pub index: bool,
}

/// Stateless position-derived quadrature encoder with `cpr` quadrature cycles
/// (four Gray-code transitions each) per mechanical revolution.
#[derive(Debug, Clone, Copy)]
pub struct QuadratureEncoder {
    cpr: u32,
}

impl QuadratureEncoder {
    #[verifier::type_invariant]
    spec fn inv(self) -> bool {
        MIN_CPR <= self.cpr <= MAX_CPR
    }

    pub closed spec fn cpr_view(self) -> u32 {
        self.cpr
    }

    /// An encoder with `1..=1_000_000` cycles per revolution.
    pub fn new(cpr: u32) -> (r: Result<Self, ModelError>)
        ensures
            MIN_CPR <= cpr <= MAX_CPR ==> (r matches Ok(e) && e.cpr_view() == cpr),
            !(MIN_CPR <= cpr <= MAX_CPR) ==> (r matches Err(e) && e.field@ == "encoder_cpr"@
                && e.message@ == "must be between 1 and 1,000,000 inclusive"@),
    {
        if !(MIN_CPR <= cpr && cpr <= MAX_CPR) {
            return Err(ModelError::new("encoder_cpr", "must be between 1 and 1,000,000 inclusive"));
        }
        Ok(Self { cpr })
    }

    pub fn cpr(&self) -> (r: u32)
        ensures
            r == self.cpr_view(),
    {
        self.cpr
    }

    /// Quadrature state transitions per revolution: `4 * cpr`.
    pub fn transitions_per_revolution(&self) -> (r: u64)
        ensures
            r == 4 * self.cpr_view(),
    {
        proof {
            use_type_invariant(self);
        }
        (self.cpr as u64) * 4
    }

    /// Pins in transition bin `transition_index` (already wrapped into one
    /// revolution): Gray code `00, 01, 11, 10`, index pulse only in bin 0.
    pub fn pins_for_transition(transition_index: u64) -> (r: EncoderPins)
        ensures
            r.a == quadrature_a(transition_index as int),
            r.b == quadrature_b(transition_index as int),
            r.index == (transition_index == 0),
    {
        let (a, b) = match transition_index % 4 {
            0 => (false, false),
            1 => (false, true),
            2 => (true, true),
            _ => (true, false),
        };
        EncoderPins { a, b, index: transition_index == 0 }
    }
}

/// Channel A in transition bin `k`: high in the second half of each cycle.
pub open spec fn quadrature_a(k: int) -> bool {
    k % 4 >= 2
}

/// Channel B in transition bin `k`: high in the middle two quarters.
pub open spec fn quadrature_b(k: int) -> bool {
    k % 4 == 1 || k % 4 == 2
}

/// Quadrature is a Gray code: between consecutive transition bins exactly
/// one channel changes, and the pattern repeats every four bins.
pub proof fn lemma_quadrature_gray_code(k: int)
    requires
        k >= 0,
    ensures
        (quadrature_a(k) != quadrature_a(k + 1)) != (quadrature_b(k) != quadrature_b(k + 1)),
        quadrature_a(k + 4) == quadrature_a(k) && quadrature_b(k + 4) == quadrature_b(k),
{
}

/// The Hall sequence never shows the invalid states `000` and `111`, and
/// between consecutive sectors (including sector 5 back to 0) exactly one
/// Hall line changes.
pub proof fn lemma_hall_sequence_is_gray()
    by (bit_vector)
    ensures
        forall|s: u8| s <= 5 ==> 1 <= #[trigger] hall_of_sector(s) <= 6,
        (hall_of_sector(0) ^ hall_of_sector(1)) == 4,
        (hall_of_sector(1) ^ hall_of_sector(2)) == 1,
        (hall_of_sector(2) ^ hall_of_sector(3)) == 2,
        (hall_of_sector(3) ^ hall_of_sector(4)) == 4,
        (hall_of_sector(4) ^ hall_of_sector(5)) == 1,
        (hall_of_sector(5) ^ hall_of_sector(0)) == 2,
{
}

} // verus!
