//! The servo actuator model: a validated pulse-width configuration, a
//! running flag, and the linear mapping from a commanded degree value to a
//! pulse width.  Producing the waveform itself is the hardware's business;
//! this model computes the pulse width the hardware is to be given.

use vstd::prelude::*;

use vstd::arithmetic::div_mod::{lemma_div_is_ordered, lemma_div_multiples_vanish};
use vstd::arithmetic::mul::lemma_mul_inequality;

use crate::command::Servo;

verus! {

/// Pulse-width configuration of one servo, fixed at construction.
#[derive(Clone, Copy, Debug, PartialEq, Eq, Structural)]
pub struct ServoConfig {
    /// Pulse width commanded at zero degrees, in microseconds.
    pub min_pulse_width_us: u64,
    /// Pulse width commanded at the full rotation range, in microseconds.
    pub max_pulse_width_us: u64,
    /// The largest rotation the servo accepts, in degrees.
    pub max_degree_rotation: u64,
}

impl ServoConfig {
    /// A valid configuration: the minimum pulse width lies strictly below
    /// the maximum, the rotation range is not empty, and the pulse-width
    /// span is small enough that the degree mapping cannot overflow.
    pub open spec fn wf(&self) -> bool {
        &&& self.min_pulse_width_us < self.max_pulse_width_us
        &&& self.max_degree_rotation > 0
        &&& 255 * (self.max_pulse_width_us - self.min_pulse_width_us) <= u64::MAX
        &&& self.max_degree_rotation * (self.max_pulse_width_us - self.min_pulse_width_us)
            <= u64::MAX
    }

    /// Validates and builds a configuration; rejected exactly when some
    /// well-formedness condition fails.
    pub fn new(min_pulse_width_us: u64, max_pulse_width_us: u64, max_degree_rotation: u64) -> (r:
        Option<ServoConfig>)
        ensures
            ({
                let c = ServoConfig { min_pulse_width_us, max_pulse_width_us, max_degree_rotation };
                if c.wf() {
                    r == Some(c)
                } else {
                    r is None
                }
            }),
    {
        if min_pulse_width_us >= max_pulse_width_us {
            return None;
        }
        if max_degree_rotation == 0 {
            return None;
        }
        let span = max_pulse_width_us - min_pulse_width_us;
        if 255u128 * (span as u128) > u64::MAX as u128 {
            return None;
        }
        proof {
            assert((max_degree_rotation as int) * (span as int) <= (u64::MAX as int) * (
            u64::MAX as int)) by (nonlinear_arith)
                requires
                    0 <= max_degree_rotation <= u64::MAX,
                    0 <= span <= u64::MAX,
            ;
        }
        if (max_degree_rotation as u128) * (span as u128) > u64::MAX as u128 {
            return None;
        }
        Some(ServoConfig { min_pulse_width_us, max_pulse_width_us, max_degree_rotation })
    }
}

/// The commanded degree value clamped to the servo's rotation range.
pub open spec fn spec_clamped_degrees(c: ServoConfig, degrees: u8) -> int {
    if degrees as int <= c.max_degree_rotation as int {
        degrees as int
    } else {
        c.max_degree_rotation as int
    }
}

/// The pulse width a degree value commands: the clamped value mapped
/// linearly from `[0, max_degree_rotation]` onto
/// `[min_pulse_width_us, max_pulse_width_us]`.
pub open spec fn spec_pulse_width(c: ServoConfig, degrees: u8) -> int {
    c.min_pulse_width_us + spec_clamped_degrees(c, degrees) * (c.max_pulse_width_us
        - c.min_pulse_width_us) / (c.max_degree_rotation as int)
}

/// The pulse width stays within the configured band.
pub proof fn lemma_pulse_width_in_band(c: ServoConfig, degrees: u8)
    requires
        c.wf(),
    ensures
        c.min_pulse_width_us <= spec_pulse_width(c, degrees) <= c.max_pulse_width_us,
{
    let d = spec_clamped_degrees(c, degrees);
    let span = c.max_pulse_width_us - c.min_pulse_width_us;
    let m = c.max_degree_rotation as int;
    assert(0 <= d <= m);
    lemma_mul_inequality(0, d, span);
    lemma_mul_inequality(d, m, span);
    lemma_div_is_ordered(0, d * span, m);
    lemma_div_is_ordered(d * span, m * span, m);
    lemma_div_multiples_vanish(span, m);
    assert(m * span == span * m) by (nonlinear_arith);
}

/// One servo actuator: its configuration, whether it is running, and the
/// pulse width it was last commanded to.
pub struct ServoActuator {
    /// The identity this actuator answers to.
    pub servo: Servo,
    /// The fixed pulse-width configuration.
    pub config: ServoConfig,
    /// Whether the actuator has been started.
    pub running: bool,
    /// The last commanded pulse width, if any rotation happened yet.
    pub current_pulse_us: Option<u64>,
}

impl ServoActuator {
    /// A valid actuator has a valid configuration.
    pub open spec fn wf(&self) -> bool {
        self.config.wf()
    }

    /// A fresh actuator for `servo`: stopped, nothing commanded yet.
    pub fn new(servo: Servo, config: ServoConfig) -> (a: ServoActuator)
        requires
            config.wf(),
        ensures
            a.wf(),
            a.servo == servo,
            a.config == config,
            !a.running,
            a.current_pulse_us is None,
    {
        ServoActuator { servo, config, running: false, current_pulse_us: None }
    }

    /// Starts the actuator; everything else stands unchanged.
    pub fn start(&mut self)
        ensures
            final(self).running,
            final(self).servo == old(self).servo,
            final(self).config == old(self).config,
            final(self).current_pulse_us == old(self).current_pulse_us,
    {
        self.running = true;
    }

    /// Stops the actuator; everything else stands unchanged.
    pub fn stop(&mut self)
        ensures
            !final(self).running,
            final(self).servo == old(self).servo,
            final(self).config == old(self).config,
            final(self).current_pulse_us == old(self).current_pulse_us,
    {
        self.running = false;
    }

    /// Rotates to `degrees`: computes the commanded pulse width, records
    /// it, and returns it for the waveform generator to apply.
    pub fn rotate(&mut self, degrees: u8) -> (p: u64)
        requires
            old(self).wf(),
        ensures
            final(self).wf(),
            p == spec_pulse_width(old(self).config, degrees),
            old(self).config.min_pulse_width_us <= p <= old(self).config.max_pulse_width_us,
            final(self).current_pulse_us == Some(p),
            final(self).servo == old(self).servo,
            final(self).config == old(self).config,
            final(self).running == old(self).running,
    {
        proof {
            lemma_pulse_width_in_band(self.config, degrees);
        }
        let d: u64 = if (degrees as u64) <= self.config.max_degree_rotation {
            degrees as u64
        } else {
            self.config.max_degree_rotation
        };
        let span: u64 = self.config.max_pulse_width_us - self.config.min_pulse_width_us;
        proof {
            lemma_mul_inequality(d as int, 255, span as int);
            lemma_mul_inequality(d as int, self.config.max_degree_rotation as int, span as int);
        }
        let scaled: u64 = d * span;
        let p: u64 = self.config.min_pulse_width_us + scaled / self.config.max_degree_rotation;
        self.current_pulse_us = Some(p);
        p
    }
}

} // verus!
