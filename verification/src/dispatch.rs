//! The dispatch loop's decision core: the single consumer of the request
//! channel.  It routes each request to the actuator named by its target
//! and paces consecutive actuations by a fixed interval.  The event loop
//! around it supplies timestamps and performs the waits; every decision is
//! made here.

use vstd::prelude::*;

use crate::actuator::{spec_pulse_width, ServoActuator};
use crate::channel::RequestChannel;
use crate::command::{Servo, ServoMoveRequest};

verus! {

/// The least time between two consecutive actuations, in microseconds.
pub const PACING_INTERVAL_US: u64 = 10000;

/// The dispatcher's state: when it last actuated, if ever.
pub struct Dispatcher {
    /// Timestamp of the last actuation, in microseconds.
    pub last_actuation_us: Option<u64>,
}

impl Dispatcher {
    /// A dispatcher that has not actuated yet.
    pub fn new() -> (d: Dispatcher)
        ensures
            d.last_actuation_us is None,
    {
        Dispatcher { last_actuation_us: None }
    }

    /// Whether an actuation at time `now_us` respects the pacing interval:
    /// always before the first actuation, and afterwards only once the
    /// interval has passed since the last one.
    pub open spec fn ready_at(&self, now_us: u64) -> bool {
        match self.last_actuation_us {
            None => true,
            Some(t) => now_us as int >= t as int + PACING_INTERVAL_US as int,
        }
    }

    /// Whether the dispatcher may actuate at time `now_us`.
    pub fn ready(&self, now_us: u64) -> (r: bool)
        ensures
            r == self.ready_at(now_us),
    {
        match self.last_actuation_us {
            None => true,
            Some(t) => now_us >= t && now_us - t >= PACING_INTERVAL_US,
        }
    }

    /// Routes one request to the actuator matching its target, rotates
    /// that actuator, records the actuation time, and returns the
    /// commanded pulse width.  The two other actuators stand untouched.
    pub fn dispatch(&mut self, now_us: u64, request: ServoMoveRequest, thumb: &mut ServoActuator,
        arm: &mut ServoActuator, fingers: &mut ServoActuator) -> (p: u64)
        requires
            old(self).ready_at(now_us),
            old(thumb).wf(),
            old(arm).wf(),
            old(fingers).wf(),
        ensures
            final(self).last_actuation_us == Some(now_us),
            final(thumb).wf() && final(arm).wf() && final(fingers).wf(),
            request.servo is Thumb ==> p == spec_pulse_width(old(thumb).config, request.degrees)
                && final(thumb).current_pulse_us == Some(p) && *final(arm) == *old(arm)
                && *final(fingers) == *old(fingers),
            request.servo is Arm ==> p == spec_pulse_width(old(arm).config, request.degrees)
                && final(arm).current_pulse_us == Some(p) && *final(thumb) == *old(thumb)
                && *final(fingers) == *old(fingers),
            request.servo is Fingers ==> p == spec_pulse_width(old(fingers).config,
                request.degrees) && final(fingers).current_pulse_us == Some(p)
                && *final(thumb) == *old(thumb) && *final(arm) == *old(arm),
            final(thumb).config == old(thumb).config && final(thumb).servo == old(thumb).servo
                && final(thumb).running == old(thumb).running,
            final(arm).config == old(arm).config && final(arm).servo == old(arm).servo
                && final(arm).running == old(arm).running,
            final(fingers).config == old(fingers).config && final(fingers).servo == old(
                fingers,
            ).servo && final(fingers).running == old(fingers).running,
    {
        self.last_actuation_us = Some(now_us);
        match request.servo {
            Servo::Thumb => thumb.rotate(request.degrees),
            Servo::Arm => arm.rotate(request.degrees),
            Servo::Fingers => fingers.rotate(request.degrees),
        }
    }

    /// Takes the oldest queued request, if the channel holds one and the
    /// pacing interval allows, and dispatches it; returns the commanded
    /// pulse width when it actuated.  Requests leave the channel in
    /// arrival order, one per call, and only on an actuation.
    pub fn poll(&mut self, now_us: u64, channel: &mut RequestChannel, thumb: &mut ServoActuator,
        arm: &mut ServoActuator, fingers: &mut ServoActuator) -> (p: Option<u64>)
        requires
            old(channel).wf(),
            old(thumb).wf(),
            old(arm).wf(),
            old(fingers).wf(),
        ensures
            final(channel).wf(),
            final(thumb).wf() && final(arm).wf() && final(fingers).wf(),
            !old(self).ready_at(now_us) || old(channel)@.len() == 0 ==> p is None
                && *final(self) == *old(self) && final(channel)@ == old(channel)@
                && *final(thumb) == *old(thumb) && *final(arm) == *old(arm)
                && *final(fingers) == *old(fingers),
            old(self).ready_at(now_us) && old(channel)@.len() > 0 ==> ({
                let request = old(channel)@[0];
                &&& final(channel)@ == old(channel)@.skip(1)
                &&& final(self).last_actuation_us == Some(now_us)
                &&& (request.servo is Thumb ==> p == Some(spec_pulse_width(old(thumb).config,
                    request.degrees) as u64) && final(thumb).current_pulse_us == p
                    && *final(arm) == *old(arm) && *final(fingers) == *old(fingers))
                &&& (request.servo is Arm ==> p == Some(spec_pulse_width(old(arm).config,
                    request.degrees) as u64) && final(arm).current_pulse_us == p
                    && *final(thumb) == *old(thumb) && *final(fingers) == *old(fingers))
                &&& (request.servo is Fingers ==> p == Some(spec_pulse_width(old(fingers).config,
                    request.degrees) as u64) && final(fingers).current_pulse_us == p
                    && *final(thumb) == *old(thumb) && *final(arm) == *old(arm))
            }),
    {
        if !self.ready(now_us) {
            return None;
        }
        match channel.try_receive() {
            Some(request) => Some(self.dispatch(now_us, request, thumb, arm, fingers)),
            None => None,
        }
    }
}

/// Dispatch pacing: whenever the dispatcher actuated at some time and is
/// ready again at a later reading of the same clock, at least the pacing
/// interval lies between the two timestamps.  Consecutive actuations are
/// therefore separated by at least the configured interval.
pub proof fn lemma_dispatch_pacing(d: Dispatcher, now1: u64, now2: u64)
    requires
        d.last_actuation_us == Some(now1),
        d.ready_at(now2),
    ensures
        now2 as int >= now1 as int + PACING_INTERVAL_US as int,
{
}

} // verus!
