use servo_core::actuator::{ServoActuator, ServoConfig};
use servo_core::channel::RequestChannel;
use servo_core::command::{Servo, ServoMoveRequest};
use servo_core::dispatch::{Dispatcher, PACING_INTERVAL_US};
use servo_core::transport::{process_line, LineBuffer, LineOutcome};

// The reference sizing: 500..2500 microseconds over 100 degrees.
fn reference_config() -> ServoConfig {
    ServoConfig::new(500, 2500, 100).expect("the reference configuration is valid")
}

fn actuators() -> (ServoActuator, ServoActuator, ServoActuator) {
    let config = reference_config();
    (
        ServoActuator::new(Servo::Thumb, config),
        ServoActuator::new(Servo::Arm, config),
        ServoActuator::new(Servo::Fingers, config),
    )
}

#[test]
fn configuration_is_validated() {
    assert!(ServoConfig::new(500, 2500, 100).is_some());
    // The minimum pulse width must lie strictly below the maximum.
    assert!(ServoConfig::new(2500, 500, 100).is_none());
    assert!(ServoConfig::new(500, 500, 100).is_none());
    // An empty rotation range is rejected.
    assert!(ServoConfig::new(500, 2500, 0).is_none());
}

#[test]
fn rotation_maps_degrees_linearly_onto_the_pulse_band() {
    let (mut thumb, _, _) = actuators();
    assert_eq!(thumb.rotate(0), 500);
    assert_eq!(thumb.rotate(50), 1500);
    assert_eq!(thumb.rotate(90), 2300);
    assert_eq!(thumb.rotate(100), 2500);
    // Degrees beyond the configured range clamp to its end.
    assert_eq!(thumb.rotate(255), 2500);
}

#[test]
fn dispatch_routes_to_the_matching_actuator_only() {
    let (mut thumb, mut arm, mut fingers) = actuators();
    let mut dispatcher = Dispatcher::new();
    let request = ServoMoveRequest { servo: Servo::Arm, degrees: 25 };
    let pulse = dispatcher.dispatch(0, request, &mut thumb, &mut arm, &mut fingers);
    assert_eq!(pulse, 1000);
    assert_eq!(arm.current_pulse_us, Some(1000));
    assert_eq!(thumb.current_pulse_us, None);
    assert_eq!(fingers.current_pulse_us, None);
}

#[test]
fn consecutive_actuations_respect_the_pacing_interval() {
    let (mut thumb, mut arm, mut fingers) = actuators();
    let mut dispatcher = Dispatcher::new();
    let mut channel = RequestChannel::new();
    channel.try_send(ServoMoveRequest { servo: Servo::Thumb, degrees: 10 }).unwrap();
    channel.try_send(ServoMoveRequest { servo: Servo::Thumb, degrees: 20 }).unwrap();

    // Timestamped polls of one simulated clock: the second request must
    // wait out the full interval after the first actuation.
    assert!(dispatcher.poll(0, &mut channel, &mut thumb, &mut arm, &mut fingers).is_some());
    let too_soon = PACING_INTERVAL_US - 1;
    assert!(dispatcher.poll(too_soon, &mut channel, &mut thumb, &mut arm, &mut fingers).is_none());
    assert_eq!(channel.len(), 1);
    assert!(
        dispatcher
            .poll(PACING_INTERVAL_US, &mut channel, &mut thumb, &mut arm, &mut fingers)
            .is_some()
    );
    assert_eq!(channel.len(), 0);
}

#[test]
fn end_to_end_one_line_moves_exactly_one_servo() {
    let (mut thumb, mut arm, mut fingers) = actuators();
    let mut dispatcher = Dispatcher::new();
    let mut channel = RequestChannel::new();
    let mut buffer = LineBuffer::new();

    thumb.start();
    arm.start();
    fingers.start();

    let mut lines = Vec::new();
    for &byte in b"  thumb 90  \n" {
        if let Some(line) = buffer.push_byte(byte) {
            lines.push(line);
        }
    }
    assert_eq!(lines.len(), 1);
    assert_eq!(process_line(&mut channel, &lines[0]), LineOutcome::Enqueued);

    let pulse = dispatcher.poll(0, &mut channel, &mut thumb, &mut arm, &mut fingers);
    assert_eq!(pulse, Some(2300));
    assert_eq!(thumb.current_pulse_us, Some(2300));
    assert_eq!(arm.current_pulse_us, None);
    assert_eq!(fingers.current_pulse_us, None);
    assert!(channel.is_empty());
    assert!(dispatcher.poll(0, &mut channel, &mut thumb, &mut arm, &mut fingers).is_none());
}

#[test]
fn reset_and_noise_lines_leave_the_channel_alone() {
    let mut channel = RequestChannel::new();
    assert_eq!(process_line(&mut channel, b"q"), LineOutcome::Reset);
    assert_eq!(process_line(&mut channel, b"ELF2UF2-TERM"), LineOutcome::Reset);
    assert_eq!(process_line(&mut channel, b"gibberish"), LineOutcome::Ignored);
    assert!(channel.is_empty());
}

#[test]
fn a_move_line_against_a_full_channel_comes_back() {
    let mut channel = RequestChannel::new();
    for _ in 0..servo_core::channel::CHANNEL_CAPACITY {
        assert_eq!(process_line(&mut channel, b"arm 1"), LineOutcome::Enqueued);
    }
    // Once the channel is full, the request rides back to the caller.
    assert_eq!(
        process_line(&mut channel, b"arm 7"),
        LineOutcome::ChannelFull(ServoMoveRequest { servo: Servo::Arm, degrees: 7 })
    );
    assert_eq!(channel.len(), servo_core::channel::CHANNEL_CAPACITY);
}

#[test]
fn a_partial_line_has_no_effect() {
    let mut buffer = LineBuffer::new();
    for &byte in b"thumb 9" {
        assert!(buffer.push_byte(byte).is_none());
    }
    let line = buffer.push_byte(b'\n').expect("the delimiter completes the line");
    assert_eq!(line, b"thumb 9".to_vec());
    // The buffer starts over after handing a line out.
    let next = buffer.push_byte(b'\n').expect("an empty line completes at once");
    assert!(next.is_empty());
}
