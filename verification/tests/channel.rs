use servo_core::channel::{RequestChannel, CHANNEL_CAPACITY};
use servo_core::command::{Servo, ServoMoveRequest};

fn request(servo: Servo, degrees: u8) -> ServoMoveRequest {
    ServoMoveRequest { servo, degrees }
}

#[test]
fn receives_in_the_order_sent() {
    let mut channel = RequestChannel::new();
    let a = request(Servo::Arm, 1);
    let b = request(Servo::Thumb, 2);
    assert_eq!(channel.try_send(a), Ok(()));
    assert_eq!(channel.try_send(b), Ok(()));
    assert_eq!(channel.try_receive(), Some(a));
    assert_eq!(channel.try_receive(), Some(b));
    assert_eq!(channel.try_receive(), None);
}

#[test]
fn empty_channel_yields_nothing() {
    let mut channel = RequestChannel::new();
    assert!(channel.is_empty());
    assert_eq!(channel.try_receive(), None);
    assert_eq!(channel.len(), 0);
}

#[test]
fn a_full_channel_refuses_and_returns_the_request() {
    let mut channel = RequestChannel::new();
    for i in 0..CHANNEL_CAPACITY {
        let r = request(Servo::Fingers, (i % 256) as u8);
        assert_eq!(channel.try_send(r), Ok(()));
    }
    assert!(channel.is_full());
    let overflow = request(Servo::Arm, 99);
    // Backpressure: the refused request comes back; nothing already queued
    // is disturbed.
    assert_eq!(channel.try_send(overflow), Err(overflow));
    assert_eq!(channel.len(), CHANNEL_CAPACITY);
}

#[test]
fn no_request_is_lost_under_sustained_overload() {
    let mut channel = RequestChannel::new();
    for i in 0..CHANNEL_CAPACITY {
        assert_eq!(channel.try_send(request(Servo::Thumb, i as u8)), Ok(()));
    }
    let retried = request(Servo::Arm, 200);
    // The producer is held off while the channel is full...
    assert_eq!(channel.try_send(retried), Err(retried));
    // ...until the consumer makes room; the retry then succeeds.
    assert_eq!(channel.try_receive(), Some(request(Servo::Thumb, 0)));
    assert_eq!(channel.try_send(retried), Ok(()));
    // Everything accepted comes out, in arrival order, nothing dropped or
    // duplicated.
    for i in 1..CHANNEL_CAPACITY {
        assert_eq!(channel.try_receive(), Some(request(Servo::Thumb, i as u8)));
    }
    assert_eq!(channel.try_receive(), Some(retried));
    assert_eq!(channel.try_receive(), None);
}
