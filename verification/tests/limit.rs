use inspect_core::limit::{LimitAction, LocalLimiter, SocketSpeedLimit, SpeedLimit};
use inspect_core::socks5s::udp_setup_relay;

fn limiter(shift_millis: u8, max_packets: usize, max_bytes: usize) -> LocalLimiter {
    LocalLimiter::new(SpeedLimit { shift_millis, max_packets, max_bytes })
}

#[test]
fn stream_is_held_to_bytes_per_window() {
    // windows of 1024 ms, 1000 bytes and 3 transfers each
    let mut l = limiter(10, 3, 1000);
    assert_eq!(l.check_stream(5, 600), LimitAction::Advance(600));
    assert!(l.is_pending());
    assert_eq!(l.granted_bytes(), 600);
    l.record(600);
    assert!(!l.is_pending());
    assert_eq!(l.check_stream(100, 600), LimitAction::Advance(400));
    l.record(250);
    assert_eq!(l.check_stream(200, 600), LimitAction::Advance(150));
    l.record(150);
    // three transfers were made, and the bytes are used up
    assert_eq!(l.check_stream(1000, 1), LimitAction::DelayFor(24));
    assert_eq!(l.check_stream(1023, 1), LimitAction::DelayFor(1));
    assert_eq!(l.check_stream(1024, 5000), LimitAction::Advance(1000));
    l.record(1000);
    assert_eq!(l.check_stream(1025, 1), LimitAction::DelayFor(1023));
}

#[test]
fn stream_is_held_to_transfers_per_window() {
    let mut l = limiter(4, 2, 1 << 20);
    assert_eq!(l.check_stream(16, 10), LimitAction::Advance(10));
    l.record(10);
    assert_eq!(l.check_stream(17, 10), LimitAction::Advance(10));
    l.record(1);
    assert_eq!(l.check_stream(18, 10), LimitAction::DelayFor(14));
    assert_eq!(l.check_stream(32, 10), LimitAction::Advance(10));
}

#[test]
fn transfer_that_failed_is_not_counted() {
    let mut l = limiter(10, 1, 100);
    assert_eq!(l.check_stream(0, 100), LimitAction::Advance(100));
    l.cancel();
    assert!(!l.is_pending());
    assert_eq!(l.granted_bytes(), 0);
    assert_eq!(l.check_stream(1, 100), LimitAction::Advance(100));
    // asking again drops what was let through before
    assert_eq!(l.check_stream(2, 40), LimitAction::Advance(40));
    l.record(40);
    assert_eq!(l.check_stream(3, 40), LimitAction::DelayFor(1021));
    // a transfer of nothing goes ahead and is not counted
    assert_eq!(l.check_stream(4, 0), LimitAction::Advance(0));
    assert!(!l.is_pending());
}

#[test]
fn packets_are_held_whole() {
    let mut l = limiter(8, 10, 1500);
    assert_eq!(l.check_packet(0, 1000), LimitAction::Advance(1000));
    l.record(1000);
    assert_eq!(l.check_packet(1, 501), LimitAction::DelayFor(255));
    assert_eq!(l.check_packet(1, 500), LimitAction::Advance(500));
    l.record(500);
    assert_eq!(l.check_packet(2, 0), LimitAction::Advance(0));
    assert!(l.is_pending());
    l.record(0);
    assert_eq!(l.check_packet(255, 1), LimitAction::DelayFor(1));
    assert_eq!(l.check_packet(256, 1501), LimitAction::DelayFor(256));
    assert_eq!(l.check_packet(256, 1500), LimitAction::Advance(1500));
}

#[test]
fn packet_larger_than_the_limit_never_goes() {
    let mut l = limiter(4, 10, 100);
    assert!(l.admits_packet(100));
    assert!(!l.admits_packet(101));
    assert!(l.admits_stream());
    // it waits in this window and in every later one
    assert_eq!(l.check_packet(0, 101), LimitAction::DelayFor(16));
    assert_eq!(l.check_packet(16, 101), LimitAction::DelayFor(16));
    assert_eq!(l.check_packet(1 << 40, 101), LimitAction::DelayFor(16));
    assert!(!l.is_pending());
    // a stream is cut to what the window has left
    assert_eq!(l.check_stream(1 << 40, 101), LimitAction::Advance(100));
    let none = limiter(4, 0, 100);
    assert!(!none.admits_packet(0));
    assert!(!none.admits_stream());
    let empty = limiter(4, 5, 0);
    assert!(empty.admits_packet(0));
    assert!(!empty.admits_packet(1));
    assert!(!empty.admits_stream());
}

#[test]
fn limits_of_nothing_let_nothing_through() {
    let mut l = limiter(0, 0, 10);
    assert_eq!(l.check_stream(7, 1), LimitAction::DelayFor(1));
    assert_eq!(l.check_packet(7, 0), LimitAction::DelayFor(1));
    let mut l = limiter(0, 10, 0);
    assert_eq!(l.check_stream(7, 1), LimitAction::DelayFor(1));
    assert_eq!(l.check_packet(7, 0), LimitAction::Advance(0));
}

#[test]
fn shift_is_capped() {
    let mut l = limiter(200, 1, 1);
    assert_eq!(l.check_stream(u64::MAX, 1), LimitAction::Advance(1));
    l.record(1);
    assert_eq!(l.check_stream(u64::MAX, 1), LimitAction::DelayFor(1));
    assert_eq!(l.check_stream(1 << 63, 1), LimitAction::DelayFor(1 << 63));
    assert_eq!(l.check_stream(0, 1), LimitAction::Advance(1));
}

#[test]
fn relay_limits_by_direction() {
    let limit = SocketSpeedLimit {
        shift_millis: 10,
        max_north_packets: 1,
        max_north_bytes: 100,
        max_south_packets: 2,
        max_south_bytes: 200,
    };
    assert_eq!(
        limit.north(),
        SpeedLimit { shift_millis: 10, max_packets: 1, max_bytes: 100 }
    );
    assert_eq!(
        limit.south(),
        SpeedLimit { shift_millis: 10, max_packets: 2, max_bytes: 200 }
    );
    let (mut recv, mut send) = udp_setup_relay(&limit);
    assert_eq!(recv.check_packet(0, 200), LimitAction::Advance(200));
    recv.record(200);
    assert_eq!(recv.check_packet(0, 1), LimitAction::DelayFor(1024));
    assert_eq!(send.check_packet(0, 101), LimitAction::DelayFor(1024));
    assert_eq!(send.check_packet(0, 100), LimitAction::Advance(100));
    send.record(100);
    assert_eq!(send.check_packet(1, 0), LimitAction::DelayFor(1023));
}
