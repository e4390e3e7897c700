//! Speed limits: so many bytes and so many packets per window of time.

use vstd::prelude::*;
use vstd::arithmetic::power2::pow2;

verus! {

/// The limits of one direction of a socket. A window is `2^shift_millis`
/// milliseconds long.
#[derive(Clone, Copy, Debug, PartialEq, Eq, Structural)]
pub struct SpeedLimit {
    pub shift_millis: u8,
    pub max_packets: usize,
    pub max_bytes: usize,
}

/// The limits of both directions of a socket: north is what is sent to the
/// peer, south is what comes from it.
#[derive(Clone, Copy, Debug, PartialEq, Eq, Structural)]
pub struct SocketSpeedLimit {
    pub shift_millis: u8,
    pub max_north_packets: usize,
    pub max_north_bytes: usize,
    pub max_south_packets: usize,
    pub max_south_bytes: usize,
}

impl SocketSpeedLimit {
    /// The limits on what is received.
    pub open spec fn spec_south(self) -> SpeedLimit {
        SpeedLimit {
            shift_millis: self.shift_millis,
            max_packets: self.max_south_packets,
            max_bytes: self.max_south_bytes,
        }
    }

    /// The limits on what is sent.
    pub open spec fn spec_north(self) -> SpeedLimit {
        SpeedLimit {
            shift_millis: self.shift_millis,
            max_packets: self.max_north_packets,
            max_bytes: self.max_north_bytes,
        }
    }

    /// The limits on what is received.
    pub fn south(&self) -> (r: SpeedLimit)
        ensures
            r == self.spec_south(),
    {
        SpeedLimit {
            shift_millis: self.shift_millis,
            max_packets: self.max_south_packets,
            max_bytes: self.max_south_bytes,
        }
    }

    /// The limits on what is sent.
    pub fn north(&self) -> (r: SpeedLimit)
        ensures
            r == self.spec_north(),
    {
        SpeedLimit {
            shift_millis: self.shift_millis,
            max_packets: self.max_north_packets,
            max_bytes: self.max_north_bytes,
        }
    }
}

/// One transfer that went through a limiter.
pub ghost struct Transfer {
    pub window: nat,
    pub bytes: nat,
}

/// The bytes that the transfers of `log` moved in window `w`.
pub open spec fn bytes_in(log: Seq<Transfer>, w: nat) -> nat
    decreases log.len(),
{
    if log.len() == 0 {
        0
    } else if log.last().window == w {
        bytes_in(log.drop_last(), w) + log.last().bytes
    } else {
        bytes_in(log.drop_last(), w)
    }
}

/// The number of transfers of `log` in window `w`.
pub open spec fn packets_in(log: Seq<Transfer>, w: nat) -> nat
    decreases log.len(),
{
    if log.len() == 0 {
        0
    } else if log.last().window == w {
        packets_in(log.drop_last(), w) + 1
    } else {
        packets_in(log.drop_last(), w)
    }
}

/// The window that the time `now_millis` lies in.
pub open spec fn window_of(now_millis: u64, shift: u8) -> nat {
    now_millis as nat / pow2(shift as nat)
}

/// The time from `now_millis` to the start of the next window.
pub open spec fn until_next_window(now_millis: u64, shift: u8) -> nat {
    (pow2(shift as nat) - now_millis as nat % pow2(shift as nat)) as nat
}

/// What a limiter says to a transfer that asks to go ahead.
#[derive(Clone, Copy, Debug, PartialEq, Eq, Structural)]
pub enum LimitAction {
    /// Go ahead, with so many bytes at most.
    Advance(usize),
    /// Wait so many milliseconds, until the next window starts, and ask
    /// again.
    DelayFor(u64),
}

/// Counts what one direction of a socket moves, window by window, and
/// holds transfers back that would exceed the limits.
pub struct LocalLimiter {
    shift: u8,
    max_packets: usize,
    max_bytes: usize,
    window: u64,
    packets: usize,
    bytes: usize,
    granted: usize,
    pending: bool,
    log: Ghost<Seq<Transfer>>,
    steady: Ghost<bool>,
}

/// A limiter as values.
pub ghost struct LimiterView {
    /// A window is `2^shift` milliseconds long.
    pub shift: u8,
    pub max_packets: usize,
    pub max_bytes: usize,
    /// The window that is being counted.
    pub window: nat,
    /// The transfers counted in the window.
    pub packets: nat,
    /// The bytes counted in the window.
    pub bytes: nat,
    /// The bytes that the transfer that was let through last may move.
    pub granted: nat,
    /// Whether a transfer was let through and has not reported back.
    pub pending: bool,
    /// Every transfer that reported back, oldest first.
    pub log: Seq<Transfer>,
    /// Whether the clock has never gone back to an earlier window.
    pub steady: bool,
}

impl View for LocalLimiter {
    type V = LimiterView;

    closed spec fn view(&self) -> LimiterView {
        LimiterView {
            shift: self.shift,
            max_packets: self.max_packets,
            max_bytes: self.max_bytes,
            window: self.window as nat,
            packets: self.packets as nat,
            bytes: self.bytes as nat,
            granted: self.granted as nat,
            pending: self.pending,
            log: self.log@,
            steady: self.steady@,
        }
    }
}

/// What can be asked of a limiter.
pub ghost enum LimiterOp {
    /// A stream asks to move up to `want` bytes at the time `now_millis`.
    CheckStream { now_millis: u64, want: usize },
    /// A packet of `size` bytes asks to go at the time `now_millis`.
    CheckPacket { now_millis: u64, size: usize },
    /// The transfer that was let through reports what it moved.
    Record { transferred: usize },
    /// The transfer that was let through failed, or was not made.
    Cancel,
}

/// The time at which `op` asks, if it asks at a time.
pub open spec fn time_of(op: LimiterOp) -> Option<u64> {
    match op {
        LimiterOp::CheckStream { now_millis, want } => Some(now_millis),
        LimiterOp::CheckPacket { now_millis, size } => Some(now_millis),
        _ => None,
    }
}

/// The latest time at which one of `ops` asked; zero where none did.
pub open spec fn last_time(ops: Seq<LimiterOp>) -> u64
    decreases ops.len(),
{
    if ops.len() == 0 {
        0
    } else {
        match time_of(ops.last()) {
            Some(t) => t,
            None => last_time(ops.drop_last()),
        }
    }
}

/// Whether the clock never goes back in `ops`: each time is no earlier
/// than the times before it.
pub open spec fn clock_goes_on(ops: Seq<LimiterOp>) -> bool
    decreases ops.len(),
{
    ops.len() == 0 || (clock_goes_on(ops.drop_last()) && match time_of(ops.last()) {
        Some(t) => last_time(ops.drop_last()) <= t,
        None => true,
    })
}

impl LimiterView {
    /// A limiter that has seen nothing. A shift of more than 63 is taken
    /// as 63.
    pub open spec fn start(limit: SpeedLimit) -> LimiterView {
        LimiterView {
            shift: if limit.shift_millis < 64 {
                limit.shift_millis
            } else {
                63
            },
            max_packets: limit.max_packets,
            max_bytes: limit.max_bytes,
            window: 0,
            packets: 0,
            bytes: 0,
            granted: 0,
            pending: false,
            log: Seq::empty(),
            steady: true,
        }
    }

    /// The limiter at the time `now_millis`, before anything is asked of
    /// it: where the time lies in another window than the one counted so
    /// far, the counters start from zero. What was let through before and
    /// has not reported back is forgotten.
    pub open spec fn at(self, now_millis: u64) -> LimiterView {
        let window = window_of(now_millis, self.shift);
        if window == self.window {
            LimiterView { granted: 0, pending: false, ..self }
        } else {
            LimiterView {
                window,
                packets: 0,
                bytes: 0,
                granted: 0,
                pending: false,
                steady: self.steady && window > self.window,
                ..self
            }
        }
    }

    /// Whether the window has room for one more transfer.
    pub open spec fn has_room(self) -> bool {
        self.packets < self.max_packets && self.bytes < self.max_bytes
    }

    /// What a stream is told that asks to move up to `want` bytes at the
    /// time `now_millis`, and the limiter after that.
    ///
    /// The transfer may go ahead where fewer transfers than allowed were
    /// counted and fewer bytes than allowed, with as many bytes as the
    /// window has left; else it must wait for the next window. A transfer
    /// of no bytes goes ahead and is not counted.
    pub open spec fn check_stream(self, now_millis: u64, want: usize) -> (LimiterView, LimitAction) {
        let now = self.at(now_millis);
        if want == 0 {
            (now, LimitAction::Advance(0))
        } else if now.has_room() {
            let n = if want <= now.max_bytes - now.bytes {
                want as nat
            } else {
                (now.max_bytes - now.bytes) as nat
            };
            (LimiterView { granted: n, pending: true, ..now }, LimitAction::Advance(n as usize))
        } else {
            (now, LimitAction::DelayFor(until_next_window(now_millis, self.shift) as u64))
        }
    }

    /// What a packet of `size` bytes is told that asks to go at the time
    /// `now_millis`, and the limiter after that.
    ///
    /// The packet may go ahead where fewer packets than allowed were
    /// counted and the window has `size` bytes left; else it must wait for
    /// the next window. A packet is never cut: one that is larger than the
    /// limit on bytes waits in every window and never goes ahead, so that
    /// no window sees more bytes than its limit. `admits_packet` tells
    /// such a packet before it is made to wait.
    pub open spec fn check_packet(self, now_millis: u64, size: usize) -> (LimiterView, LimitAction) {
        let now = self.at(now_millis);
        if now.packets < now.max_packets && now.bytes + size <= now.max_bytes {
            (
                LimiterView { granted: size as nat, pending: true, ..now },
                LimitAction::Advance(size),
            )
        } else {
            (now, LimitAction::DelayFor(until_next_window(now_millis, self.shift) as u64))
        }
    }

    /// Whether a packet of `size` bytes can go ahead at all: in a window
    /// that has seen nothing yet.
    pub open spec fn admits_packet(self, size: usize) -> bool {
        self.max_packets > 0 && size <= self.max_bytes
    }

    /// Whether a stream can move anything at all.
    pub open spec fn admits_stream(self) -> bool {
        self.max_packets > 0 && self.max_bytes > 0
    }

    /// What holds of every limiter that is reached from `start`: the
    /// counters are within the limits, with what was let through and has
    /// not reported back; and as long as the clock never went back, the
    /// counters hold what the log tells of the window that is counted, and
    /// the log tells of no window more than the limits allow.
    pub open spec fn inv(self) -> bool {
        &&& self.shift < 64
        &&& self.bytes + self.granted <= self.max_bytes
        &&& self.packets <= self.max_packets
        &&& self.pending ==> self.packets < self.max_packets
        &&& !self.pending ==> self.granted == 0
        &&& self.steady ==> {
            &&& self.bytes == bytes_in(self.log, self.window)
            &&& self.packets == packets_in(self.log, self.window)
            &&& forall|i: int| 0 <= i < self.log.len() ==> (#[trigger] self.log[i]).window
                <= self.window
            &&& forall|w: nat| #[trigger] bytes_in(self.log, w) <= self.max_bytes
            &&& forall|w: nat| #[trigger] packets_in(self.log, w) <= self.max_packets
        }
    }

    /// Whether `op` may be asked of the limiter: a transfer reports back
    /// only after it was let through, and with no more bytes than it was
    /// given.
    pub open spec fn accepts(self, op: LimiterOp) -> bool {
        match op {
            LimiterOp::Record { transferred } => self.pending && transferred <= self.granted,
            _ => true,
        }
    }

    /// The limiter after `op`.
    pub open spec fn apply(self, op: LimiterOp) -> LimiterView {
        match op {
            LimiterOp::CheckStream { now_millis, want } => self.check_stream(now_millis, want).0,
            LimiterOp::CheckPacket { now_millis, size } => self.check_packet(now_millis, size).0,
            LimiterOp::Record { transferred } => self.record(transferred),
            LimiterOp::Cancel => self.cancel(),
        }
    }

    /// The limiter after the operations `ops`, in this order.
    pub open spec fn run(self, ops: Seq<LimiterOp>) -> LimiterView
        decreases ops.len(),
    {
        if ops.len() == 0 {
            self
        } else {
            self.run(ops.drop_last()).apply(ops.last())
        }
    }

    /// Whether each of `ops` may be asked of the limiter when its turn
    /// comes.
    pub open spec fn accepts_all(self, ops: Seq<LimiterOp>) -> bool
        decreases ops.len(),
    {
        ops.len() == 0 || (self.accepts_all(ops.drop_last()) && self.run(ops.drop_last()).accepts(
            ops.last(),
        ))
    }

    /// The limiter after the transfer that was let through reported that
    /// it moved `transferred` bytes.
    pub open spec fn record(self, transferred: usize) -> LimiterView {
        LimiterView {
            packets: self.packets + 1,
            bytes: self.bytes + transferred as nat,
            granted: 0,
            pending: false,
            log: self.log.push(Transfer { window: self.window, bytes: transferred as nat }),
            ..self
        }
    }

    /// The limiter after what was let through last was dropped.
    pub open spec fn cancel(self) -> LimiterView {
        LimiterView { granted: 0, pending: false, ..self }
    }
}

proof fn lemma_nothing_in_later_window(log: Seq<Transfer>, last: nat, w: nat)
    requires
        forall|i: int| 0 <= i < log.len() ==> (#[trigger] log[i]).window <= last,
        last < w,
    ensures
        bytes_in(log, w) == 0,
        packets_in(log, w) == 0,
    decreases log.len(),
{
    if log.len() > 0 {
        assert(log.last() == log[log.len() - 1]);
        assert forall|i: int| 0 <= i < log.drop_last().len() implies (
        #[trigger] log.drop_last()[i]).window <= last by {
            assert(log.drop_last()[i] == log[i]);
        }
        lemma_nothing_in_later_window(log.drop_last(), last, w);
    }
}

impl LocalLimiter {
    /// What holds of every limiter that this module hands out.
    pub open spec fn wf(&self) -> bool {
        self@.inv()
    }

    /// In every state the counters are within the limits, and so is what
    /// was let through but has not reported back.
    pub proof fn lemma_counters_within_limits(&self)
        requires
            self.wf(),
        ensures
            self@.shift < 64,
            self@.bytes + self@.granted <= self@.max_bytes,
            self@.packets <= self@.max_packets,
            self@.pending ==> self@.packets < self@.max_packets,
            !self@.pending ==> self@.granted == 0,
    {
    }

    /// As long as the clock never went back, no window has seen more bytes
    /// or more transfers than the limits allow, and the counters hold what
    /// the window that is being counted has seen.
    pub proof fn lemma_window_within_limits(&self, w: nat)
        requires
            self.wf(),
            self@.steady,
        ensures
            bytes_in(self@.log, w) <= self@.max_bytes,
            packets_in(self@.log, w) <= self@.max_packets,
            self@.bytes == bytes_in(self@.log, self@.window),
            self@.packets == packets_in(self@.log, self@.window),
    {
        assert(bytes_in(self@.log, w) <= self@.max_bytes);
        assert(packets_in(self@.log, w) <= self@.max_packets);
    }

    /// A limiter that has seen nothing.
    pub fn new(limit: SpeedLimit) -> (r: Self)
        ensures
            r.wf(),
            r@ == LimiterView::start(limit),
    {
        let shift = if limit.shift_millis < 64 {
            limit.shift_millis
        } else {
            63
        };
        LocalLimiter {
            shift,
            max_packets: limit.max_packets,
            max_bytes: limit.max_bytes,
            window: 0,
            packets: 0,
            bytes: 0,
            granted: 0,
            pending: false,
            log: Ghost(Seq::empty()),
            steady: Ghost(true),
        }
    }

    /// The bytes that the transfer let through last may move.
    pub fn granted_bytes(&self) -> (r: usize)
        ensures
            r == self@.granted,
    {
        self.granted
    }

    /// Whether a transfer was let through and has not reported back.
    pub fn is_pending(&self) -> (r: bool)
        ensures
            r == self@.pending,
    {
        self.pending
    }

    /// Whether a packet of `size` bytes can go ahead at all. One that
    /// cannot would wait in every window.
    pub fn admits_packet(&self, size: usize) -> (r: bool)
        ensures
            r == self@.admits_packet(size),
    {
        self.max_packets > 0 && size <= self.max_bytes
    }

    /// Whether a stream can move anything at all. One that cannot would
    /// wait in every window.
    pub fn admits_stream(&self) -> (r: bool)
        ensures
            r == self@.admits_stream(),
    {
        self.max_packets > 0 && self.max_bytes > 0
    }

    /// The window that `now_millis` lies in and the time left in it.
    fn locate(&self, now_millis: u64) -> (r: (u64, u64))
        requires
            self.shift < 64,
        ensures
            r.0 == window_of(now_millis, self.shift),
            r.1 == until_next_window(now_millis, self.shift),
            r.1 > 0,
    {
        let shift = self.shift as u64;
        proof {
            vstd::bits::lemma_u64_pow2_no_overflow(shift as nat);
            vstd::bits::lemma_u64_shl_is_mul(1, shift);
            vstd::bits::lemma_u64_shr_is_div(now_millis, shift);
        }
        let width: u64 = 1u64 << shift;
        let window = now_millis >> shift;
        (window, width - now_millis % width)
    }

    /// Moves on to the window of `now_millis` and returns the time left
    /// in it.
    fn roll(&mut self, now_millis: u64) -> (wait: u64)
        requires
            old(self).wf(),
        ensures
            final(self).wf(),
            final(self)@ == old(self)@.at(now_millis),
            wait == until_next_window(now_millis, old(self)@.shift),
    {
        let (window, wait) = self.locate(now_millis);
        self.granted = 0;
        self.pending = false;
        if window != self.window {
            proof {
                if self.steady@ && window > self.window {
                    lemma_nothing_in_later_window(self.log@, self.window as nat, window as nat);
                }
                self.steady@ = self.steady@ && window > self.window;
            }
            self.window = window;
            self.bytes = 0;
            self.packets = 0;
        }
        wait
    }

    /// Asks to move up to `want` bytes of a stream at the time
    /// `now_millis`.
    pub fn check_stream(&mut self, now_millis: u64, want: usize) -> (r: LimitAction)
        requires
            old(self).wf(),
        ensures
            final(self).wf(),
            (final(self)@, r) == old(self)@.check_stream(now_millis, want),
    {
        let wait = self.roll(now_millis);
        if want == 0 {
            return LimitAction::Advance(0);
        }
        if self.packets < self.max_packets && self.bytes < self.max_bytes {
            let left = self.max_bytes - self.bytes;
            let n = if want <= left {
                want
            } else {
                left
            };
            self.granted = n;
            self.pending = true;
            LimitAction::Advance(n)
        } else {
            LimitAction::DelayFor(wait)
        }
    }

    /// Asks to move one packet of `size` bytes at the time `now_millis`.
    pub fn check_packet(&mut self, now_millis: u64, size: usize) -> (r: LimitAction)
        requires
            old(self).wf(),
        ensures
            final(self).wf(),
            (final(self)@, r) == old(self)@.check_packet(now_millis, size),
    {
        let wait = self.roll(now_millis);
        if self.packets < self.max_packets && size <= self.max_bytes - self.bytes {
            self.granted = size;
            self.pending = true;
            LimitAction::Advance(size)
        } else {
            LimitAction::DelayFor(wait)
        }
    }

    /// Counts a transfer that was let through and has moved `transferred`
    /// bytes. A transfer that failed is not reported.
    pub fn record(&mut self, transferred: usize)
        requires
            old(self).wf(),
            old(self)@.pending,
            transferred <= old(self)@.granted,
        ensures
            final(self).wf(),
            final(self)@ == old(self)@.record(transferred),
    {
        let ghost entry = Transfer { window: self.window as nat, bytes: transferred as nat };
        let ghost before = self.log@;
        let ghost after = before.push(entry);
        proof {
            assert(after.drop_last() == before);
            assert(after.last() == entry);
            if self.steady@ {
                assert forall|w: nat| #[trigger] bytes_in(after, w) <= self.max_bytes by {
                    assert(bytes_in(before, w) <= self.max_bytes);
                }
                assert forall|w: nat| #[trigger] packets_in(after, w) <= self.max_packets by {
                    assert(packets_in(before, w) <= self.max_packets);
                }
            }
        }
        self.bytes = self.bytes + transferred;
        self.packets = self.packets + 1;
        self.granted = 0;
        self.pending = false;
        proof {
            self.log@ = after;
        }
    }

    /// Drops what was let through last, for a transfer that failed or was
    /// not made.
    pub fn cancel(&mut self)
        requires
            old(self).wf(),
        ensures
            final(self).wf(),
            final(self)@ == old(self)@.cancel(),
    {
        self.granted = 0;
        self.pending = false;
    }
}

/// Every operation keeps what holds of a limiter, and leaves the limits as
/// they are.
pub proof fn lemma_op_keeps_inv(v: LimiterView, op: LimiterOp)
    requires
        v.inv(),
        v.accepts(op),
    ensures
        v.apply(op).inv(),
        v.apply(op).shift == v.shift,
        v.apply(op).max_packets == v.max_packets,
        v.apply(op).max_bytes == v.max_bytes,
{
    match op {
        LimiterOp::CheckStream { now_millis, want } => {
            lemma_at_keeps_inv(v, now_millis);
        },
        LimiterOp::CheckPacket { now_millis, size } => {
            lemma_at_keeps_inv(v, now_millis);
        },
        LimiterOp::Record { transferred } => {
            let after = v.record(transferred);
            assert(after.log.drop_last() == v.log);
            if v.steady {
                assert forall|w: nat| #[trigger] bytes_in(after.log, w) <= v.max_bytes by {
                    assert(bytes_in(v.log, w) <= v.max_bytes);
                }
                assert forall|w: nat| #[trigger] packets_in(after.log, w) <= v.max_packets by {
                    assert(packets_in(v.log, w) <= v.max_packets);
                }
            }
        },
        LimiterOp::Cancel => {},
    }
}

proof fn lemma_at_keeps_inv(v: LimiterView, now_millis: u64)
    requires
        v.inv(),
    ensures
        v.at(now_millis).inv(),
{
    let window = window_of(now_millis, v.shift);
    if window != v.window && v.steady && window > v.window {
        lemma_nothing_in_later_window(v.log, v.window, window);
    }
}

/// Whatever is asked of a limiter, in whatever order, what holds of it
/// holds on, and its limits stay as they were.
pub proof fn lemma_run_keeps_inv(v: LimiterView, ops: Seq<LimiterOp>)
    requires
        v.inv(),
        v.accepts_all(ops),
    ensures
        v.run(ops).inv(),
        v.run(ops).shift == v.shift,
        v.run(ops).max_packets == v.max_packets,
        v.run(ops).max_bytes == v.max_bytes,
    decreases ops.len(),
{
    if ops.len() > 0 {
        lemma_run_keeps_inv(v, ops.drop_last());
        lemma_op_keeps_inv(v.run(ops.drop_last()), ops.last());
    }
}

/// A limiter that is asked at times that never go back counts the window
/// of the latest time, and knows that its clock never went back.
pub proof fn lemma_clock_that_goes_on(limit: SpeedLimit, ops: Seq<LimiterOp>)
    requires
        clock_goes_on(ops),
    ensures
        LimiterView::start(limit).run(ops).steady,
        LimiterView::start(limit).run(ops).shift == LimiterView::start(limit).shift,
        LimiterView::start(limit).run(ops).window == window_of(
            last_time(ops),
            LimiterView::start(limit).shift,
        ),
    decreases ops.len(),
{
    let start = LimiterView::start(limit);
    let width = pow2(start.shift as nat) as int;
    vstd::arithmetic::power2::lemma_pow2_pos(start.shift as nat);
    if ops.len() == 0 {
        vstd::arithmetic::div_mod::lemma_div_basics(width);
    } else {
        lemma_clock_that_goes_on(limit, ops.drop_last());
        match time_of(ops.last()) {
            Some(t) => {
                vstd::arithmetic::div_mod::lemma_div_is_ordered(
                    last_time(ops.drop_last()) as int,
                    t as int,
                    width,
                );
            },
            None => {},
        }
    }
}

/// Over any window, whatever was asked of a limiter and in whatever order,
/// the transfers that reported back moved no more bytes than the limit on
/// bytes, and were no more than the limit on transfers, provided that the
/// clock never went back.
pub proof fn lemma_no_window_exceeds_the_limits(limit: SpeedLimit, ops: Seq<LimiterOp>, w: nat)
    requires
        LimiterView::start(limit).accepts_all(ops),
        clock_goes_on(ops),
    ensures
        bytes_in(LimiterView::start(limit).run(ops).log, w) <= limit.max_bytes,
        packets_in(LimiterView::start(limit).run(ops).log, w) <= limit.max_packets,
{
    let start = LimiterView::start(limit);
    assert(start.inv()) by {
        assert forall|x: nat| #[trigger] bytes_in(start.log, x) <= start.max_bytes by {}
        assert forall|x: nat| #[trigger] packets_in(start.log, x) <= start.max_packets by {}
    }
    lemma_run_keeps_inv(start, ops);
    lemma_clock_that_goes_on(limit, ops);
    let end = start.run(ops);
    assert(bytes_in(end.log, w) <= end.max_bytes);
    assert(packets_in(end.log, w) <= end.max_packets);
}

/// A transfer that failed is not counted: dropping what was let through
/// leaves the counters and the log as they were.
pub proof fn lemma_failed_transfer_is_not_counted(v: LimiterView)
    ensures
        v.apply(LimiterOp::Cancel).log == v.log,
        v.apply(LimiterOp::Cancel).bytes == v.bytes,
        v.apply(LimiterOp::Cancel).packets == v.packets,
{
}

/// A packet that the limiter does not admit waits at every time; one that
/// it admits goes ahead as soon as a window starts in which nothing was
/// counted. The same holds of a stream that wants to move something.
pub proof fn lemma_who_waits_forever(v: LimiterView, now_millis: u64, size: usize)
    requires
        v.inv(),
    ensures
        !v.admits_packet(size) ==> v.check_packet(now_millis, size).1 is DelayFor,
        v.admits_packet(size) && window_of(now_millis, v.shift) != v.window ==> v.check_packet(
            now_millis,
            size,
        ).1 == LimitAction::Advance(size),
        !v.admits_stream() && size > 0 ==> v.check_stream(now_millis, size).1 is DelayFor,
        v.admits_stream() && size > 0 && window_of(now_millis, v.shift) != v.window
            ==> v.check_stream(now_millis, size).1 is Advance,
{
}

/// The wait that a limiter asks for ends exactly where the next window
/// starts: every earlier time lies in the same window still.
pub proof fn lemma_wait_ends_at_next_window(now_millis: u64, shift: u8, d: nat)
    requires
        shift < 64,
        d <= until_next_window(now_millis, shift),
        now_millis + d <= u64::MAX,
    ensures
        until_next_window(now_millis, shift) > 0,
        d < until_next_window(now_millis, shift) ==> window_of((now_millis + d) as u64, shift)
            == window_of(now_millis, shift),
        d == until_next_window(now_millis, shift) ==> window_of((now_millis + d) as u64, shift)
            == window_of(now_millis, shift) + 1,
{
    let width = pow2(shift as nat) as int;
    vstd::arithmetic::power2::lemma_pow2_pos(shift as nat);
    let now = now_millis as int;
    let q = now / width;
    let r = now % width;
    vstd::arithmetic::div_mod::lemma_fundamental_div_mod(now, width);
    vstd::arithmetic::div_mod::lemma_mod_bound(now, width);
    assert(now == width * q + r);
    if d < width - r {
        vstd::arithmetic::div_mod::lemma_fundamental_div_mod_converse(
            now + d,
            width,
            q,
            r + d,
        );
    } else {
        assert(now + d == width * (q + 1) + 0) by (nonlinear_arith)
            requires
                now == width * q + r,
                d == width - r,
        ;
        vstd::arithmetic::div_mod::lemma_fundamental_div_mod_converse(now + d, width, q + 1, 0);
    }
}

} // verus!
