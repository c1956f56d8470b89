//! Event counters: accumulators for key presses and mouse clicks.
//!
//! Each counter counts events since the last successful report. A reporter
//! snapshots the value, transmits it, and — only when the transmission
//! succeeded — removes exactly the transmitted amount, so events that raced
//! the transmission stay for the next window; on failure the counter keeps
//! accumulating, so the next window carries the unreported events as well.

use vstd::prelude::*;

verus! {

/// Counter of key-down events since the last successful report.
pub struct KeypressCounter {
    count: u64,
}

impl View for KeypressCounter {
    type V = nat;

    closed spec fn view(&self) -> nat {
        self.count as nat
    }
}

impl KeypressCounter {
    /// A fresh counter reads zero.
    pub fn new() -> (c: KeypressCounter)
        ensures
            c@ == 0,
    {
        KeypressCounter { count: 0 }
    }

    /// Record one key-down event.
    pub fn increment(&mut self)
        requires
            old(self)@ < u64::MAX,
        ensures
            final(self)@ == old(self)@ + 1,
    {
        self.count = self.count + 1;
    }

    /// Snapshot the current value without resetting.
    pub fn read(&self) -> (n: u64)
        ensures
            n == self@,
    {
        self.count
    }

    /// Return the current value and restore the counter to zero in one step.
    pub fn read_and_reset(&mut self) -> (n: u64)
        ensures
            n == old(self)@,
            final(self)@ == 0,
            (n as nat, final(self)@) == read_and_reset_step(old(self)@),
    {
        let n = self.count;
        self.count = 0;
        n
    }

    /// Close one reporter window for the snapshot that was transmitted: a
    /// successful transmission removes exactly the reported amount, so an
    /// increment that raced the transmission stays for the next window; a
    /// failed one leaves the counter untouched and the whole window is
    /// retransmitted with the next tick.
    pub fn commit_report(&mut self, success: bool, reported: u64)
        requires
            success ==> reported <= old(self)@,
        ensures
            final(self)@ == commit_step(old(self)@, success, reported as nat),
            success ==> final(self)@ == old(self)@ - reported,
            !success ==> final(self)@ == old(self)@,
    {
        if success {
            self.count = self.count - reported;
        }
    }
}

/// Mouse-button identifier that counts as a left click.
pub const LEFT_BUTTON: usize = 1;

/// Mouse-button identifier that counts as a right click.
pub const RIGHT_BUTTON: usize = 3;

/// Counters of left and right mouse-button clicks since the last successful
/// report. The two are snapshotted and reset together.
pub struct ClickCounters {
    left: u64,
    right: u64,
}

impl ClickCounters {
    /// Number of left clicks accumulated in the current window.
    pub closed spec fn left_count(&self) -> nat {
        self.left as nat
    }

    /// Number of right clicks accumulated in the current window.
    pub closed spec fn right_count(&self) -> nat {
        self.right as nat
    }

    /// Fresh counters read zero.
    pub fn new() -> (c: ClickCounters)
        ensures
            c.left_count() == 0,
            c.right_count() == 0,
    {
        ClickCounters { left: 0, right: 0 }
    }

    /// Record one button-down event. The left-button code increments the
    /// left count, the right-button code the right count; any other code is
    /// ignored and leaves both counts unchanged.
    pub fn record_button(&mut self, button: usize)
        requires
            button == LEFT_BUTTON ==> old(self).left_count() < u64::MAX,
            button == RIGHT_BUTTON ==> old(self).right_count() < u64::MAX,
        ensures
            button == LEFT_BUTTON ==> final(self).left_count() == old(self).left_count() + 1
                && final(self).right_count() == old(self).right_count(),
            button == RIGHT_BUTTON ==> final(self).right_count() == old(self).right_count() + 1
                && final(self).left_count() == old(self).left_count(),
            button != LEFT_BUTTON && button != RIGHT_BUTTON ==> final(self).left_count()
                == old(self).left_count() && final(self).right_count() == old(self).right_count(),
    {
        if button == LEFT_BUTTON {
            self.left = self.left + 1;
        } else if button == RIGHT_BUTTON {
            self.right = self.right + 1;
        }
    }

    /// Snapshot both counts without resetting.
    pub fn read(&self) -> (counts: (u64, u64))
        ensures
            counts.0 == self.left_count(),
            counts.1 == self.right_count(),
    {
        (self.left, self.right)
    }

    /// Return both counts and restore them to zero in one step.
    pub fn read_and_reset(&mut self) -> (counts: (u64, u64))
        ensures
            counts.0 == old(self).left_count(),
            counts.1 == old(self).right_count(),
            final(self).left_count() == 0,
            final(self).right_count() == 0,
    {
        let counts = (self.left, self.right);
        self.left = 0;
        self.right = 0;
        counts
    }

    /// Close one reporter window for the snapshot that was transmitted: a
    /// successful transmission removes exactly the reported amounts from the
    /// two counts, so clicks that raced the transmission stay for the next
    /// window; a failed one leaves both counts untouched.
    pub fn commit_report(&mut self, success: bool, reported_left: u64, reported_right: u64)
        requires
            success ==> reported_left <= old(self).left_count() && reported_right <= old(
                self,
            ).right_count(),
        ensures
            final(self).left_count() == commit_step(
                old(self).left_count(),
                success,
                reported_left as nat,
            ),
            final(self).right_count() == commit_step(
                old(self).right_count(),
                success,
                reported_right as nat,
            ),
            success ==> final(self).left_count() == old(self).left_count() - reported_left
                && final(self).right_count() == old(self).right_count() - reported_right,
            !success ==> final(self).left_count() == old(self).left_count()
                && final(self).right_count() == old(self).right_count(),
    {
        if success {
            self.left = self.left - reported_left;
            self.right = self.right - reported_right;
        }
    }
}

/// One operation applied to an event counter: an increment from an input
/// listener, or a read-and-reset from a reporter.
pub enum CounterOp {
    Increment,
    ReadAndReset,
}

/// What one read-and-reset does to a counter holding `count`: the snapshot
/// it returns, and the value the counter holds immediately afterwards.
pub open spec fn read_and_reset_step(count: nat) -> (nat, nat) {
    (count, 0)
}

/// The value a counter holds after running `ops` from value `start`.
pub open spec fn final_count(ops: Seq<CounterOp>, start: nat) -> nat
    decreases ops.len(),
{
    if ops.len() == 0 {
        start
    } else {
        match ops[0] {
            CounterOp::Increment => final_count(ops.drop_first(), start + 1),
            CounterOp::ReadAndReset => final_count(
                ops.drop_first(),
                read_and_reset_step(start).1,
            ),
        }
    }
}

/// The sum of the snapshots returned by the read-and-reset operations in
/// `ops`, run from value `start`.
pub open spec fn snapshots_sum(ops: Seq<CounterOp>, start: nat) -> nat
    decreases ops.len(),
{
    if ops.len() == 0 {
        0
    } else {
        match ops[0] {
            CounterOp::Increment => snapshots_sum(ops.drop_first(), start + 1),
            CounterOp::ReadAndReset => read_and_reset_step(start).0 + snapshots_sum(
                ops.drop_first(),
                read_and_reset_step(start).1,
            ),
        }
    }
}

/// The number of increment operations in `ops`.
pub open spec fn increment_count(ops: Seq<CounterOp>) -> nat
    decreases ops.len(),
{
    if ops.len() == 0 {
        0
    } else {
        (match ops[0] {
            CounterOp::Increment => 1 as nat,
            CounterOp::ReadAndReset => 0 as nat,
        }) + increment_count(ops.drop_first())
    }
}

/// Conservation from an arbitrary starting value: the snapshots plus the
/// final unread value account for the starting value and every increment.
pub proof fn lemma_counter_conservation(ops: Seq<CounterOp>, start: nat)
    ensures
        snapshots_sum(ops, start) + final_count(ops, start) == start + increment_count(ops),
    decreases ops.len(),
{
    if ops.len() > 0 {
        match ops[0] {
            CounterOp::Increment => lemma_counter_conservation(ops.drop_first(), start + 1),
            CounterOp::ReadAndReset => lemma_counter_conservation(ops.drop_first(), 0),
        }
    }
}

/// No increment is lost and none is double-counted: for any interleaving of
/// increments and read-and-resets run on a fresh counter, the sum of all
/// returned snapshots plus the final unread value equals the number of
/// increments.
pub proof fn lemma_no_lost_increments(ops: Seq<CounterOp>)
    ensures
        snapshots_sum(ops, 0) + final_count(ops, 0) == increment_count(ops),
{
    lemma_counter_conservation(ops, 0);
}

/// What a window commit does to a counter holding `count` when the
/// transmitted snapshot was `reported`: success removes exactly the
/// reported amount, failure changes nothing. A reported amount above the
/// current count never arises (the reporter is the only drainer), and is
/// treated as a failed commit.
pub open spec fn commit_step(count: nat, success: bool, reported: nat) -> nat {
    if success && reported <= count {
        (count - reported) as nat
    } else {
        count
    }
}

/// One operation in a reporter window: an increment from an input listener,
/// or the commit that ends a tick, carrying the snapshot that was
/// transmitted and whether the transmission succeeded.
pub enum ReportOp {
    Increment,
    Commit { success: bool, reported: nat },
}

/// The value a counter holds after running `ops` from value `start`.
pub open spec fn report_final_count(ops: Seq<ReportOp>, start: nat) -> nat
    decreases ops.len(),
{
    if ops.len() == 0 {
        start
    } else {
        match ops[0] {
            ReportOp::Increment => report_final_count(ops.drop_first(), start + 1),
            ReportOp::Commit { success, reported } => report_final_count(
                ops.drop_first(),
                commit_step(start, success, reported),
            ),
        }
    }
}

/// The sum of the snapshots acknowledged as delivered: what the successful
/// commits in `ops`, run from value `start`, removed from the counter.
pub open spec fn delivered_sum(ops: Seq<ReportOp>, start: nat) -> nat
    decreases ops.len(),
{
    if ops.len() == 0 {
        0
    } else {
        match ops[0] {
            ReportOp::Increment => delivered_sum(ops.drop_first(), start + 1),
            ReportOp::Commit { success, reported } => ((start - commit_step(
                start,
                success,
                reported,
            )) as nat) + delivered_sum(ops.drop_first(), commit_step(start, success, reported)),
        }
    }
}

/// The number of increment operations in `ops`.
pub open spec fn report_increment_count(ops: Seq<ReportOp>) -> nat
    decreases ops.len(),
{
    if ops.len() == 0 {
        0
    } else {
        (match ops[0] {
            ReportOp::Increment => 1 as nat,
            ReportOp::Commit { .. } => 0 as nat,
        }) + report_increment_count(ops.drop_first())
    }
}

/// Conservation along the snapshot-transmit-commit path, from an arbitrary
/// starting value: what the successful commits removed plus the final
/// unread value account for the starting value and every increment.
pub proof fn lemma_reporter_conservation(ops: Seq<ReportOp>, start: nat)
    ensures
        delivered_sum(ops, start) + report_final_count(ops, start) == start
            + report_increment_count(ops),
    decreases ops.len(),
{
    if ops.len() > 0 {
        match ops[0] {
            ReportOp::Increment => lemma_reporter_conservation(ops.drop_first(), start + 1),
            ReportOp::Commit { success, reported } => lemma_reporter_conservation(
                ops.drop_first(),
                commit_step(start, success, reported),
            ),
        }
    }
}

/// The reporter path loses no event that races a transmission: for any
/// interleaving of increments with window commits run on a fresh counter —
/// each commit removing the snapshot it transmitted on success and nothing
/// on failure — the amounts acknowledged as delivered plus the final unread
/// value equal the number of increments.
pub proof fn lemma_reporter_no_lost_increments(ops: Seq<ReportOp>)
    ensures
        delivered_sum(ops, 0) + report_final_count(ops, 0) == report_increment_count(ops),
{
    lemma_reporter_conservation(ops, 0);
}

/// Idempotence of read-and-reset: a second read-and-reset immediately after
/// a first one, with no increments between the two, returns zero.
pub proof fn lemma_read_and_reset_idempotent(count: nat)
    ensures
        ({
            let after_first = read_and_reset_step(count).1;
            read_and_reset_step(after_first).0 == 0
        }),
{
}

} // verus!
