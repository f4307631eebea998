//! Per-cycle offset estimation and aggregation.
//!
//! One synchronization cycle measures, for each responding slave, the clock
//! offset `masterTime - (reportedTime - latency)` where `latency` is half the
//! round trip of the request/response exchange, and then averages the offsets
//! of the cycle (integer division, truncating toward zero).

use crate::codec::{encode, encode_spec, Message};
use vstd::arithmetic::div_mod::{lemma_div_nonincreasing, lemma_div_pos_is_pos};
use vstd::prelude::*;

verus! {

/// Truncating integer division (toward zero), for a positive divisor.
///
/// This matches the behaviour of Rust's `/` on signed integers, while the
/// bare `/` of specification code is Euclidean.
pub open spec fn div_trunc(a: int, b: int) -> int
    recommends
        b > 0,
{
    if a >= 0 {
        a / b
    } else {
        -((-a) / b)
    }
}

/// The offset computation of one request/response exchange, with the exact
/// overflow behaviour of the executable code: `None` where an intermediate
/// difference leaves the `i64` range.
///
/// With `rtt = receive_time - send_time`, the one-way latency is `rtt / 2`
/// (truncating), the compensated slave clock reading is
/// `reported_time - latency`, and the offset is `master_time` minus that
/// compensated reading.
pub open spec fn offset_calc(
    master_time: i64,
    reported_time: i64,
    send_time: i64,
    receive_time: i64,
) -> Option<int> {
    let rtt = receive_time - send_time;
    if rtt < i64::MIN || rtt > i64::MAX {
        None
    } else {
        let latency = div_trunc(rtt, 2);
        let adjusted = reported_time - latency;
        if adjusted < i64::MIN || adjusted > i64::MAX {
            None
        } else {
            let offset = master_time - adjusted;
            if offset < i64::MIN || offset > i64::MAX {
                None
            } else {
                Some(offset)
            }
        }
    }
}

/// Computes the offset of one exchange: `master_time - (reported_time - latency)`
/// with `latency = (receive_time - send_time) / 2`, truncating toward zero.
/// Returns `None` exactly where an intermediate difference overflows `i64`.
pub fn compute_offset(
    master_time: i64,
    reported_time: i64,
    send_time: i64,
    receive_time: i64,
) -> (r: Option<i64>)
    ensures
        match offset_calc(master_time, reported_time, send_time, receive_time) {
            Some(v) => r == Some(v as i64) && v as i64 as int == v,
            None => r is None,
        },
{
    let rtt = match receive_time.checked_sub(send_time) {
        Some(d) => d,
        None => {
            return None;
        },
    };
    let latency = match rtt.checked_div(2) {
        Some(l) => l,
        None => {
            return None;
        },
    };
    let adjusted = match reported_time.checked_sub(latency) {
        Some(a) => a,
        None => {
            return None;
        },
    };
    master_time.checked_sub(adjusted)
}

/// The offset formula of one exchange: wherever no intermediate difference
/// overflows, the computed offset is exactly
/// `master_time - (reported_time - (receive_time - send_time) / 2)`.
pub proof fn lemma_offset_formula(
    master_time: i64,
    reported_time: i64,
    send_time: i64,
    receive_time: i64,
)
    requires
        i64::MIN <= receive_time - send_time <= i64::MAX,
        i64::MIN <= reported_time - div_trunc(receive_time - send_time, 2) <= i64::MAX,
        i64::MIN <= master_time - (reported_time - div_trunc(receive_time - send_time, 2))
            <= i64::MAX,
    ensures
        offset_calc(master_time, reported_time, send_time, receive_time) == Some(
            master_time - (reported_time - div_trunc(receive_time - send_time, 2)),
        ),
{
}

/// The sum of a cycle's recorded offsets.
pub open spec fn sum_offsets(s: Seq<i64>) -> int
    decreases s.len(),
{
    if s.len() == 0 {
        0
    } else {
        sum_offsets(s.drop_last()) + s.last()
    }
}

/// The average of a non-empty cycle's offsets: their sum divided by their
/// count, truncating toward zero.
pub open spec fn average_spec(s: Seq<i64>) -> int
    recommends
        s.len() > 0,
{
    div_trunc(sum_offsets(s), s.len() as int)
}

/// How one synchronization cycle concludes.
#[derive(Clone, Copy, Debug, PartialEq, Eq, Structural)]
pub enum CycleOutcome {
    /// No slave produced a valid offset; nothing is adjusted.
    NoResponses,
    /// At least one slave responded; every snapshot member is sent this
    /// average offset as its adjustment.
    Adjust { average_offset: i64 },
}

/// What a cycle with the given recorded offsets concludes.
pub open spec fn cycle_outcome(s: Seq<i64>) -> CycleOutcome {
    if s.len() == 0 {
        CycleOutcome::NoResponses
    } else {
        CycleOutcome::Adjust { average_offset: average_spec(s) as i64 }
    }
}

/// Whether recording an exchange with these timings succeeds: the offset
/// must be computable and both the running sum and the response count must
/// stay within `i64`.
pub open spec fn record_ok(c: SyncCycle, reported_time: i64, send_time: i64, receive_time: i64) -> bool {
    match offset_calc(c.master_time(), reported_time, send_time, receive_time) {
        Some(off) => i64::MIN <= sum_offsets(c.offsets()) + off <= i64::MAX && c.offsets().len()
            < i64::MAX,
        None => false,
    }
}

/// One synchronization cycle's accumulating state: the master clock reading
/// the cycle measures against, and the offsets of the exchanges recorded so
/// far.
pub struct SyncCycle {
    master_time: i64,
    total_offset: i64,
    valid_responses: i64,
    offset_log: Vec<i64>,
}

impl SyncCycle {
    /// The master clock reading this cycle measures against.
    pub closed spec fn master_time(self) -> i64 {
        self.master_time
    }

    /// The offsets recorded so far, in recording order.
    pub closed spec fn offsets(self) -> Seq<i64> {
        self.offset_log@
    }

    /// The cycle's invariant: the running sum and count agree with the
    /// recorded offsets.
    pub closed spec fn wf(self) -> bool {
        &&& self.total_offset as int == sum_offsets(self.offset_log@)
        &&& self.valid_responses as int == self.offset_log@.len()
    }

    /// A cycle that measures against master clock reading `master_time`,
    /// with nothing recorded yet.
    pub fn new(master_time: i64) -> (r: SyncCycle)
        ensures
            r.wf(),
            r.master_time() == master_time,
            r.offsets() == Seq::<i64>::empty(),
    {
        SyncCycle { master_time, total_offset: 0, valid_responses: 0, offset_log: Vec::new() }
    }

    /// How many exchanges have produced a valid offset.
    pub fn valid_responses(&self) -> (r: usize)
        requires
            self.wf(),
        ensures
            r == self.offsets().len(),
    {
        self.offset_log.len()
    }

    /// Records one completed exchange: the slave reported `reported_time`
    /// for a request sent at `send_time` whose response arrived at
    /// `receive_time`. Returns the recorded offset, or `None` — with the
    /// cycle unchanged — exactly where the offset computation or the running
    /// sum would leave `i64`.
    pub fn record_response(&mut self, reported_time: i64, send_time: i64, receive_time: i64) -> (r:
        Option<i64>)
        requires
            old(self).wf(),
        ensures
            final(self).wf(),
            final(self).master_time() == old(self).master_time(),
            record_ok(*old(self), reported_time, send_time, receive_time) ==> match offset_calc(
                old(self).master_time(),
                reported_time,
                send_time,
                receive_time,
            ) {
                Some(off) => r == Some(off as i64) && off as i64 as int == off
                    && final(self).offsets() == old(self).offsets().push(off as i64),
                None => false,
            },
            !record_ok(*old(self), reported_time, send_time, receive_time) ==> r is None
                && *final(self) == *old(self),
    {
        let off = match compute_offset(self.master_time, reported_time, send_time, receive_time) {
            Some(o) => o,
            None => {
                return None;
            },
        };
        let new_total = match self.total_offset.checked_add(off) {
            Some(t) => t,
            None => {
                return None;
            },
        };
        let new_count = match self.valid_responses.checked_add(1) {
            Some(c) => c,
            None => {
                return None;
            },
        };
        self.total_offset = new_total;
        self.valid_responses = new_count;
        self.offset_log.push(off);
        proof {
            assert(self.offset_log@.drop_last() =~= old(self).offset_log@);
        }
        Some(off)
    }

    /// Concludes the cycle: `NoResponses` where nothing was recorded, else
    /// the average of the recorded offsets (integer division, truncating
    /// toward zero) as the adjustment to broadcast.
    pub fn outcome(&self) -> (r: CycleOutcome)
        requires
            self.wf(),
        ensures
            r == cycle_outcome(self.offsets()),
    {
        if self.valid_responses == 0 {
            CycleOutcome::NoResponses
        } else {
            proof {
                // The truncated quotient's magnitude stays under the sum's,
                // so the average fits `i64` and the division succeeds.
                let t = self.total_offset as int;
                let c = self.valid_responses as int;
                if t >= 0 {
                    lemma_div_pos_is_pos(t, c);
                    lemma_div_nonincreasing(t, c);
                } else {
                    lemma_div_pos_is_pos(-t, c);
                    lemma_div_nonincreasing(-t, c);
                }
            }
            let average = match self.total_offset.checked_div(self.valid_responses) {
                Some(a) => a,
                None => 0,
            };
            CycleOutcome::Adjust { average_offset: average }
        }
    }
}

/// The adjustments a concluded cycle broadcasts: none where no slave
/// responded, else one `adjust_time` payload carrying the average offset for
/// every member of the cycle's snapshot — the silent ones included.
pub fn adjustment_payloads(snapshot: &Vec<(String, i64)>, outcome: &CycleOutcome) -> (r: Vec<
    (String, String),
>)
    ensures
        match *outcome {
            CycleOutcome::NoResponses => r@.len() == 0,
            CycleOutcome::Adjust { average_offset } => r@.len() == snapshot@.len() && forall|i: int|
                0 <= i < r@.len() ==> (#[trigger] r@[i].0)@ == snapshot@[i].0@ && r@[i].1@
                    == encode_spec(Message::AdjustTime { adjustment: average_offset }),
        },
{
    match outcome {
        CycleOutcome::NoResponses => Vec::new(),
        CycleOutcome::Adjust { average_offset } => {
            let payload = encode(&Message::AdjustTime { adjustment: *average_offset });
            let mut out: Vec<(String, String)> = Vec::new();
            let mut i: usize = 0;
            while i < snapshot.len()
                invariant
                    i <= snapshot@.len(),
                    out@.len() == i,
                    payload@ == encode_spec(Message::AdjustTime { adjustment: *average_offset }),
                    forall|k: int|
                        0 <= k < i ==> (#[trigger] out@[k].0)@ == snapshot@[k].0@ && out@[k].1@
                            == encode_spec(
                            Message::AdjustTime { adjustment: *average_offset },
                        ),
                decreases snapshot@.len() - i,
            {
                out.push((snapshot[i].0.clone(), payload.clone()));
                i += 1;
            }
            out
        },
    }
}

} // verus!
