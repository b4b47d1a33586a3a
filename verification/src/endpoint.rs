//! Per-endpoint hysteretic state machine.
//!
//! An endpoint counts consecutive probe successes and failures against its
//! thresholds and decides when a status transition (promotion to `Healthy`,
//! demotion to `Removed`) is warranted. Only transitions are reported; the
//! caller applies the status change and resets the counters at the
//! transition boundary.

use crate::error::{Error, ErrorKind};
use crate::strutil::str_eq;
use vstd::prelude::*;

verus! {

/// Transport protocol of a port. Only stream (`TCP`) endpoints are probed;
/// datagram (`UDP`) ports are skipped at service ingest.
#[derive(Debug, Clone, Copy, PartialEq, Eq, Structural)]
pub enum Protocol {
    TCP,
    UDP,
}

/// The protocol named by a port entry's tag, if the tag is recognized.
pub open spec fn protocol_of(s: Seq<char>) -> Option<Protocol> {
    if s == "TCP"@ {
        Some(Protocol::TCP)
    } else if s == "UDP"@ {
        Some(Protocol::UDP)
    } else {
        None
    }
}

impl Protocol {
    /// Parses a port entry's protocol tag.
    pub fn from_str(s: &str) -> (r: Result<Protocol, Error>)
        ensures
            protocol_of(s@) matches Some(p) ==> r == Ok::<Protocol, Error>(p),
            protocol_of(s@) is None ==> (r matches Err(e) && e.kind == ErrorKind::Other
                && e.reason@ == "unknown service type"@),
    {
        if str_eq(s, "TCP") {
            Ok(Protocol::TCP)
        } else if str_eq(s, "UDP") {
            Ok(Protocol::UDP)
        } else {
            Err(Error::new("unknown service type"))
        }
    }
}

/// Health status of an endpoint.
#[derive(Debug, Clone, Copy, PartialEq, Eq, Structural)]
pub enum EndpointStatus {
    Healthy,
    Removed,
}

/// Consecutive-outcome tallies. At most one of the two is nonzero while the
/// counter discipline (see [`Endpoint::wf`]) is maintained.
#[derive(Debug, Clone, Copy, PartialEq, Eq, Structural)]
pub struct Counter {
    pub up: u32,
    pub down: u32,
}

/// Promotion/demotion thresholds. Both are at least 1 and immutable after
/// service construction.
#[derive(Debug, Clone, Copy, PartialEq, Eq, Structural)]
pub struct Threshold {
    pub restore: u32,
    pub remove: u32,
}

impl Threshold {
    /// Both thresholds are at least 1.
    pub open spec fn wf(self) -> bool {
        self.restore >= 1 && self.remove >= 1
    }
}

/// The smaller of the two thresholds.
pub open spec fn min_threshold(t: Threshold) -> u32 {
    if t.restore <= t.remove {
        t.restore
    } else {
        t.remove
    }
}

/// A socket address: an IP in its textual form, plus a port.
#[derive(Debug)]
pub struct Addr {
    pub ip: String,
    pub port: u16,
}

impl Clone for Addr {
    fn clone(&self) -> (r: Self)
        ensures
            r == *self,
    {
        Addr { ip: self.ip.clone(), port: self.port }
    }
}

impl PartialEq for Addr {
    fn eq(&self, other: &Self) -> (r: bool) {
        self.ip == other.ip && self.port == other.port
    }
}

impl vstd::std_specs::cmp::PartialEqSpecImpl for Addr {
    open spec fn obeys_eq_spec() -> bool {
        true
    }

    open spec fn eq_spec(&self, other: &Self) -> bool {
        self.ip@ == other.ip@ && self.port == other.port
    }
}

/// One probed endpoint: its address, protocol, current status, tallies and
/// thresholds.
#[derive(Debug)]
pub struct Endpoint {
    pub addr: Addr,
    pub protocol: Protocol,
    pub status: EndpointStatus,
    pub counter: Counter,
    pub threshold: Threshold,
}

impl Clone for Endpoint {
    fn clone(&self) -> (r: Self)
        ensures
            r == *self,
    {
        Endpoint {
            addr: self.addr.clone(),
            protocol: self.protocol,
            status: self.status,
            counter: self.counter,
            threshold: self.threshold,
        }
    }
}

/// Two endpoints are equal iff address and protocol match.
impl PartialEq for Endpoint {
    fn eq(&self, other: &Self) -> (r: bool) {
        self.addr == other.addr && self.protocol == other.protocol
    }
}

impl vstd::std_specs::cmp::PartialEqSpecImpl for Endpoint {
    open spec fn obeys_eq_spec() -> bool {
        true
    }

    open spec fn eq_spec(&self, other: &Self) -> bool {
        self.addr.ip@ == other.addr.ip@ && self.addr.port == other.addr.port
            && self.protocol == other.protocol
    }
}

/// Increment that stops at the largest representable value instead of
/// overflowing. The saturation point is unreachable in practice (it takes
/// that many consecutive same-direction outcomes) and does not change when
/// a transition is reported.
pub open spec fn sat_inc(x: u32) -> u32 {
    if x < u32::MAX {
        (x + 1) as u32
    } else {
        x
    }
}

/// What recording a probe success does to an endpoint, and whether a
/// promotion to `Healthy` is now warranted.
pub open spec fn spec_record_up(ep: Endpoint) -> (Endpoint, bool) {
    match ep.status {
        EndpointStatus::Removed => (
            Endpoint { counter: Counter { up: sat_inc(ep.counter.up), ..ep.counter }, ..ep },
            ep.counter.up + 1 >= ep.threshold.restore,
        ),
        EndpointStatus::Healthy => (
            Endpoint { counter: Counter { down: 0, ..ep.counter }, ..ep },
            false,
        ),
    }
}

/// What recording a probe failure does to an endpoint, and whether a
/// demotion to `Removed` is now warranted.
pub open spec fn spec_record_down(ep: Endpoint) -> (Endpoint, bool) {
    match ep.status {
        EndpointStatus::Healthy => (
            Endpoint { counter: Counter { down: sat_inc(ep.counter.down), ..ep.counter }, ..ep },
            ep.counter.down + 1 >= ep.threshold.remove,
        ),
        EndpointStatus::Removed => (
            Endpoint { counter: Counter { up: 0, ..ep.counter }, ..ep },
            false,
        ),
    }
}

impl Endpoint {
    /// Counter discipline: the counter that argues against the current
    /// status is the only one that may grow, so the other one is zero, and
    /// the thresholds are meaningful.
    pub open spec fn wf(self) -> bool {
        &&& self.threshold.wf()
        &&& (self.status is Healthy ==> self.counter.up == 0)
        &&& (self.status is Removed ==> self.counter.down == 0)
    }

    /// Records a probe success. Returns true iff a transition to `Healthy`
    /// is now warranted: the endpoint was `Removed` and this success brings
    /// the tally up to the restore threshold.
    pub fn up(&mut self) -> (r: bool)
        ensures
            *final(self) == spec_record_up(*old(self)).0,
            r == spec_record_up(*old(self)).1,
            r == (old(self).status is Removed
                && old(self).counter.up + 1 >= old(self).threshold.restore),
            old(self).wf() ==> final(self).wf(),
    {
        match self.status {
            EndpointStatus::Removed => {
                if self.counter.up < u32::MAX {
                    self.counter.up = self.counter.up + 1;
                }
                self.counter.up >= self.threshold.restore
            },
            EndpointStatus::Healthy => {
                // a success inside a healthy run erases prior flakes
                self.counter.down = 0;
                false
            },
        }
    }

    /// Records a probe failure. Returns true iff a transition to `Removed`
    /// is now warranted: the endpoint was `Healthy` and this failure brings
    /// the tally up to the remove threshold.
    pub fn down(&mut self) -> (r: bool)
        ensures
            *final(self) == spec_record_down(*old(self)).0,
            r == spec_record_down(*old(self)).1,
            r == (old(self).status is Healthy
                && old(self).counter.down + 1 >= old(self).threshold.remove),
            old(self).wf() ==> final(self).wf(),
    {
        match self.status {
            EndpointStatus::Healthy => {
                if self.counter.down < u32::MAX {
                    self.counter.down = self.counter.down + 1;
                }
                self.counter.down >= self.threshold.remove
            },
            EndpointStatus::Removed => {
                // a failure inside an unhealthy run erases prior half-recoveries
                self.counter.up = 0;
                false
            },
        }
    }

    /// Zeroes both tallies. Called at every transition boundary.
    pub fn reset_counter(&mut self)
        ensures
            *final(self) == (Endpoint { counter: Counter { up: 0, down: 0 }, ..*old(self) }),
            final(self).counter.up == 0 && final(self).counter.down == 0,
    {
        self.counter.up = 0;
        self.counter.down = 0;
    }

    /// Writes the status without touching the counters.
    pub fn set_status(&mut self, s: EndpointStatus)
        ensures
            *final(self) == (Endpoint { status: s, ..*old(self) }),
    {
        self.status = s;
    }
}

/// The status change applied at a transition boundary: the new status is
/// written and both tallies are reset.
pub open spec fn spec_apply_transition(ep: Endpoint, s: EndpointStatus) -> Endpoint {
    Endpoint { status: s, counter: Counter { up: 0, down: 0 }, ..ep }
}

/// One probe outcome fed through the machine, with the warranted transition
/// applied at once: the canonical step of the probe loop on an endpoint
/// whose cluster mutation succeeds.
pub open spec fn spec_step(ep: Endpoint, ok: bool) -> (Endpoint, bool) {
    if ok {
        let (e, t) = spec_record_up(ep);
        if t {
            (spec_apply_transition(e, EndpointStatus::Healthy), true)
        } else {
            (e, false)
        }
    } else {
        let (e, t) = spec_record_down(ep);
        if t {
            (spec_apply_transition(e, EndpointStatus::Removed), true)
        } else {
            (e, false)
        }
    }
}

/// A whole sequence of outcomes fed through the machine, together with the
/// number of status transitions it caused.
pub open spec fn spec_run(ep: Endpoint, outcomes: Seq<bool>) -> (Endpoint, nat)
    decreases outcomes.len(),
{
    if outcomes.len() == 0 {
        (ep, 0)
    } else {
        let (e1, t) = spec_step(ep, outcomes[0]);
        let (e2, n) = spec_run(e1, outcomes.drop_first());
        (e2, n + if t { 1nat } else { 0nat })
    }
}

/// Counter discipline. One step of the machine keeps the counter that
/// argues against the current status as the only one that may be nonzero:
/// after a step at most one tally is nonzero, after a transition both are
/// zero, and a step that tallied an outcome without transitioning leaves
/// exactly that tally nonzero.
pub proof fn lemma_counter_discipline(ep: Endpoint, ok: bool)
    requires
        ep.wf(),
    ensures
        ({
            let (e, t) = spec_step(ep, ok);
            &&& e.wf()
            &&& e.counter.up == 0 || e.counter.down == 0
            &&& (t ==> e.counter.up == 0 && e.counter.down == 0)
            &&& (!t && ok && ep.status is Removed ==> e.counter.up > 0 && e.counter.down == 0)
            &&& (!t && !ok && ep.status is Healthy ==> e.counter.down > 0 && e.counter.up == 0)
        }),
{
}

/// Helper for the hysteresis bound: with counters charged to the budget, a
/// run of `k` outcomes causes at most `(k + up + down) / min_threshold`
/// transitions, because every transition consumes at least
/// `min_threshold` tallied outcomes since the previous one.
proof fn lemma_hysteresis_counted(ep: Endpoint, outcomes: Seq<bool>)
    requires
        ep.threshold.wf(),
    ensures
        spec_run(ep, outcomes).1 * min_threshold(ep.threshold)
            <= outcomes.len() + ep.counter.up + ep.counter.down,
        spec_run(ep, outcomes).0.threshold == ep.threshold,
    decreases outcomes.len(),
{
    if outcomes.len() > 0 {
        let (e1, t) = spec_step(ep, outcomes[0]);
        assert(e1.threshold == ep.threshold);
        lemma_hysteresis_counted(e1, outcomes.drop_first());
        let m = min_threshold(ep.threshold) as int;
        let n = spec_run(e1, outcomes.drop_first()).1 as int;
        let k = outcomes.len() as int;
        let u = ep.counter.up as int;
        let d = ep.counter.down as int;
        assert(outcomes.drop_first().len() == k - 1);
        assert(n * m <= (k - 1) + e1.counter.up + e1.counter.down);
        if t {
            // the transition consumed at least m outcomes: the tally that
            // reached its threshold plus this one
            assert(e1.counter.up == 0 && e1.counter.down == 0);
            assert(m <= u + d + 1);
            assert((n + 1) * m == n * m + m) by (nonlinear_arith);
            assert(spec_run(ep, outcomes).1 == n + 1);
            assert((n + 1) * m <= k + u + d);
        } else {
            // no transition: the step tallied at most one outcome
            assert(e1.counter.up + e1.counter.down <= u + d + 1);
            assert(spec_run(ep, outcomes).1 == n);
            assert(n * m <= k + u + d);
        }
        assert(spec_run(ep, outcomes).1 * min_threshold(ep.threshold)
            == spec_run(ep, outcomes).1 as int * m);
        assert(spec_run(ep, outcomes).1 * min_threshold(ep.threshold)
            <= outcomes.len() + ep.counter.up + ep.counter.down);
    } else {
        assert(spec_run(ep, outcomes).1 == 0);
        assert(spec_run(ep, outcomes).1 * min_threshold(ep.threshold) == 0) by (nonlinear_arith)
            requires
                spec_run(ep, outcomes).1 == 0,
        ;
    }
}

/// Helper for the general bound: whatever the starting tallies, the
/// first transition consumes at least one outcome, and each later one
/// starts from freshly reset tallies and consumes at least
/// `min_threshold` of them.
proof fn lemma_hysteresis_ceil_counted(ep: Endpoint, outcomes: Seq<bool>)
    requires
        ep.threshold.wf(),
    ensures
        spec_run(ep, outcomes).1 * min_threshold(ep.threshold) <= outcomes.len()
            + min_threshold(ep.threshold) - 1,
    decreases outcomes.len(),
{
    let m = min_threshold(ep.threshold) as int;
    if outcomes.len() == 0 {
        assert(spec_run(ep, outcomes).1 == 0);
        assert(spec_run(ep, outcomes).1 * min_threshold(ep.threshold) == 0) by (nonlinear_arith)
            requires
                spec_run(ep, outcomes).1 == 0,
        ;
    } else {
        let (e1, t) = spec_step(ep, outcomes[0]);
        assert(e1.threshold == ep.threshold);
        let n = spec_run(e1, outcomes.drop_first()).1 as int;
        let k = outcomes.len() as int;
        assert(outcomes.drop_first().len() == k - 1);
        if t {
            // fresh tallies after the transition: the sharp bound applies
            assert(e1.counter.up == 0 && e1.counter.down == 0);
            lemma_hysteresis_counted(e1, outcomes.drop_first());
            assert(n * m <= k - 1);
            assert((n + 1) * m == n * m + m) by (nonlinear_arith);
            assert(spec_run(ep, outcomes).1 == n + 1);
            assert((n + 1) * m <= k + m - 1);
        } else {
            lemma_hysteresis_ceil_counted(e1, outcomes.drop_first());
            assert(n * m <= (k - 1) + m - 1);
            assert(spec_run(ep, outcomes).1 == n);
        }
        assert(spec_run(ep, outcomes).1 * min_threshold(ep.threshold) == spec_run(
            ep,
            outcomes,
        ).1 as int * m);
    }
}

/// Hysteresis bound. A sequence of `k` probe outcomes causes at most
/// `ceil(k / min(restore, remove))` status transitions, whatever tallies
/// the endpoint starts with; from fresh tallies the sharper product
/// bound holds as well. Flapping is rate-limited by the smaller
/// threshold.
pub proof fn lemma_hysteresis(ep: Endpoint, outcomes: Seq<bool>)
    requires
        ep.threshold.wf(),
    ensures
        (ep.counter.up == 0 && ep.counter.down == 0) ==> spec_run(ep, outcomes).1
            * min_threshold(ep.threshold) <= outcomes.len(),
        spec_run(ep, outcomes).1
            <= (outcomes.len() + min_threshold(ep.threshold) - 1)
                / (min_threshold(ep.threshold) as int),
{
    lemma_hysteresis_counted(ep, outcomes);
    lemma_hysteresis_ceil_counted(ep, outcomes);
    let t = spec_run(ep, outcomes).1 as int;
    let m = min_threshold(ep.threshold) as int;
    let k = outcomes.len() as int;
    assert(t <= (k + m - 1) / m) by (nonlinear_arith)
        requires
            t * m <= k + m - 1,
            m >= 1,
            t >= 0,
    ;
}

} // verus!
