//! The service registry and the refresh decision.
//!
//! The registry maps service names to aggregates. A refresh tick ingests
//! the cluster's view of each working-set service and reconciles it here:
//! a new name is inserted, a known one is replaced exactly when its
//! numeric resource version strictly advanced beyond ours.

use crate::error::Error;
use crate::service::{commit_post, probe_step_post, EpAction, Pending, Service};
use crate::strutil::{digit_val, is_digit, str_eq};
use vstd::prelude::*;

verus! {

/// The decimal value of a digit string.
pub open spec fn spec_dec_val(s: Seq<char>) -> int
    decreases s.len(),
{
    if s.len() == 0 {
        0int
    } else {
        spec_dec_val(s.drop_last()) * 10 + digit_val(s.last())
    }
}

/// Whether every character is a decimal digit.
pub open spec fn all_digits(s: Seq<char>) -> bool {
    forall|k: int| 0 <= k < s.len() ==> is_digit(#[trigger] s[k])
}

/// A digit string's value only grows as digits are appended.
proof fn lemma_dec_val_grows(s: Seq<char>, i: int)
    requires
        0 <= i <= s.len(),
        all_digits(s),
    ensures
        spec_dec_val(s) >= spec_dec_val(s.subrange(0, i)),
        spec_dec_val(s) >= 0,
    decreases s.len() - i,
{
    if i == s.len() {
        assert(s.subrange(0, i) =~= s);
        lemma_dec_val_nonneg(s);
    } else {
        lemma_dec_val_grows(s, i + 1);
        let a = s.subrange(0, i);
        let b = s.subrange(0, i + 1);
        assert(b.drop_last() =~= a);
        lemma_dec_val_nonneg(a);
        assert(spec_dec_val(b) == spec_dec_val(a) * 10 + digit_val(b.last()));
        assert(spec_dec_val(a) * 10 >= spec_dec_val(a)) by (nonlinear_arith)
            requires
                spec_dec_val(a) >= 0,
        ;
    }
}

/// A digit string's value is nonnegative.
proof fn lemma_dec_val_nonneg(s: Seq<char>)
    requires
        all_digits(s),
    ensures
        spec_dec_val(s) >= 0,
    decreases s.len(),
{
    if s.len() > 0 {
        assert(all_digits(s.drop_last()));
        lemma_dec_val_nonneg(s.drop_last());
        assert(spec_dec_val(s.drop_last()) * 10 >= 0) by (nonlinear_arith)
            requires
                spec_dec_val(s.drop_last()) >= 0,
        ;
    }
}

/// The numeric value of a version token: the value of its decimal text
/// (an optional leading `+` is accepted, as the unsigned parser of the
/// standard library does), and 0 for anything that does not parse or does
/// not fit — an unparseable token always compares lowest.
pub open spec fn spec_version_num(s: Seq<char>) -> u64 {
    let digits = if s.len() > 0 && s[0] == '+' {
        s.subrange(1, s.len() as int)
    } else {
        s
    };
    if digits.len() >= 1 && all_digits(digits) && spec_dec_val(digits) <= u64::MAX {
        spec_dec_val(digits) as u64
    } else {
        0
    }
}

/// Parses a version token into its numeric value, with 0 for anything
/// unparseable or out of range.
pub fn version_num(s: &str) -> (r: u64)
    ensures
        r == spec_version_num(s@),
{
    let n = s.unicode_len();
    let mut start: usize = 0;
    if n > 0 && s.get_char(0) == '+' {
        start = 1;
    }
    let ghost digits = s@.subrange(start as int, n as int);
    proof {
        if start == 0 {
            assert(digits =~= s@);
        }
    }
    if n == start {
        return 0;
    }
    let mut val: u64 = 0;
    let mut over = false;
    let mut i: usize = start;
    while i < n
        invariant
            start <= i <= n,
            n == s@.len(),
            start as int == (if s@.len() > 0 && s@[0] == '+' {
                1int
            } else {
                0int
            }),
            digits == s@.subrange(start as int, n as int),
            forall|k: int| start <= k < i ==> is_digit(#[trigger] s@[k]),
            !over ==> val == spec_dec_val(s@.subrange(start as int, i as int)),
            over ==> spec_dec_val(s@.subrange(start as int, i as int)) > u64::MAX,
        decreases n - i,
    {
        let c = s.get_char(i);
        let cu = c as u32;
        if cu < 48 || cu > 57 {
            // not a digit: the token has no numeric value
            proof {
                assert(digits[i - start] == s@[i as int]);
                assert(!all_digits(digits));
            }
            return 0;
        }
        let d = (cu - 48) as u64;
        proof {
            let a = s@.subrange(start as int, i as int);
            let b = s@.subrange(start as int, i + 1 as int);
            assert(b.drop_last() =~= a);
            assert(spec_dec_val(b) == spec_dec_val(a) * 10 + digit_val(s@[i as int]));
            if over {
                assert(spec_dec_val(a) * 10 + d >= spec_dec_val(a)) by (nonlinear_arith)
                    requires
                        spec_dec_val(a) > u64::MAX,
                        0 <= d,
                ;
            }
        }
        if !over {
            if val > (u64::MAX - d) / 10 {
                over = true;
                proof {
                    let a = s@.subrange(start as int, i as int);
                    assert(spec_dec_val(a) * 10 + d > u64::MAX) by (nonlinear_arith)
                        requires
                            spec_dec_val(a) == val,
                            val > (u64::MAX - d) / 10,
                            0 <= d < 10,
                    ;
                }
            } else {
                proof {
                    assert(val * 10 + d <= u64::MAX) by (nonlinear_arith)
                        requires
                            val <= (u64::MAX - d) / 10,
                            0 <= d < 10,
                    ;
                }
                val = val * 10 + d;
            }
        }
        i = i + 1;
    }
    proof {
        assert(s@.subrange(start as int, n as int) == digits);
        assert(all_digits(digits)) by {
            assert(forall|k: int|
                0 <= k < digits.len() ==> digits[k] == s@[start + k] && is_digit(
                    #[trigger] digits[k],
                ));
        }
    }
    if over {
        return 0;
    }
    val
}

/// What a refresh tick did with one ingested aggregate.
#[derive(Debug, Clone, Copy, PartialEq, Eq, Structural)]
pub enum RefreshOutcome {
    /// The name was new: the aggregate was inserted.
    Inserted,
    /// The versions compare equal: nothing changed.
    Unchanged,
    /// The cluster's version is below ours: a transient inconsistency,
    /// ignored until the next tick.
    Stale,
    /// The service was edited externally: the aggregate was replaced and
    /// its endpoint state restarted from the cluster's view.
    Replaced,
}

/// The first entry with this name at or after position `i`.
pub open spec fn spec_find_from(ss: Seq<Service>, name: Seq<char>, i: int) -> Option<int>
    decreases ss.len() - i,
{
    if i < 0 || i >= ss.len() {
        None
    } else if ss[i].name@ == name {
        Some(i)
    } else {
        spec_find_from(ss, name, i + 1)
    }
}

/// A failed lookup means no entry carries the name.
proof fn lemma_find_none(ss: Seq<Service>, name: Seq<char>, i: int)
    requires
        0 <= i <= ss.len(),
        spec_find_from(ss, name, i) is None,
    ensures
        forall|k: int| i <= k < ss.len() ==> (#[trigger] ss[k]).name@ != name,
    decreases ss.len() - i,
{
    if i < ss.len() {
        lemma_find_none(ss, name, i + 1);
    }
}

/// A successful lookup returns the matching entry.
proof fn lemma_find_some(ss: Seq<Service>, name: Seq<char>, i: int)
    requires
        0 <= i <= ss.len(),
        spec_find_from(ss, name, i) is Some,
    ensures
        ({
            let k = spec_find_from(ss, name, i)->0;
            i <= k < ss.len() && ss[k].name@ == name
        }),
    decreases ss.len() - i,
{
    if i < ss.len() && ss[i].name@ != name {
        lemma_find_some(ss, name, i + 1);
    }
}

/// No two registry entries share a name.
pub open spec fn names_unique(ss: Seq<Service>) -> bool {
    forall|a: int, b: int|
        0 <= a < b < ss.len() ==> (#[trigger] ss[a]).name@ != (#[trigger] ss[b]).name@
}

/// The service registry: the working set of aggregates, one per service
/// name.
#[derive(Debug)]
pub struct ServiceRegistry {
    pub services: Vec<Service>,
}

impl ServiceRegistry {
    /// Every entry is a sound aggregate, and names are unique.
    pub open spec fn wf(self) -> bool {
        &&& names_unique(self.services@)
        &&& forall|k: int|
            0 <= k < self.services@.len() ==> (#[trigger] self.services@[k]).wf()
    }

    /// An empty registry.
    pub fn new() -> (r: Self)
        ensures
            r.wf(),
            r.services@.len() == 0,
    {
        ServiceRegistry { services: Vec::new() }
    }

    /// How many services are registered.
    pub fn len(&self) -> (r: usize)
        ensures
            r == self.services@.len(),
    {
        self.services.len()
    }

    /// The position of the entry with this name, if any.
    pub fn find(&self, name: &str) -> (r: Option<usize>)
        ensures
            match r {
                Some(k) => spec_find_from(self.services@, name@, 0) == Some(k as int),
                None => spec_find_from(self.services@, name@, 0) is None,
            },
    {
        let n = self.services.len();
        let mut k: usize = 0;
        while k < n
            invariant
                k <= n,
                n == self.services@.len(),
                spec_find_from(self.services@, name@, 0) == spec_find_from(
                    self.services@,
                    name@,
                    k as int,
                ),
            decreases n - k,
        {
            if str_eq(self.services[k].name.as_str(), name) {
                return Some(k);
            }
            k = k + 1;
        }
        None
    }

    /// Reconciles one freshly ingested aggregate into the registry: a new
    /// name is inserted; a known one is replaced exactly when the
    /// cluster's numeric version strictly exceeds ours, equal versions
    /// change nothing, and a lower one is ignored as stale.
    pub fn upsert(&mut self, svc: Service) -> (r: RefreshOutcome)
        requires
            old(self).wf(),
            svc.wf(),
        ensures
            final(self).wf(),
            match spec_find_from(old(self).services@, svc.name@, 0) {
                None => r == RefreshOutcome::Inserted && final(self).services@ == old(
                    self,
                ).services@.push(svc),
                Some(k) => {
                    let newv = spec_version_num(svc.our_version@);
                    let oldv = spec_version_num(old(self).services@[k].our_version@);
                    if newv == oldv {
                        r == RefreshOutcome::Unchanged && final(self).services@ == old(
                            self,
                        ).services@
                    } else if newv < oldv {
                        r == RefreshOutcome::Stale && final(self).services@ == old(
                            self,
                        ).services@
                    } else {
                        r == RefreshOutcome::Replaced && final(self).services@ == old(
                            self,
                        ).services@.update(k, svc)
                    }
                },
            },
            // an aggregate is replaced iff the new numeric version
            // strictly exceeds the old one for the same name
            (r == RefreshOutcome::Replaced) <==> (spec_find_from(
                old(self).services@,
                svc.name@,
                0,
            ) matches Some(k) && spec_version_num(svc.our_version@) > spec_version_num(
                old(self).services@[k].our_version@,
            )),
    {
        let found = self.find(svc.name.as_str());
        match found {
            None => {
                proof {
                    lemma_find_none(self.services@, svc.name@, 0);
                }
                self.services.push(svc);
                return RefreshOutcome::Inserted;
            },
            Some(k) => {
                proof {
                    lemma_find_some(self.services@, svc.name@, 0);
                }
                let newv = version_num(svc.our_version.as_str());
                let oldv = version_num(self.services[k].our_version.as_str());
                if newv == oldv {
                    return RefreshOutcome::Unchanged;
                }
                if newv < oldv {
                    return RefreshOutcome::Stale;
                }
                self.services[k] = svc;
                return RefreshOutcome::Replaced;
            },
        }
    }

    /// The name of the service at position `k`.
    pub fn service_name(&self, k: usize) -> (r: String)
        requires
            k < self.services@.len(),
        ensures
            r@ == self.services@[k as int].name@,
    {
        self.services[k].name.clone()
    }

    /// How many endpoints the service at position `k` has.
    pub fn endpoint_count(&self, k: usize) -> (r: usize)
        requires
            k < self.services@.len(),
        ensures
            r == self.services@[k as int].endpoints@.len(),
    {
        self.services[k].endpoints.len()
    }

    /// The probe target of endpoint `i` of service `k`: its IP text and
    /// port.
    pub fn endpoint_target(&self, k: usize, i: usize) -> (r: (String, u16))
        requires
            k < self.services@.len(),
            i < self.services@[k as int].endpoints@.len(),
        ensures
            r.0@ == self.services@[k as int].endpoints@[i as int].addr.ip@,
            r.1 == self.services@[k as int].endpoints@[i as int].addr.port,
    {
        let ep = &self.services[k].endpoints[i];
        (ep.addr.ip.clone(), ep.addr.port)
    }

    /// Feeds one probe outcome through service `k`: that entry takes
    /// exactly one probe step (see [`probe_step_post`]) and no other
    /// entry is touched.
    pub fn probe_at(&mut self, k: usize, i: usize, up: bool) -> (r: Result<EpAction, Error>)
        requires
            old(self).wf(),
            k < old(self).services@.len(),
            i < old(self).services@[k as int].endpoints@.len(),
        ensures
            final(self).wf(),
            final(self).services@.len() == old(self).services@.len(),
            forall|m: int|
                0 <= m < old(self).services@.len() && m != k ==> final(self).services@[m] == old(
                    self,
                ).services@[m],
            probe_step_post(
                old(self).services@[k as int],
                final(self).services@[k as int],
                i as int,
                up,
                r,
            ),
    {
        let r = self.services[k].handle_probe(i, up);
        proof {
            assert(forall|m: int|
                0 <= m < self.services@.len() && m != k ==> self.services@[m] == old(
                    self,
                ).services@[m]);
        }
        r
    }

    /// Commits a successful cluster apply into service `k`: that entry
    /// adopts the version token and performs exactly the status changes
    /// the write stood for (see [`commit_post`]); no other entry is
    /// touched. The pending record must come from the decision that
    /// requested the apply.
    pub fn commit_at(&mut self, k: usize, pending: Pending, new_version: String)
        requires
            old(self).wf(),
            k < old(self).services@.len(),
            (pending matches Pending::Restore { i } ==> i < old(
                self,
            ).services@[k as int].endpoints@.len()),
            (pending matches Pending::RemoveAllDown { repr } ==> repr.subsets@.len() >= 1
                && repr.metadata.name@ == old(self).services@[k as int].name@),
        ensures
            final(self).wf(),
            final(self).services@.len() == old(self).services@.len(),
            forall|m: int|
                0 <= m < old(self).services@.len() && m != k ==> final(self).services@[m] == old(
                    self,
                ).services@[m],
            commit_post(
                old(self).services@[k as int],
                final(self).services@[k as int],
                pending,
                new_version,
            ),
    {
        self.services[k].commit_apply(pending, new_version);
        proof {
            assert(forall|m: int|
                0 <= m < self.services@.len() && m != k ==> self.services@[m] == old(
                    self,
                ).services@[m]);
        }
    }
}

/// Whether a name is blocked: named in the block list, or equal to the
/// default block entry when no list is given.
pub open spec fn spec_blocked(block: Option<Vec<String>>, name: Seq<char>) -> bool {
    match block {
        Some(b) => exists|k: int| 0 <= k < b@.len() && (#[trigger] b@[k])@ == name,
        None => name == "kubernetes"@,
    }
}

/// The listed names with the blocked ones removed, order kept.
pub open spec fn spec_select(names: Seq<String>, block: Option<Vec<String>>) -> Seq<String>
    decreases names.len(),
{
    if names.len() == 0 {
        Seq::empty()
    } else {
        spec_select(names.drop_last(), block) + (if spec_blocked(block, names.last()@) {
            Seq::empty()
        } else {
            seq![names.last()]
        })
    }
}

/// Whether the block list names `name`.
fn blocked(block: &Option<Vec<String>>, name: &str) -> (r: bool)
    ensures
        r == spec_blocked(*block, name@),
{
    if block.is_none() {
        return str_eq(name, "kubernetes");
    }
    let b = block.as_ref().unwrap();
    let n = b.len();
    let mut k: usize = 0;
    while k < n
        invariant
            k <= n,
            *block is Some,
            *b == (*block)->0,
            n == b@.len(),
            forall|m: int| 0 <= m < k ==> (#[trigger] b@[m])@ != name@,
        decreases n - k,
    {
        if str_eq(b[k].as_str(), name) {
            proof {
                assert(((*block)->0)@[k as int]@ == name@);
            }
            return true;
        }
        k = k + 1;
    }
    false
}

/// The working set of a refresh tick when no allow list is set: the
/// service names the cluster listed, minus the block list (or minus the
/// default block entry).
pub fn select_names(names: Vec<String>, block: &Option<Vec<String>>) -> (r: Vec<String>)
    ensures
        r@ == spec_select(names@, *block),
{
    let mut out: Vec<String> = Vec::new();
    let n = names.len();
    let mut k: usize = 0;
    while k < n
        invariant
            k <= n,
            n == names@.len(),
            out@ == spec_select(names@.subrange(0, k as int), *block),
        decreases n - k,
    {
        let blocked_here = blocked(block, names[k].as_str());
        if !blocked_here {
            out.push(names[k].clone());
        }
        proof {
            assert(names@.subrange(0, k + 1 as int).drop_last() =~= names@.subrange(0, k as int));
            assert(names@.subrange(0, k + 1 as int).last() == names@[k as int]);
            assert(out@ =~= spec_select(names@.subrange(0, k + 1 as int), *block));
        }
        k = k + 1;
    }
    proof {
        assert(names@.subrange(0, n as int) =~= names@);
    }
    out
}

} // verus!
