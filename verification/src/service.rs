//! The service aggregate: a named set of probed endpoints together with
//! the authoritative endpoint document and its version token.
//!
//! Ingest flattens the document's subsets into endpoints in
//! subset-then-port-then-address order, skipping datagram ports. The
//! removal and restoration operations decide on cluster mutations; the
//! apply itself is I/O and is carried out by the caller, which then
//! commits the recorded outcome back into the aggregate.

use crate::alert::Msg;
use crate::endpoint::{
    spec_apply_transition, spec_record_down, spec_record_up, Addr, Counter, Endpoint,
    EndpointStatus, Protocol, Threshold,
};
use crate::error::{Error, ErrorKind};
use crate::strutil::{append_u32, is_valid_ipv4, spec_udec, str_eq, valid_ipv4};
use crate::yaml::{spec_to_yaml, AddressRepr, PortRepr, ServiceRepr, SubsetRepr};
use vstd::prelude::*;
use vstd::string::StringExecFns;

verus! {

/// The address pair an endpoint was generated from: its IP text and the
/// document's port number.
pub open spec fn pair_of(e: Endpoint) -> (Seq<char>, u32) {
    (e.addr.ip@, e.addr.port as u32)
}

/// The address pairs of a whole endpoint list.
pub open spec fn pairs_of(eps: Seq<Endpoint>) -> Seq<(Seq<char>, u32)> {
    eps.map_values(|e: Endpoint| pair_of(e))
}

/// An address entry that cannot be turned into a socket address: the IP is
/// not dotted-quad IPv4 text, or the port does not fit a port number.
pub open spec fn bad_addr(a: AddressRepr, port: u32) -> bool {
    !valid_ipv4(a.ip@) || port > 65535
}

/// The first ingest error among the addresses of one port entry, from
/// position `k` on: a malformed address, or an unknown protocol tag.
pub open spec fn spec_addr_err_from(
    addrs: Seq<AddressRepr>,
    port: u32,
    proto: Seq<char>,
    k: int,
) -> Option<ErrorKind>
    decreases addrs.len() - k,
{
    if k < 0 || k >= addrs.len() {
        None
    } else if bad_addr(addrs[k], port) {
        Some(ErrorKind::AddrParseError)
    } else if proto != "TCP"@ {
        Some(ErrorKind::Other)
    } else {
        spec_addr_err_from(addrs, port, proto, k + 1)
    }
}

/// The first ingest error among the port entries of one subset, from
/// position `j` on. Datagram ports are skipped without a look at the
/// addresses.
pub open spec fn spec_port_err_from(
    ports: Seq<PortRepr>,
    addrs: Seq<AddressRepr>,
    j: int,
) -> Option<ErrorKind>
    decreases ports.len() - j,
{
    if j < 0 || j >= ports.len() {
        None
    } else if ports[j].protocol@ == "UDP"@ {
        spec_port_err_from(ports, addrs, j + 1)
    } else {
        match spec_addr_err_from(addrs, ports[j].port, ports[j].protocol@, 0) {
            Some(k) => Some(k),
            None => spec_port_err_from(ports, addrs, j + 1),
        }
    }
}

/// The first ingest error among the subsets, from position `i` on.
pub open spec fn spec_flat_err_from(subsets: Seq<SubsetRepr>, i: int) -> Option<ErrorKind>
    decreases subsets.len() - i,
{
    if i < 0 || i >= subsets.len() {
        None
    } else {
        match spec_port_err_from(subsets[i].ports@, subsets[i].addresses@, 0) {
            Some(k) => Some(k),
            None => spec_flat_err_from(subsets, i + 1),
        }
    }
}

/// The first ingest error of a document's subsets, if any.
pub open spec fn spec_flat_err(subsets: Seq<SubsetRepr>) -> Option<ErrorKind> {
    spec_flat_err_from(subsets, 0)
}

/// The address pairs one port entry contributes: every address of the
/// subset, with this port.
pub open spec fn spec_addr_pairs(addrs: Seq<AddressRepr>, port: u32) -> Seq<(Seq<char>, u32)> {
    addrs.map_values(|a: AddressRepr| (a.ip@, port))
}

/// The address pairs the port entries of one subset contribute from
/// position `j` on, in order.
pub open spec fn spec_port_block_from(
    ports: Seq<PortRepr>,
    addrs: Seq<AddressRepr>,
    j: int,
) -> Seq<(Seq<char>, u32)>
    decreases ports.len() - j,
{
    if j < 0 || j >= ports.len() {
        Seq::empty()
    } else if ports[j].protocol@ == "UDP"@ {
        spec_port_block_from(ports, addrs, j + 1)
    } else {
        spec_addr_pairs(addrs, ports[j].port) + spec_port_block_from(ports, addrs, j + 1)
    }
}

/// The address pairs the subsets contribute from position `i` on, in
/// order.
pub open spec fn spec_flat_pairs_from(subsets: Seq<SubsetRepr>, i: int) -> Seq<(Seq<char>, u32)>
    decreases subsets.len() - i,
{
    if i < 0 || i >= subsets.len() {
        Seq::empty()
    } else {
        spec_port_block_from(subsets[i].ports@, subsets[i].addresses@, 0) + spec_flat_pairs_from(
            subsets,
            i + 1,
        )
    }
}

/// The address pairs of a document's subsets, flattened in
/// subset-then-port-then-address order.
pub open spec fn spec_flat_pairs(subsets: Seq<SubsetRepr>) -> Seq<(Seq<char>, u32)> {
    spec_flat_pairs_from(subsets, 0)
}

/// The addresses of one port entry are all usable: each is well-formed
/// with this port, and — as soon as there is one — the protocol tag must
/// be the stream tag.
pub open spec fn port_entry_ok(p: PortRepr, addrs: Seq<AddressRepr>) -> bool {
    forall|k: int|
        0 <= k < addrs.len() ==> !bad_addr(#[trigger] addrs[k], p.port) && p.protocol@ == "TCP"@
}

proof fn lemma_addr_err_iff(addrs: Seq<AddressRepr>, port: u32, proto: Seq<char>, k: int)
    requires
        0 <= k <= addrs.len(),
    ensures
        spec_addr_err_from(addrs, port, proto, k) is None <==> (forall|m: int|
            k <= m < addrs.len() ==> !bad_addr(#[trigger] addrs[m], port) && proto == "TCP"@),
    decreases addrs.len() - k,
{
    if k < addrs.len() {
        lemma_addr_err_iff(addrs, port, proto, k + 1);
    }
}

proof fn lemma_port_err_iff(ports: Seq<PortRepr>, addrs: Seq<AddressRepr>, j: int)
    requires
        0 <= j <= ports.len(),
    ensures
        spec_port_err_from(ports, addrs, j) is None <==> (forall|m: int|
            j <= m < ports.len() && (#[trigger] ports[m]).protocol@ != "UDP"@ ==> port_entry_ok(
                ports[m],
                addrs,
            )),
    decreases ports.len() - j,
{
    if j < ports.len() {
        lemma_port_err_iff(ports, addrs, j + 1);
        if ports[j].protocol@ != "UDP"@ {
            lemma_addr_err_iff(addrs, ports[j].port, ports[j].protocol@, 0);
        }
    }
}

/// Ingest succeeds on a parsed document exactly when, in every subset,
/// every non-datagram port entry has only well-formed addresses and the
/// stream protocol tag. Datagram ports are skipped whatever their
/// addresses look like, and a port entry with no addresses contributes
/// nothing and cannot fail.
pub proof fn lemma_ingest_succeeds_iff(subsets: Seq<SubsetRepr>)
    ensures
        spec_flat_err(subsets) is None <==> (forall|i: int, j: int|
            0 <= i < subsets.len() && 0 <= j < subsets[i].ports@.len()
                && (#[trigger] subsets[i].ports@[j]).protocol@ != "UDP"@ ==> port_entry_ok(
                subsets[i].ports@[j],
                subsets[i].addresses@,
            )),
{
    lemma_flat_err_iff(subsets, 0);
}

proof fn lemma_flat_err_iff(subsets: Seq<SubsetRepr>, i: int)
    requires
        0 <= i <= subsets.len(),
    ensures
        spec_flat_err_from(subsets, i) is None <==> (forall|m: int, j: int|
            i <= m < subsets.len() && 0 <= j < subsets[m].ports@.len()
                && (#[trigger] subsets[m].ports@[j]).protocol@ != "UDP"@ ==> port_entry_ok(
                subsets[m].ports@[j],
                subsets[m].addresses@,
            )),
    decreases subsets.len() - i,
{
    if i < subsets.len() {
        lemma_flat_err_iff(subsets, i + 1);
        lemma_port_err_iff(subsets[i].ports@, subsets[i].addresses@, 0);
    }
}

proof fn lemma_addr_err_kind(addrs: Seq<AddressRepr>, port: u32, proto: Seq<char>, k: int)
    requires
        0 <= k <= addrs.len(),
    ensures
        spec_addr_err_from(addrs, port, proto, k) matches Some(kd) ==> (kd
            == ErrorKind::AddrParseError || kd == ErrorKind::Other),
    decreases addrs.len() - k,
{
    if k < addrs.len() {
        lemma_addr_err_kind(addrs, port, proto, k + 1);
    }
}

proof fn lemma_port_err_kind(ports: Seq<PortRepr>, addrs: Seq<AddressRepr>, j: int)
    requires
        0 <= j <= ports.len(),
    ensures
        spec_port_err_from(ports, addrs, j) matches Some(kd) ==> (kd
            == ErrorKind::AddrParseError || kd == ErrorKind::Other),
    decreases ports.len() - j,
{
    if j < ports.len() {
        lemma_port_err_kind(ports, addrs, j + 1);
        lemma_addr_err_kind(addrs, ports[j].port, ports[j].protocol@, 0);
    }
}

/// The only ingest failures a parsed document can produce are a
/// malformed address or an unknown protocol tag.
pub proof fn lemma_flat_err_kind(subsets: Seq<SubsetRepr>, i: int)
    requires
        0 <= i <= subsets.len(),
    ensures
        spec_flat_err_from(subsets, i) matches Some(kd) ==> (kd == ErrorKind::AddrParseError
            || kd == ErrorKind::Other),
    decreases subsets.len() - i,
{
    if i < subsets.len() {
        lemma_flat_err_kind(subsets, i + 1);
        lemma_port_err_kind(subsets[i].ports@, subsets[i].addresses@, 0);
    }
}

/// Endpoints as ingest creates them: stream protocol, healthy, fresh
/// tallies, the configured thresholds, and a well-formed IPv4 address.
pub open spec fn fresh_eps(eps: Seq<Endpoint>, t: Threshold) -> bool {
    forall|m: int|
        0 <= m < eps.len() ==> {
            &&& (#[trigger] eps[m]).protocol is TCP
            &&& eps[m].status is Healthy
            &&& eps[m].counter.up == 0
            &&& eps[m].counter.down == 0
            &&& eps[m].threshold == t
            &&& valid_ipv4(eps[m].addr.ip@)
        }
}

/// The endpoints one port entry generates: one per address of the subset.
fn flatten_port(protocol: &str, port: u32, addrs: &Vec<AddressRepr>, t: Threshold) -> (r: Result<
    Vec<Endpoint>,
    Error,
>)
    ensures
        match spec_addr_err_from(addrs@, port, protocol@, 0) {
            Some(k) => r matches Err(e) && e.kind == k,
            None => (r matches Ok(eps) && pairs_of(eps@) == spec_addr_pairs(addrs@, port)
                && fresh_eps(eps@, t)),
        },
{
    let mut eps: Vec<Endpoint> = Vec::new();
    let n = addrs.len();
    let mut k: usize = 0;
    while k < n
        invariant
            k <= n,
            n == addrs@.len(),
            spec_addr_err_from(addrs@, port, protocol@, 0) == spec_addr_err_from(
                addrs@,
                port,
                protocol@,
                k as int,
            ),
            eps@.len() == k,
            forall|m: int|
                0 <= m < k ==> (#[trigger] eps@[m]).addr.ip@ == addrs@[m].ip@ && eps@[m].addr.port
                    as u32 == port,
            fresh_eps(eps@, t),
        decreases n - k,
    {
        let a = &addrs[k];
        if !is_valid_ipv4(a.ip.as_str()) || port > 65535 {
            return Err(
                Error::addr(String::from_str("invalid socket address: ").concat(a.ip.as_str())),
            );
        }
        if !str_eq(protocol, "TCP") {
            return Err(Error::new("unknown service type"));
        }
        eps.push(
            Endpoint {
                addr: Addr { ip: a.ip.clone(), port: port as u16 },
                protocol: Protocol::TCP,
                status: EndpointStatus::Healthy,
                counter: Counter { up: 0, down: 0 },
                threshold: t,
            },
        );
        k = k + 1;
    }
    proof {
        assert(pairs_of(eps@) =~= spec_addr_pairs(addrs@, port));
    }
    Ok(eps)
}

/// The endpoints one subset generates, in port-then-address order.
fn flatten_subset(sub: &SubsetRepr, t: Threshold) -> (r: Result<Vec<Endpoint>, Error>)
    ensures
        match spec_port_err_from(sub.ports@, sub.addresses@, 0) {
            Some(k) => r matches Err(e) && e.kind == k,
            None => (r matches Ok(eps) && pairs_of(eps@) == spec_port_block_from(
                sub.ports@,
                sub.addresses@,
                0,
            ) && fresh_eps(eps@, t)),
        },
{
    let mut eps: Vec<Endpoint> = Vec::new();
    let n = sub.ports.len();
    let mut j: usize = 0;
    while j < n
        invariant
            j <= n,
            n == sub.ports@.len(),
            spec_port_err_from(sub.ports@, sub.addresses@, 0) == spec_port_err_from(
                sub.ports@,
                sub.addresses@,
                j as int,
            ),
            pairs_of(eps@) + spec_port_block_from(sub.ports@, sub.addresses@, j as int)
                == spec_port_block_from(sub.ports@, sub.addresses@, 0),
            fresh_eps(eps@, t),
        decreases n - j,
    {
        let p = &sub.ports[j];
        if str_eq(p.protocol.as_str(), "UDP") {
            // datagram ports are not probed
            j = j + 1;
        } else {
            match flatten_port(p.protocol.as_str(), p.port, &sub.addresses, t) {
                Err(e) => {
                    return Err(e);
                },
                Ok(mut block) => {
                    let ghost old_eps = eps@;
                    let ghost block_view = block@;
                    eps.append(&mut block);
                    proof {
                        assert(pairs_of(eps@) =~= pairs_of(old_eps) + pairs_of(block_view));
                        assert(pairs_of(eps@) + spec_port_block_from(
                            sub.ports@,
                            sub.addresses@,
                            j + 1 as int,
                        ) =~= spec_port_block_from(sub.ports@, sub.addresses@, 0));
                    }
                    j = j + 1;
                },
            }
        }
    }
    Ok(eps)
}

/// The endpoints a whole document generates, in
/// subset-then-port-then-address order. Datagram ports are skipped; a
/// malformed address or an unknown protocol tag fails the whole ingest.
pub fn flatten_endpoints(subsets: &Vec<SubsetRepr>, t: Threshold) -> (r: Result<
    Vec<Endpoint>,
    Error,
>)
    ensures
        match spec_flat_err(subsets@) {
            Some(k) => r matches Err(e) && e.kind == k,
            None => (r matches Ok(eps) && pairs_of(eps@) == spec_flat_pairs(subsets@) && fresh_eps(
                eps@,
                t,
            )),
        },
{
    let mut eps: Vec<Endpoint> = Vec::new();
    let n = subsets.len();
    let mut i: usize = 0;
    while i < n
        invariant
            i <= n,
            n == subsets@.len(),
            spec_flat_err(subsets@) == spec_flat_err_from(subsets@, i as int),
            pairs_of(eps@) + spec_flat_pairs_from(subsets@, i as int) == spec_flat_pairs(subsets@),
            fresh_eps(eps@, t),
        decreases n - i,
    {
        match flatten_subset(&subsets[i], t) {
            Err(e) => {
                return Err(e);
            },
            Ok(mut block) => {
                let ghost old_eps = eps@;
                let ghost block_view = block@;
                eps.append(&mut block);
                proof {
                    assert(pairs_of(eps@) =~= pairs_of(old_eps) + pairs_of(block_view));
                    assert(pairs_of(eps@) + spec_flat_pairs_from(subsets@, i + 1 as int)
                        =~= spec_flat_pairs(subsets@));
                }
                i = i + 1;
            },
        }
    }
    Ok(eps)
}

/// A service aggregate: the working endpoint set, the last adopted
/// document, and the version token of our last successful write (or the
/// ingest version before any write).
#[derive(Debug)]
pub struct Service {
    pub name: String,
    pub endpoints: Vec<Endpoint>,
    pub our_version: String,
    pub repr: ServiceRepr,
}

impl Service {
    /// Structural soundness of an aggregate: it has endpoints, the
    /// document has a first subset to mutate, every endpoint obeys the
    /// counter discipline, and the aggregate is named after its document.
    pub open spec fn wf(self) -> bool {
        &&& self.endpoints@.len() >= 1
        &&& self.repr.subsets@.len() >= 1
        &&& forall|k: int| 0 <= k < self.endpoints@.len() ==> (#[trigger] self.endpoints@[k]).wf()
        &&& self.name@ == self.repr.metadata.name@
    }

    /// Builds the aggregate from an already-parsed document. Succeeds
    /// exactly when no entry is malformed; returns `None` exactly when
    /// the flattened endpoint list is empty; fails with the kind of the
    /// first malformed entry otherwise.
    pub fn from_repr(repr: ServiceRepr, threshold: Threshold) -> (r: Result<Option<Service>, Error>)
        requires
            threshold.wf(),
        ensures
            match spec_flat_err(repr.subsets@) {
                Some(k) => r matches Err(e) && e.kind == k,
                None => {
                    if spec_flat_pairs(repr.subsets@).len() == 0 {
                        r == Ok::<Option<Service>, Error>(None)
                    } else {
                        r matches Ok(Some(svc)) && {
                            &&& svc.wf()
                            &&& svc.repr == repr
                            &&& svc.endpoints@.len() > 0
                            &&& pairs_of(svc.endpoints@) == spec_flat_pairs(repr.subsets@)
                            &&& fresh_eps(svc.endpoints@, threshold)
                            &&& svc.name@ == repr.metadata.name@
                            &&& svc.our_version@ == repr.metadata.resource_version@
                        }
                    }
                },
            },
    {
        let eps = match flatten_endpoints(&repr.subsets, threshold) {
            Ok(eps) => eps,
            Err(e) => {
                return Err(e);
            },
        };
        if eps.len() == 0 {
            return Ok(None);
        }
        proof {
            // endpoints exist, so some subset contributed them
            assert(spec_flat_pairs_from(repr.subsets@, 0).len() > 0);
            assert(repr.subsets@.len() > 0);
        }
        let name = repr.metadata.name.clone();
        let our_version = repr.metadata.resource_version.clone();
        Ok(Some(Service { name, endpoints: eps, our_version, repr }))
    }

    /// Ingests an endpoint document. Returns `None` when the flattened
    /// endpoint list is empty, the parsed aggregate otherwise; fails on a
    /// document that cannot be parsed, a malformed address, or an unknown
    /// protocol tag — and on nothing else. What is owed once the document
    /// is parsed is stated exactly on [`Service::from_repr`].
    pub fn new(yml_str: String, threshold: Threshold) -> (r: Result<Option<Service>, Error>)
        requires
            threshold.wf(),
        ensures
            r matches Err(e) ==> (e.kind == ErrorKind::Serde || e.kind
                == ErrorKind::AddrParseError || e.kind == ErrorKind::Other),
            r matches Ok(Some(svc)) ==> {
                &&& svc.wf()
                &&& svc.endpoints@.len() > 0
                &&& pairs_of(svc.endpoints@) == spec_flat_pairs(svc.repr.subsets@)
                &&& fresh_eps(svc.endpoints@, threshold)
                &&& spec_flat_err(svc.repr.subsets@) is None
                &&& svc.name@ == svc.repr.metadata.name@
                &&& svc.our_version@ == svc.repr.metadata.resource_version@
                &&& svc.repr.yaml@ == yml_str@
            },
    {
        let repr = match ServiceRepr::from_str(yml_str.as_str()) {
            Ok(r) => r,
            Err(e) => {
                return Err(e);
            },
        };
        proof {
            lemma_flat_err_kind(repr.subsets@, 0);
        }
        Service::from_repr(repr, threshold)
    }
}

/// The textual form of a socket address, `ip:port`.
pub open spec fn spec_addr_string(a: Addr) -> Seq<char> {
    a.ip@ + ":"@ + spec_udec(a.port as int)
}

/// Renders a socket address as `ip:port`.
pub fn addr_string(a: &Addr) -> (r: String)
    ensures
        r@ == spec_addr_string(*a),
{
    let mut s = a.ip.clone();
    s.append(":");
    append_u32(&mut s, a.port as u32);
    proof {
        assert(s@ =~= spec_addr_string(*a));
    }
    s
}

/// Whether an address entry survives the removal of `ip`: it names a
/// different, well-formed address. Entries that cannot be parsed are
/// dropped with the removed one, as the probe cannot reach them anyway.
pub open spec fn keep_addr(a: AddressRepr, ip: Seq<char>) -> bool {
    valid_ipv4(a.ip@) && a.ip@ != ip
}

/// The address list with `ip` (and unparseable entries) removed, order
/// kept.
pub open spec fn spec_retain(addrs: Seq<AddressRepr>, ip: Seq<char>) -> Seq<AddressRepr>
    decreases addrs.len(),
{
    if addrs.len() == 0 {
        Seq::empty()
    } else {
        spec_retain(addrs.drop_last(), ip) + (if keep_addr(addrs.last(), ip) {
            seq![addrs.last()]
        } else {
            Seq::empty()
        })
    }
}

/// Builds the address list with `ip` removed.
fn retain_addrs(addrs: &Vec<AddressRepr>, ip: &str) -> (r: Vec<AddressRepr>)
    ensures
        r@ == spec_retain(addrs@, ip@),
{
    let mut out: Vec<AddressRepr> = Vec::new();
    let n = addrs.len();
    let mut k: usize = 0;
    while k < n
        invariant
            k <= n,
            n == addrs@.len(),
            out@ == spec_retain(addrs@.subrange(0, k as int), ip@),
        decreases n - k,
    {
        let a = &addrs[k];
        if is_valid_ipv4(a.ip.as_str()) && !str_eq(a.ip.as_str(), ip) {
            out.push(a.clone());
        }
        proof {
            assert(addrs@.subrange(0, k + 1 as int).drop_last() =~= addrs@.subrange(0, k as int));
            assert(addrs@.subrange(0, k + 1 as int).last() == addrs@[k as int]);
            assert(out@ =~= spec_retain(addrs@.subrange(0, k + 1 as int), ip@));
        }
        k = k + 1;
    }
    proof {
        assert(addrs@.subrange(0, n as int) =~= addrs@);
    }
    out
}

/// Copies a port list.
fn clone_ports(ports: &Vec<PortRepr>) -> (r: Vec<PortRepr>)
    ensures
        r@ == ports@,
{
    let mut out: Vec<PortRepr> = Vec::new();
    let n = ports.len();
    let mut k: usize = 0;
    while k < n
        invariant
            k <= n,
            n == ports@.len(),
            out@.len() == k,
            forall|m: int| 0 <= m < k ==> out@[m] == ports@[m],
        decreases n - k,
    {
        out.push(ports[k].clone());
        k = k + 1;
    }
    proof {
        assert(out@ =~= ports@);
    }
    out
}

/// How many entries of an address list carry `ip`.
pub open spec fn count_ip(addrs: Seq<AddressRepr>, ip: Seq<char>) -> int
    decreases addrs.len(),
{
    if addrs.len() == 0 {
        0int
    } else {
        count_ip(addrs.drop_last(), ip) + (if addrs.last().ip@ == ip {
            1int
        } else {
            0int
        })
    }
}

/// An address list without a matching entry counts `ip` zero times.
pub proof fn lemma_count_ip_zero(addrs: Seq<AddressRepr>, ip: Seq<char>)
    requires
        forall|k: int| 0 <= k < addrs.len() ==> (#[trigger] addrs[k]).ip@ != ip,
    ensures
        count_ip(addrs, ip) == 0,
    decreases addrs.len(),
{
    if addrs.len() > 0 {
        lemma_count_ip_zero(addrs.drop_last(), ip);
    }
}

/// Whether an address list has an entry for `ip`.
fn contains_ip(addrs: &Vec<AddressRepr>, ip: &str) -> (r: bool)
    ensures
        r == spec_contains_ip(addrs@, ip@),
{
    let n = addrs.len();
    let mut k: usize = 0;
    while k < n
        invariant
            k <= n,
            n == addrs@.len(),
            forall|m: int| 0 <= m < k ==> (#[trigger] addrs@[m]).ip@ != ip@,
        decreases n - k,
    {
        if str_eq(addrs[k].ip.as_str(), ip) {
            return true;
        }
        k = k + 1;
    }
    false
}

/// Whether an address list has an entry for `ip`.
pub open spec fn spec_contains_ip(addrs: Seq<AddressRepr>, ip: Seq<char>) -> bool {
    exists|k: int| 0 <= k < addrs.len() && (#[trigger] addrs[k]).ip@ == ip
}

/// The endpoints sharing `ip` have been demoted with fresh tallies; the
/// rest are untouched.
pub open spec fn marked_removed_ip(
    before: Seq<Endpoint>,
    after: Seq<Endpoint>,
    ip: Seq<char>,
) -> bool {
    &&& after.len() == before.len()
    &&& forall|k: int|
        0 <= k < before.len() ==> (#[trigger] after[k]) == (if before[k].addr.ip@ == ip {
            spec_apply_transition(before[k], EndpointStatus::Removed)
        } else {
            before[k]
        })
}

/// Removal marks the whole IP: wherever the endpoints sharing the removed
/// endpoint's IP have been demoted, none of them is healthy.
pub proof fn lemma_removal_completes(before: Seq<Endpoint>, after: Seq<Endpoint>, ip: Seq<char>)
    requires
        marked_removed_ip(before, after, ip),
    ensures
        forall|k: int|
            0 <= k < after.len() && (#[trigger] after[k]).addr.ip@ == ip ==> after[k].status
                is Removed,
{
}

/// Endpoint addresses, protocols and thresholds survive every aggregate
/// operation: the endpoint vector is never resized, so probe indices
/// stay stable within a pass.
pub open spec fn same_skeleton_eps(a: Seq<Endpoint>, b: Seq<Endpoint>) -> bool {
    &&& a.len() == b.len()
    &&& forall|k: int|
        0 <= k < a.len() ==> (#[trigger] b[k]).addr == a[k].addr && b[k].protocol == a[k].protocol
            && b[k].threshold == a[k].threshold
}

/// [`same_skeleton_eps`] plus the service name.
pub open spec fn same_skeleton(a: Service, b: Service) -> bool {
    &&& a.name@ == b.name@
    &&& same_skeleton_eps(a.endpoints@, b.endpoints@)
}

/// All endpoints sharing `ip`, other than `i` itself, are healthy.
pub open spec fn all_same_ip_healthy_except(eps: Seq<Endpoint>, ip: Seq<char>, i: int) -> bool {
    forall|k: int|
        0 <= k < eps.len() && k != i && (#[trigger] eps[k]).addr.ip@ == ip ==> eps[k].status
            is Healthy
}

/// What must still be committed into the aggregate once the caller's
/// cluster apply of the accompanying document has succeeded.
#[derive(Debug)]
pub enum Pending {
    /// Mark every endpoint sharing this IP removed and adopt the version.
    RemovePlain { ip: String },
    /// Adopt the re-ingested original document and the version.
    RemoveAllDown { repr: ServiceRepr },
    /// Mark endpoint `i` healthy and adopt the version.
    Restore { i: usize },
}

/// A cluster write the caller must perform: apply `yaml` for this
/// service, then hand the returned version token back through
/// [`Service::commit_apply`] together with `pending`. On an apply error
/// nothing is committed and the next tick retries.
#[derive(Debug)]
pub struct ApplyRequest {
    pub yaml: String,
    pub pending: Pending,
}

/// What a decision asks of the caller: alerts to emit, and at most one
/// cluster write.
#[derive(Debug)]
pub struct EpAction {
    pub alerts: Vec<Msg>,
    pub apply: Option<ApplyRequest>,
}

/// Everything the removal decision for endpoint `i` promises, relating
/// the aggregate before the call (its endpoints `pre_eps`, document
/// `pre_repr`, `pre_name` and `pre_version`) to the aggregate after
/// (`post`) and to the returned action. Stated once here so that both
/// [`Service::remove_ep`] and — over the stepped state —
/// [`Service::handle_probe`] promise the same thing.
pub open spec fn remove_decision_post(
    pre_eps: Seq<Endpoint>,
    pre_repr: ServiceRepr,
    pre_name: String,
    pre_version: String,
    post: Service,
    i: int,
    r: Result<EpAction, Error>,
) -> bool {
    &&& post.wf()
    &&& post.name == pre_name
    &&& post.our_version == pre_version
    &&& same_skeleton_eps(pre_eps, post.endpoints@)
    &&& ({
        let ip = pre_eps[i].addr.ip@;
        match r {
            Ok(act) => {
                &&& act.alerts@.len() >= 1
                &&& (act.alerts@[0] matches Msg::EpDown(s, a) && s@ == pre_name@ && a@
                    == spec_addr_string(pre_eps[i].addr))
                &&& if pre_eps.len() <= 1 {
                    // sole endpoint: mark it, never empty the document
                    &&& act.apply is None
                    &&& act.alerts@.len() == 1
                    &&& post.endpoints@ == pre_eps.update(
                        i,
                        spec_apply_transition(pre_eps[i], EndpointStatus::Removed),
                    )
                    &&& post.repr == pre_repr
                } else if pre_repr.subsets@[0].addresses@.len() == 1 {
                    // all-down rescue: the original document goes back out
                    &&& act.alerts@.len() == 2
                    &&& (act.alerts@[1] matches Msg::AllEpDown(s2) && s2@ == pre_name@)
                    &&& marked_removed_ip(pre_eps, post.endpoints@, ip)
                    &&& post.repr == pre_repr
                    &&& (act.apply matches Some(req) && (req.pending matches
                        Pending::RemoveAllDown { repr } && req.yaml@ == spec_to_yaml(repr)
                        && repr.subsets@.len() >= 1 && repr.metadata.name@ == pre_name@
                        && repr.yaml@ == pre_repr.yaml@))
                } else {
                    // plain removal: the IP leaves the document now, the
                    // endpoints sharing it are marked at commit
                    &&& act.alerts@.len() == 1
                    &&& post.endpoints@ == pre_eps
                    &&& (act.apply matches Some(req) && (req.pending matches
                        Pending::RemovePlain { ip: pip } && pip@ == ip) && req.yaml@
                        == spec_to_yaml(post.repr))
                    &&& post.repr.subsets@.len() == pre_repr.subsets@.len()
                    &&& (forall|j: int|
                        0 <= j < pre_repr.subsets@.len() ==> (#[trigger] post.repr.subsets@[j]).addresses@
                            == spec_retain(pre_repr.subsets@[j].addresses@, ip)
                            && post.repr.subsets@[j].ports@ == pre_repr.subsets@[j].ports@)
                    &&& post.repr.metadata == pre_repr.metadata
                    &&& post.repr.api_version == pre_repr.api_version
                    &&& post.repr.kind == pre_repr.kind
                    &&& post.repr.yaml == pre_repr.yaml
                }
            },
            Err(e) => {
                // only the rescue path can fail, re-parsing the original
                // blob; the demotions stand and the next tick retries
                &&& e.kind == ErrorKind::Serde
                &&& pre_eps.len() > 1
                &&& pre_repr.subsets@[0].addresses@.len() == 1
                &&& marked_removed_ip(pre_eps, post.endpoints@, ip)
                &&& post.repr == pre_repr
            },
        }
    })
}

/// Everything the restoration decision for endpoint `i` promises, in the
/// same shape as [`remove_decision_post`]. Restoration itself cannot
/// fail.
pub open spec fn restore_decision_post(
    pre_eps: Seq<Endpoint>,
    pre_repr: ServiceRepr,
    pre_name: String,
    pre_version: String,
    post: Service,
    i: int,
    r: Result<EpAction, Error>,
) -> bool {
    &&& post.wf()
    &&& post.name == pre_name
    &&& post.our_version == pre_version
    &&& same_skeleton_eps(pre_eps, post.endpoints@)
    &&& ({
        let ip = pre_eps[i].addr.ip@;
        match r {
            Ok(act) => {
                &&& act.alerts@.len() == 1
                &&& (act.alerts@[0] matches Msg::EpUp(s, a) && s@ == pre_name@ && a@
                    == spec_addr_string(pre_eps[i].addr))
                &&& if !all_same_ip_healthy_except(pre_eps, ip, i) {
                    // partial recovery: only this endpoint turns healthy
                    &&& act.apply is None
                    &&& post.endpoints@ == pre_eps.update(
                        i,
                        spec_apply_transition(pre_eps[i], EndpointStatus::Healthy),
                    )
                    &&& post.repr == pre_repr
                } else if spec_contains_ip(pre_repr.subsets@[0].addresses@, ip) {
                    // the rescue left the IP in place: flip everything
                    // healthy and let the next pass sort the rest out
                    &&& act.apply is None
                    &&& post.endpoints@.len() == pre_eps.len()
                    &&& (forall|k: int|
                        0 <= k < pre_eps.len() ==> (#[trigger] post.endpoints@[k])
                            == spec_apply_transition(pre_eps[k], EndpointStatus::Healthy))
                    &&& post.repr == pre_repr
                } else {
                    // the IP is appended; the endpoint turns healthy at commit
                    &&& (act.apply matches Some(req) && (req.pending matches Pending::Restore {
                        i: pi,
                    } && pi == i) && req.yaml@ == spec_to_yaml(post.repr))
                    &&& post.endpoints@ == pre_eps
                    &&& post.repr.subsets@.len() == pre_repr.subsets@.len()
                    &&& post.repr.subsets@[0].addresses@.len() == pre_repr.subsets@[0].addresses@.len() + 1
                    &&& post.repr.subsets@[0].addresses@.last().ip@ == ip
                    &&& (forall|m: int|
                        0 <= m < pre_repr.subsets@[0].addresses@.len() ==> (
                        #[trigger] post.repr.subsets@[0].addresses@[m])
                            == pre_repr.subsets@[0].addresses@[m])
                    &&& post.repr.subsets@[0].ports@ == pre_repr.subsets@[0].ports@
                    &&& (forall|jj: int|
                        1 <= jj < pre_repr.subsets@.len() ==> (#[trigger] post.repr.subsets@[jj])
                            == pre_repr.subsets@[jj])
                    &&& post.repr.metadata == pre_repr.metadata
                    &&& post.repr.api_version == pre_repr.api_version
                    &&& post.repr.kind == pre_repr.kind
                    &&& post.repr.yaml == pre_repr.yaml
                    &&& count_ip(post.repr.subsets@[0].addresses@, ip) == 1
                }
            },
            Err(_) => false,
        }
    })
}

/// Everything one committed apply promises: the version token is adopted
/// and exactly the status changes the write stood for take place. Stated
/// once for [`Service::commit_apply`] and, entry-wise, for
/// [`ServiceRegistry::commit_at`].
pub open spec fn commit_post(pre: Service, post: Service, pending: Pending, new_version: String) -> bool {
    &&& post.wf()
    &&& same_skeleton(pre, post)
    &&& post.our_version == new_version
    &&& post.name == pre.name
    &&& match pending {
        Pending::RemovePlain { ip } => marked_removed_ip(pre.endpoints@, post.endpoints@, ip@)
            && post.repr == pre.repr,
        Pending::RemoveAllDown { repr } => post.repr == repr && post.endpoints@ == pre.endpoints@,
        Pending::Restore { i } => post.endpoints@ == pre.endpoints@.update(
            i as int,
            spec_apply_transition(pre.endpoints@[i as int], EndpointStatus::Healthy),
        ) && post.repr == pre.repr,
    }
}

/// Everything one probe outcome promises: the tally step is recorded
/// exactly, and exactly when a transition is warranted, the matching
/// removal or restoration decision — stated over the stepped state —
/// takes place.
pub open spec fn probe_step_post(
    pre: Service,
    post: Service,
    i: int,
    up: bool,
    r: Result<EpAction, Error>,
) -> bool {
    let stepped = if up {
        spec_record_up(pre.endpoints@[i])
    } else {
        spec_record_down(pre.endpoints@[i])
    };
    &&& post.wf()
    &&& same_skeleton(pre, post)
    &&& post.our_version == pre.our_version
    &&& (!stepped.1 ==> (r matches Ok(act) && act.alerts@.len() == 0 && act.apply is None
        && post.endpoints@ == pre.endpoints@.update(i, stepped.0) && post.repr == pre.repr))
    &&& ((stepped.1 && up) ==> restore_decision_post(
        pre.endpoints@.update(i, stepped.0),
        pre.repr,
        pre.name,
        pre.our_version,
        post,
        i,
        r,
    ))
    &&& ((stepped.1 && !up) ==> remove_decision_post(
        pre.endpoints@.update(i, stepped.0),
        pre.repr,
        pre.name,
        pre.our_version,
        post,
        i,
        r,
    ))
    &&& (r is Err ==> (!up && stepped.1))
}

/// Demotes endpoint `k`: writes the status and resets the tallies, as at
/// every transition boundary.
fn mark_ep(eps: &mut Vec<Endpoint>, k: usize, s: EndpointStatus)
    requires
        k < old(eps)@.len(),
    ensures
        final(eps)@ == old(eps)@.update(k as int, spec_apply_transition(old(eps)@[k as int], s)),
{
    eps[k].set_status(s);
    eps[k].reset_counter();
    proof {
        assert(eps@ =~= old(eps)@.update(
            k as int,
            spec_apply_transition(old(eps)@[k as int], s),
        ));
    }
}

impl Service {
    /// Decides the removal of endpoint `i`, which has just crossed its
    /// remove threshold. With a single endpoint, it is only marked. When
    /// the document is down to its last address, the rescue applies the
    /// original document instead of emptying the list. Otherwise the IP
    /// is stripped from the document, which the caller applies; the
    /// endpoints sharing it are marked at commit.
    pub fn remove_ep(&mut self, i: usize) -> (r: Result<EpAction, Error>)
        requires
            old(self).wf(),
            i < old(self).endpoints@.len(),
        ensures
            remove_decision_post(
                old(self).endpoints@,
                old(self).repr,
                old(self).name,
                old(self).our_version,
                *final(self),
                i as int,
                r,
            ),
    {
        let ep_ip: String = self.endpoints[i].addr.ip.clone();
        let addr_str = addr_string(&self.endpoints[i].addr);
        let mut alerts: Vec<Msg> = Vec::new();
        alerts.push(Msg::EpDown(self.name.clone(), addr_str));

        if self.endpoints.len() <= 1 {
            // the only endpoint: mark it, never empty the document
            mark_ep(&mut self.endpoints, i, EndpointStatus::Removed);
            return Ok(EpAction { alerts, apply: None });
        }

        if self.repr.subsets[0].addresses.len() == 1 {
            // every endpoint is unhealthy once this one goes: restore the
            // original document so one probe success brings traffic back
            alerts.push(Msg::AllEpDown(self.name.clone()));
            let n = self.endpoints.len();
            let mut k: usize = 0;
            while k < n
                invariant
                    k <= n,
                    n == self.endpoints@.len(),
                    n == old(self).endpoints@.len(),
                    self.repr == old(self).repr,
                    self.name == old(self).name,
                    self.our_version == old(self).our_version,
                    ep_ip@ == old(self).endpoints@[i as int].addr.ip@,
                    forall|m: int|
                        0 <= m < k ==> (#[trigger] self.endpoints@[m]) == (if old(self).endpoints@[m].addr.ip@ == ep_ip@ {
                            spec_apply_transition(
                                old(self).endpoints@[m],
                                EndpointStatus::Removed,
                            )
                        } else {
                            old(self).endpoints@[m]
                        }),
                    forall|m: int|
                        k <= m < n ==> (#[trigger] self.endpoints@[m]) == old(self).endpoints@[m],
                decreases n - k,
            {
                if str_eq(self.endpoints[k].addr.ip.as_str(), ep_ip.as_str()) {
                    mark_ep(&mut self.endpoints, k, EndpointStatus::Removed);
                }
                k = k + 1;
            }
            let original = match ServiceRepr::from_str(self.repr.yaml.as_str()) {
                Ok(r) => r,
                Err(e) => {
                    return Err(e);
                },
            };
            if original.subsets.len() == 0 || !str_eq(
                original.metadata.name.as_str(),
                self.name.as_str(),
            ) {
                // the original blob no longer describes this service
                return Err(Error::serde(String::from_str("original document is not usable")));
            }
            let yml = original.to_yaml();
            return Ok(
                EpAction {
                    alerts,
                    apply: Some(
                        ApplyRequest { yaml: yml, pending: Pending::RemoveAllDown { repr: original } },
                    ),
                },
            );
        }

        // strip the IP from every subset; endpoints are marked at commit
        let ns = self.repr.subsets.len();
        let mut j: usize = 0;
        while j < ns
            invariant
                j <= ns,
                ns == self.repr.subsets@.len(),
                ns == old(self).repr.subsets@.len(),
                self.endpoints@ == old(self).endpoints@,
                self.name == old(self).name,
                self.our_version == old(self).our_version,
                self.repr.metadata == old(self).repr.metadata,
                self.repr.api_version == old(self).repr.api_version,
                self.repr.kind == old(self).repr.kind,
                self.repr.yaml == old(self).repr.yaml,
                ep_ip@ == old(self).endpoints@[i as int].addr.ip@,
                forall|m: int|
                    0 <= m < j ==> (#[trigger] self.repr.subsets@[m]).addresses@ == spec_retain(
                        old(self).repr.subsets@[m].addresses@,
                        ep_ip@,
                    ) && self.repr.subsets@[m].ports@ == old(self).repr.subsets@[m].ports@,
                forall|m: int|
                    j <= m < ns ==> (#[trigger] self.repr.subsets@[m]) == old(self).repr.subsets@[m],
            decreases ns - j,
        {
            let filtered = retain_addrs(&self.repr.subsets[j].addresses, ep_ip.as_str());
            let ports = clone_ports(&self.repr.subsets[j].ports);
            self.repr.subsets[j] = SubsetRepr { addresses: filtered, ports };
            j = j + 1;
        }
        let yml = self.repr.to_yaml();
        Ok(
            EpAction {
                alerts,
                apply: Some(
                    ApplyRequest { yaml: yml, pending: Pending::RemovePlain { ip: ep_ip } },
                ),
            },
        )
    }

    /// Decides the restoration of endpoint `i`, which has just crossed
    /// its restore threshold. The IP goes back into the document only
    /// when all of its ports have recovered; if the rescue left the IP in
    /// the document, everything is marked healthy without a write.
    pub fn restore_ep(&mut self, i: usize) -> (r: Result<EpAction, Error>)
        requires
            old(self).wf(),
            i < old(self).endpoints@.len(),
        ensures
            r is Ok,
            restore_decision_post(
                old(self).endpoints@,
                old(self).repr,
                old(self).name,
                old(self).our_version,
                *final(self),
                i as int,
                r,
            ),
    {
        let ep_ip: String = self.endpoints[i].addr.ip.clone();
        let addr_str = addr_string(&self.endpoints[i].addr);
        let mut alerts: Vec<Msg> = Vec::new();
        alerts.push(Msg::EpUp(self.name.clone(), addr_str));

        // restore the IP in the document only when all of its ports are up
        let n = self.endpoints.len();
        let mut all_up = true;
        let mut k: usize = 0;
        while k < n
            invariant
                k <= n,
                n == self.endpoints@.len(),
                *self == *old(self),
                ep_ip@ == old(self).endpoints@[i as int].addr.ip@,
                all_up ==> (forall|m: int|
                    0 <= m < k && m != i as int && old(self).endpoints@[m].addr.ip@ == ep_ip@
                        ==> (#[trigger] old(self).endpoints@[m]).status is Healthy),
                !all_up ==> !all_same_ip_healthy_except(
                    old(self).endpoints@,
                    ep_ip@,
                    i as int,
                ),
            decreases n - k,
        {
            if k != i && str_eq(self.endpoints[k].addr.ip.as_str(), ep_ip.as_str()) {
                if matches!(self.endpoints[k].status, EndpointStatus::Removed) {
                    all_up = false;
                }
            }
            k = k + 1;
        }

        if !all_up {
            mark_ep(&mut self.endpoints, i, EndpointStatus::Healthy);
            return Ok(EpAction { alerts, apply: None });
        }

        if contains_ip(&self.repr.subsets[0].addresses, ep_ip.as_str()) {
            // all addresses were restored by the rescue; mark everything
            // healthy and let the next probe pass remove the still-down ones
            let mut k2: usize = 0;
            while k2 < n
                invariant
                    k2 <= n,
                    n == self.endpoints@.len(),
                    n == old(self).endpoints@.len(),
                    self.repr == old(self).repr,
                    self.name == old(self).name,
                    self.our_version == old(self).our_version,
                    forall|m: int|
                        0 <= m < k2 ==> (#[trigger] self.endpoints@[m]) == spec_apply_transition(
                            old(self).endpoints@[m],
                            EndpointStatus::Healthy,
                        ),
                    forall|m: int|
                        k2 <= m < n ==> (#[trigger] self.endpoints@[m]) == old(self).endpoints@[m],
                decreases n - k2,
            {
                mark_ep(&mut self.endpoints, k2, EndpointStatus::Healthy);
                k2 = k2 + 1;
            }
            return Ok(EpAction { alerts, apply: None });
        }

        proof {
            lemma_count_ip_zero(self.repr.subsets@[0].addresses@, ep_ip@);
        }
        let ghost before_addrs = self.repr.subsets@[0].addresses@;
        self.repr.subsets[0].addresses.push(AddressRepr { ip: ep_ip.clone() });
        proof {
            assert(self.repr.subsets@[0].addresses@.drop_last() =~= before_addrs);
            assert(count_ip(self.repr.subsets@[0].addresses@, ep_ip@) == 1);
        }
        let yml = self.repr.to_yaml();
        Ok(
            EpAction {
                alerts,
                apply: Some(ApplyRequest { yaml: yml, pending: Pending::Restore { i } }),
            },
        )
    }

    /// Commits a successful cluster apply into the aggregate: adopts the
    /// returned version token and performs the status changes the write
    /// stood for.
    pub fn commit_apply(&mut self, pending: Pending, new_version: String)
        requires
            old(self).wf(),
            (pending matches Pending::Restore { i } ==> i < old(self).endpoints@.len()),
            (pending matches Pending::RemoveAllDown { repr } ==> repr.subsets@.len() >= 1
                && repr.metadata.name@ == old(self).name@),
        ensures
            commit_post(*old(self), *final(self), pending, new_version),
    {
        match pending {
            Pending::RemovePlain { ip } => {
                let n = self.endpoints.len();
                let mut k: usize = 0;
                while k < n
                    invariant
                        k <= n,
                        n == self.endpoints@.len(),
                        n == old(self).endpoints@.len(),
                        self.repr == old(self).repr,
                        self.name == old(self).name,
                        self.our_version == old(self).our_version,
                        forall|m: int|
                            0 <= m < k ==> (#[trigger] self.endpoints@[m]) == (if old(self).endpoints@[m].addr.ip@ == ip@ {
                                spec_apply_transition(
                                    old(self).endpoints@[m],
                                    EndpointStatus::Removed,
                                )
                            } else {
                                old(self).endpoints@[m]
                            }),
                        forall|m: int|
                            k <= m < n ==> (#[trigger] self.endpoints@[m]) == old(self).endpoints@[m],
                    decreases n - k,
                {
                    if str_eq(self.endpoints[k].addr.ip.as_str(), ip.as_str()) {
                        mark_ep(&mut self.endpoints, k, EndpointStatus::Removed);
                    }
                    k = k + 1;
                }
            },
            Pending::RemoveAllDown { repr } => {
                self.repr = repr;
            },
            Pending::Restore { i } => {
                mark_ep(&mut self.endpoints, i, EndpointStatus::Healthy);
            },
        }
        self.our_version = new_version;
    }

    /// Feeds one probe outcome for endpoint `i` through its state machine
    /// and, when a transition is warranted, decides the matching cluster
    /// mutation: exactly the removal or restoration decision, stated over
    /// the stepped state (see [`probe_step_post`]).
    pub fn handle_probe(&mut self, i: usize, up: bool) -> (r: Result<EpAction, Error>)
        requires
            old(self).wf(),
            i < old(self).endpoints@.len(),
        ensures
            probe_step_post(*old(self), *final(self), i as int, up, r),
    {
        let ghost pre = *self;
        let transition = if up {
            self.endpoints[i].up()
        } else {
            self.endpoints[i].down()
        };
        proof {
            let stepped = if up {
                spec_record_up(pre.endpoints@[i as int])
            } else {
                spec_record_down(pre.endpoints@[i as int])
            };
            assert(self.endpoints@ =~= pre.endpoints@.update(i as int, stepped.0));
            assert(same_skeleton_eps(pre.endpoints@, self.endpoints@));
        }
        if !transition {
            proof {
                assert(same_skeleton(pre, *self));
            }
            return Ok(EpAction { alerts: Vec::new(), apply: None });
        }
        let r = if up {
            self.restore_ep(i)
        } else {
            self.remove_ep(i)
        };
        proof {
            assert(same_skeleton(pre, *self));
        }
        r
    }
}

} // verus!
