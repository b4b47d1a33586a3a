//! The endpoint document model and its serialized form.
//!
//! [`ServiceRepr`] holds the fields of the cluster's endpoint document that
//! the controller works with, plus the blob it was first ingested from.
//! [`ServiceRepr::to_yaml`] renders the document for an apply; the resource
//! version is deliberately not emitted (the cluster assigns it on write).
//! Parsing lives in the codec module.

use crate::strutil::{append_u32, spec_udec};
use vstd::prelude::*;
use vstd::string::StringExecFns;

verus! {

/// One address of a subset: an IP in textual form.
#[derive(Debug)]
pub struct AddressRepr {
    pub ip: String,
}

impl Clone for AddressRepr {
    fn clone(&self) -> (r: Self)
        ensures
            r == *self,
    {
        AddressRepr { ip: self.ip.clone() }
    }
}

/// Two address entries are equal iff their IPs match.
impl PartialEq for AddressRepr {
    fn eq(&self, other: &Self) -> (r: bool) {
        self.ip == other.ip
    }
}

impl vstd::std_specs::cmp::PartialEqSpecImpl for AddressRepr {
    open spec fn obeys_eq_spec() -> bool {
        true
    }

    open spec fn eq_spec(&self, other: &Self) -> bool {
        self.ip@ == other.ip@
    }
}

/// One port of a subset: an optional name, the port number and the
/// protocol tag.
#[derive(Debug)]
pub struct PortRepr {
    pub name: Option<String>,
    pub port: u32,
    pub protocol: String,
}

impl Clone for PortRepr {
    fn clone(&self) -> (r: Self)
        ensures
            r == *self,
    {
        let name = match &self.name {
            Some(n) => Some(n.clone()),
            None => None,
        };
        PortRepr { name, port: self.port, protocol: self.protocol.clone() }
    }
}

/// One subset of the document: its addresses and its ports. Every
/// address/port combination backs the service.
#[derive(Debug)]
pub struct SubsetRepr {
    pub addresses: Vec<AddressRepr>,
    pub ports: Vec<PortRepr>,
}

/// The document's metadata: the service name and the version token the
/// cluster assigned on the last write.
#[derive(Debug)]
pub struct ServiceMetadataRepr {
    pub name: String,
    pub resource_version: String,
}

impl Clone for ServiceMetadataRepr {
    fn clone(&self) -> (r: Self)
        ensures
            r == *self,
    {
        ServiceMetadataRepr {
            name: self.name.clone(),
            resource_version: self.resource_version.clone(),
        }
    }
}

/// The endpoint document: type header, metadata, subsets, and the blob it
/// was first parsed from (kept verbatim for the all-down rescue).
#[derive(Debug)]
pub struct ServiceRepr {
    pub api_version: String,
    pub kind: String,
    pub metadata: ServiceMetadataRepr,
    pub subsets: Vec<SubsetRepr>,
    pub yaml: String,
}

/// Rendering of one address entry.
pub open spec fn yaml_of_addr(a: AddressRepr) -> Seq<char> {
    "  - ip: "@ + a.ip@ + "\n"@
}

/// Rendering of a list of address entries, in order.
pub open spec fn yaml_of_addrs(addrs: Seq<AddressRepr>) -> Seq<char>
    decreases addrs.len(),
{
    if addrs.len() == 0 {
        Seq::empty()
    } else {
        yaml_of_addrs(addrs.drop_last()) + yaml_of_addr(addrs.last())
    }
}

/// Rendering of one port entry. A nameless port omits the name line.
pub open spec fn yaml_of_port(p: PortRepr) -> Seq<char> {
    match p.name {
        Some(n) => "  - name: "@ + n@ + "\n    port: "@ + spec_udec(p.port as int)
            + "\n    protocol: "@ + p.protocol@ + "\n"@,
        None => "  - port: "@ + spec_udec(p.port as int) + "\n    protocol: "@ + p.protocol@
            + "\n"@,
    }
}

/// Rendering of a list of port entries, in order.
pub open spec fn yaml_of_ports(ports: Seq<PortRepr>) -> Seq<char>
    decreases ports.len(),
{
    if ports.len() == 0 {
        Seq::empty()
    } else {
        yaml_of_ports(ports.drop_last()) + yaml_of_port(ports.last())
    }
}

/// Rendering of one subset: its address block and its port block. An
/// empty list renders as the empty flow sequence.
pub open spec fn yaml_of_subset(s: SubsetRepr) -> Seq<char> {
    "- addresses:"@ + (if s.addresses@.len() == 0 {
        " []\n"@
    } else {
        "\n"@ + yaml_of_addrs(s.addresses@)
    }) + "  ports:"@ + (if s.ports@.len() == 0 {
        " []\n"@
    } else {
        "\n"@ + yaml_of_ports(s.ports@)
    })
}

/// Rendering of the subset list, in order.
pub open spec fn yaml_of_subsets(ss: Seq<SubsetRepr>) -> Seq<char>
    decreases ss.len(),
{
    if ss.len() == 0 {
        Seq::empty()
    } else {
        yaml_of_subsets(ss.drop_last()) + yaml_of_subset(ss.last())
    }
}

/// Rendering of the whole document, without the resource version.
pub open spec fn spec_to_yaml(r: ServiceRepr) -> Seq<char> {
    "apiVersion: "@ + r.api_version@ + "\nkind: "@ + r.kind@ + "\nmetadata:\n  name: "@
        + r.metadata.name@ + "\nsubsets:"@ + (if r.subsets@.len() == 0 {
        " []\n"@
    } else {
        "\n"@ + yaml_of_subsets(r.subsets@)
    })
}

/// Appends the address block of one subset.
fn append_addrs(s: &mut String, addrs: &Vec<AddressRepr>)
    ensures
        final(s)@ == old(s)@ + yaml_of_addrs(addrs@),
{
    let n = addrs.len();
    let mut i: usize = 0;
    while i < n
        invariant
            i <= n,
            n == addrs@.len(),
            s@ == old(s)@ + yaml_of_addrs(addrs@.subrange(0, i as int)),
        decreases n - i,
    {
        s.append("  - ip: ");
        s.append(addrs[i].ip.as_str());
        s.append("\n");
        proof {
            assert(addrs@.subrange(0, i + 1 as int).drop_last() =~= addrs@.subrange(0, i as int));
            assert(addrs@.subrange(0, i + 1 as int).last() == addrs@[i as int]);
            assert(s@ =~= old(s)@ + yaml_of_addrs(addrs@.subrange(0, i + 1 as int)));
        }
        i = i + 1;
    }
    proof {
        assert(addrs@.subrange(0, n as int) =~= addrs@);
    }
}

/// Appends the port block of one subset.
fn append_ports(s: &mut String, ports: &Vec<PortRepr>)
    ensures
        final(s)@ == old(s)@ + yaml_of_ports(ports@),
{
    let n = ports.len();
    let mut i: usize = 0;
    while i < n
        invariant
            i <= n,
            n == ports@.len(),
            s@ == old(s)@ + yaml_of_ports(ports@.subrange(0, i as int)),
        decreases n - i,
    {
        match &ports[i].name {
            Some(name) => {
                s.append("  - name: ");
                s.append(name.as_str());
                s.append("\n    port: ");
            },
            None => {
                s.append("  - port: ");
            },
        }
        append_u32(s, ports[i].port);
        s.append("\n    protocol: ");
        s.append(ports[i].protocol.as_str());
        s.append("\n");
        proof {
            assert(ports@.subrange(0, i + 1 as int).drop_last() =~= ports@.subrange(0, i as int));
            assert(ports@.subrange(0, i + 1 as int).last() == ports@[i as int]);
            assert(s@ =~= old(s)@ + yaml_of_ports(ports@.subrange(0, i + 1 as int)));
        }
        i = i + 1;
    }
    proof {
        assert(ports@.subrange(0, n as int) =~= ports@);
    }
}

impl ServiceRepr {
    /// Renders the document for a cluster apply. The resource version is
    /// not emitted: the cluster assigns a fresh one on write. String
    /// values are emitted as plain scalars.
    pub fn to_yaml(&self) -> (r: String)
        ensures
            r@ == spec_to_yaml(*self),
    {
        let mut s = String::from_str("apiVersion: ");
        s.append(self.api_version.as_str());
        s.append("\nkind: ");
        s.append(self.kind.as_str());
        s.append("\nmetadata:\n  name: ");
        s.append(self.metadata.name.as_str());
        s.append("\nsubsets:");
        let n = self.subsets.len();
        if n == 0 {
            s.append(" []\n");
            proof {
                assert(s@ =~= spec_to_yaml(*self));
            }
            return s;
        }
        s.append("\n");
        let ghost header = s@;
        let mut i: usize = 0;
        while i < n
            invariant
                i <= n,
                n == self.subsets@.len(),
                n > 0,
                s@ == header + yaml_of_subsets(self.subsets@.subrange(0, i as int)),
            decreases n - i,
        {
            let sub = &self.subsets[i];
            s.append("- addresses:");
            if sub.addresses.len() == 0 {
                s.append(" []\n");
            } else {
                s.append("\n");
                append_addrs(&mut s, &sub.addresses);
            }
            s.append("  ports:");
            if sub.ports.len() == 0 {
                s.append(" []\n");
            } else {
                s.append("\n");
                append_ports(&mut s, &sub.ports);
            }
            proof {
                assert(self.subsets@.subrange(0, i + 1 as int).drop_last() =~= self.subsets@
                    .subrange(0, i as int));
                assert(self.subsets@.subrange(0, i + 1 as int).last() == self.subsets@[i as int]);
                assert(s@ =~= header + yaml_of_subsets(self.subsets@.subrange(0, i + 1 as int)));
            }
            i = i + 1;
        }
        proof {
            assert(self.subsets@.subrange(0, n as int) =~= self.subsets@);
            assert(s@ =~= spec_to_yaml(*self));
        }
        s
    }
}

} // verus!
