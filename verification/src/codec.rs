//! Parsing the endpoint document.
//!
//! The YAML text is handed to the YAML crate, which produces its generic
//! value tree; that tree is opaque to the verifier, so each step into it
//! goes through a small trusted accessor. The walk itself — which fields
//! the document must carry and what they mean — is the library's own logic
//! and is verified. Unrecognized fields are ignored. A document missing a
//! required field, or carrying one of the wrong shape, is a codec error.

use crate::error::{Error, ErrorKind};
use crate::yaml::{AddressRepr, PortRepr, ServiceMetadataRepr, ServiceRepr, SubsetRepr};
use vstd::prelude::*;
use vstd::string::StringExecFns;

verus! {

// The YAML crate's generic value is opaque to the verifier; it is declared
// so that values of it can pass through signatures.
#[verifier::external_type_specification]
#[verifier::external_body]
pub struct ExValue(serde_yaml::Value);

/// Relies on serde_yaml::from_str::<Value>: parses YAML text into the
/// crate's generic value tree; a parse failure is rendered as text.
#[verifier::external_body]
fn yaml_from_str(s: &str) -> Result<serde_yaml::Value, String> {
    serde_yaml::from_str::<serde_yaml::Value>(s).map_err(|e| e.to_string())
}

/// Relies on Value::get: looks up a key in a YAML mapping; None when the
/// value is not a mapping or lacks the key.
#[verifier::external_body]
fn yaml_get<'a>(v: &'a serde_yaml::Value, key: &str) -> Option<&'a serde_yaml::Value> {
    v.get(key)
}

/// Relies on Value::as_str: the content of a string scalar, None for any
/// other value.
#[verifier::external_body]
fn yaml_as_str<'a>(v: &'a serde_yaml::Value) -> Option<&'a str> {
    v.as_str()
}

/// Relies on Value::as_u64: the content of an unsigned numeric scalar,
/// None for any other value.
#[verifier::external_body]
fn yaml_as_u64(v: &serde_yaml::Value) -> Option<u64> {
    v.as_u64()
}

/// Relies on Value::as_sequence: the elements of a YAML sequence, None
/// for any other value.
#[verifier::external_body]
fn yaml_as_sequence<'a>(v: &'a serde_yaml::Value) -> Option<&'a Vec<serde_yaml::Value>> {
    v.as_sequence()
}

/// A required string field of a mapping.
fn req_str_field(v: &serde_yaml::Value, key: &str) -> (r: Result<String, Error>)
    ensures
        r matches Err(e) ==> e.kind == ErrorKind::Serde,
{
    match yaml_get(v, key) {
        Some(f) => match yaml_as_str(f) {
            Some(s) => Ok(s.to_owned()),
            None => Err(Error::serde(String::from_str("field is not a string: ").concat(key))),
        },
        None => Err(Error::serde(String::from_str("missing field: ").concat(key))),
    }
}

/// The address list of one subset.
fn parse_addresses(sub: &serde_yaml::Value) -> (r: Result<Vec<AddressRepr>, Error>)
    ensures
        r matches Err(e) ==> e.kind == ErrorKind::Serde,
{
    let seq = match yaml_get(sub, "addresses") {
        Some(a) => match yaml_as_sequence(a) {
            Some(s) => s,
            None => {
                return Err(Error::serde(String::from_str("addresses is not a sequence")));
            },
        },
        None => { return Err(Error::serde(String::from_str("missing field: addresses"))) },
    };
    let mut out: Vec<AddressRepr> = Vec::new();
    let n = seq.len();
    let mut i: usize = 0;
    while i < n
        invariant
            i <= n,
            n == seq@.len(),
        decreases n - i,
    {
        let ip = match req_str_field(&seq[i], "ip") {
            Ok(ip) => ip,
            Err(e) => { return Err(e) },
        };
        out.push(AddressRepr { ip });
        i = i + 1;
    }
    Ok(out)
}

/// The port list of one subset. The name is optional; the port number
/// must fit the document's port type.
fn parse_ports(sub: &serde_yaml::Value) -> (r: Result<Vec<PortRepr>, Error>)
    ensures
        r matches Err(e) ==> e.kind == ErrorKind::Serde,
{
    let seq = match yaml_get(sub, "ports") {
        Some(a) => match yaml_as_sequence(a) {
            Some(s) => s,
            None => { return Err(Error::serde(String::from_str("ports is not a sequence"))) },
        },
        None => { return Err(Error::serde(String::from_str("missing field: ports"))) },
    };
    let mut out: Vec<PortRepr> = Vec::new();
    let n = seq.len();
    let mut i: usize = 0;
    while i < n
        invariant
            i <= n,
            n == seq@.len(),
        decreases n - i,
    {
        let p = &seq[i];
        let name = match yaml_get(p, "name") {
            Some(nv) => match yaml_as_str(nv) {
                Some(s) => Some(s.to_owned()),
                None => {
                    return Err(Error::serde(String::from_str("port name is not a string")));
                },
            },
            None => None,
        };
        let port64 = match yaml_get(p, "port") {
            Some(pv) => match yaml_as_u64(pv) {
                Some(x) => x,
                None => { return Err(Error::serde(String::from_str("port is not a number"))) },
            },
            None => { return Err(Error::serde(String::from_str("missing field: port"))) },
        };
        if port64 > u32::MAX as u64 {
            return Err(Error::serde(String::from_str("port is out of range")));
        }
        let protocol = match req_str_field(p, "protocol") {
            Ok(s) => s,
            Err(e) => { return Err(e) },
        };
        out.push(PortRepr { name, port: port64 as u32, protocol });
        i = i + 1;
    }
    Ok(out)
}

impl ServiceRepr {
    /// Parses an endpoint document and keeps the blob verbatim. The
    /// resource version may be absent (a document this library emitted
    /// does not carry one) and then reads as empty.
    pub fn from_str(s: &str) -> (r: Result<ServiceRepr, Error>)
        ensures
            r matches Ok(repr) ==> repr.yaml@ == s@,
            r matches Err(e) ==> e.kind == ErrorKind::Serde,
    {
        let v = match yaml_from_str(s) {
            Ok(v) => v,
            Err(msg) => { return Err(Error::serde(msg)) },
        };
        let api_version = match req_str_field(&v, "apiVersion") {
            Ok(x) => x,
            Err(e) => { return Err(e) },
        };
        let kind = match req_str_field(&v, "kind") {
            Ok(x) => x,
            Err(e) => { return Err(e) },
        };
        let mv = match yaml_get(&v, "metadata") {
            Some(m) => m,
            None => { return Err(Error::serde(String::from_str("missing field: metadata"))) },
        };
        let name = match req_str_field(mv, "name") {
            Ok(x) => x,
            Err(e) => { return Err(e) },
        };
        let resource_version = match yaml_get(mv, "resourceVersion") {
            Some(rv) => match yaml_as_str(rv) {
                Some(x) => x.to_owned(),
                None => {
                    return Err(Error::serde(String::from_str(
                        "resourceVersion is not a string",
                    )));
                },
            },
            None => String::new(),
        };
        let sv = match yaml_get(&v, "subsets") {
            Some(sv) => match yaml_as_sequence(sv) {
                Some(s) => s,
                None => {
                    return Err(Error::serde(String::from_str("subsets is not a sequence")));
                },
            },
            None => { return Err(Error::serde(String::from_str("missing field: subsets"))) },
        };
        let mut subsets: Vec<SubsetRepr> = Vec::new();
        let n = sv.len();
        let mut i: usize = 0;
        while i < n
            invariant
                i <= n,
                n == sv@.len(),
            decreases n - i,
        {
            let addresses = match parse_addresses(&sv[i]) {
                Ok(a) => a,
                Err(e) => { return Err(e) },
            };
            let ports = match parse_ports(&sv[i]) {
                Ok(p) => p,
                Err(e) => { return Err(e) },
            };
            subsets.push(SubsetRepr { addresses, ports });
            i = i + 1;
        }
        Ok(ServiceRepr {
            api_version,
            kind,
            metadata: ServiceMetadataRepr { name, resource_version },
            subsets,
            yaml: s.to_owned(),
        })
    }
}

} // verus!
