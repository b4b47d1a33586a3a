//! Alert messages and the alert channel selected from a URL.
//!
//! The library only decides *what* to say and *where* it goes; delivering a
//! message is I/O and stays with the caller, behind the [`AlertChannel`]
//! trait.

use crate::strutil::str_eq;
use vstd::prelude::*;
use vstd::string::StrSliceExecFns;
use vstd::string::StringExecFns;

verus! {

/// A notification about an endpoint state transition.
#[derive(Debug)]
pub enum Msg {
    /// service name, endpoint address
    EpDown(String, String),
    /// service name, endpoint address
    EpUp(String, String),
    /// service name
    AllEpDown(String),
}

/// The cluster label used in alert texts: the configured name, or
/// "unknown".
pub open spec fn spec_cluster_label(name: Option<String>) -> Seq<char> {
    match name {
        Some(n) => n@,
        None => "unknown"@,
    }
}

/// The rendered text of a message under a given cluster label.
pub open spec fn spec_msg_text(m: Msg, cluster: Seq<char>) -> Seq<char> {
    match m {
        Msg::EpDown(svc, addr) => "ENDPOINT DOWN\nCluster: "@ + cluster + "\nService: "@ + svc@
            + "\nendpoint: "@ + addr@,
        Msg::EpUp(svc, addr) => "ENDPOINT UP\nCluster: "@ + cluster + "\nService: "@ + svc@
            + "\nendpoint: "@ + addr@,
        Msg::AllEpDown(svc) => "ALL ENDPOINTS DOWN\nCluster: "@ + cluster + "\nService: "@
            + svc@,
    }
}

impl Msg {
    /// Renders the message for delivery, labelled with the configured
    /// cluster name.
    pub fn to_string(&self, cluster_name: &Option<String>) -> (r: String)
        ensures
            r@ == spec_msg_text(*self, spec_cluster_label(*cluster_name)),
    {
        let mut s: String;
        match self {
            Msg::EpDown(svc, addr) => {
                s = String::from_str("ENDPOINT DOWN\nCluster: ");
                append_cluster(&mut s, cluster_name);
                s.append("\nService: ");
                s.append(svc.as_str());
                s.append("\nendpoint: ");
                s.append(addr.as_str());
            },
            Msg::EpUp(svc, addr) => {
                s = String::from_str("ENDPOINT UP\nCluster: ");
                append_cluster(&mut s, cluster_name);
                s.append("\nService: ");
                s.append(svc.as_str());
                s.append("\nendpoint: ");
                s.append(addr.as_str());
            },
            Msg::AllEpDown(svc) => {
                s = String::from_str("ALL ENDPOINTS DOWN\nCluster: ");
                append_cluster(&mut s, cluster_name);
                s.append("\nService: ");
                s.append(svc.as_str());
            },
        }
        proof {
            assert(s@ =~= spec_msg_text(*self, spec_cluster_label(*cluster_name)));
        }
        s
    }
}

/// Appends the cluster label.
fn append_cluster(s: &mut String, cluster_name: &Option<String>)
    ensures
        final(s)@ == old(s)@ + spec_cluster_label(*cluster_name),
{
    match cluster_name {
        Some(n) => s.append(n.as_str()),
        None => s.append("unknown"),
    }
}

/// A delivery target for alert messages. Implementations live with the
/// caller; delivering a message is I/O.
pub trait AlertChannel {
    fn send(&self, msg: Msg);
}

/// The kind of channel an alert URL selects, with its delivery target.
#[derive(Debug)]
pub enum ChannelKind {
    WeCom { url: String },
}

/// The alert configuration: a selected channel, or none (alerting
/// disabled).
#[derive(Debug)]
pub struct Alert {
    pub channel: Option<ChannelKind>,
}

impl Default for Alert {
    /// Alerting disabled.
    fn default() -> (r: Self)
        ensures
            r.channel is None,
    {
        Alert { channel: None }
    }
}

/// Whether the scheme separator "://" sits at position `i`.
pub open spec fn sep_at(s: Seq<char>, i: int) -> bool {
    &&& 0 <= i
    &&& i + 3 <= s.len()
    &&& s[i] == ':'
    &&& s[i + 1] == '/'
    &&& s[i + 2] == '/'
}

/// The position of the first scheme separator at or after `i`, if any.
pub open spec fn first_sep_from(s: Seq<char>, i: int) -> Option<int>
    decreases s.len() - i,
{
    if i < 0 || i + 3 > s.len() {
        None
    } else if sep_at(s, i) {
        Some(i)
    } else {
        first_sep_from(s, i + 1)
    }
}

/// An alert URL split at the first "://": the scheme before it and the
/// target after it. A URL without a separator is all scheme and has an
/// empty target.
pub open spec fn spec_split_scheme(s: Seq<char>) -> (Seq<char>, Seq<char>) {
    match first_sep_from(s, 0) {
        Some(i) => (s.subrange(0, i), s.subrange(i + 3, s.len() as int)),
        None => (s, Seq::empty()),
    }
}

/// The position of the first "://" in `url`, if any.
fn find_sep(url: &str) -> (r: Option<usize>)
    ensures
        match r {
            Some(i) => first_sep_from(url@, 0) == Some(i as int) && sep_at(url@, i as int),
            None => first_sep_from(url@, 0) is None,
        },
{
    let n = url.unicode_len();
    let mut i: usize = 0;
    loop
        invariant
            i <= n,
            n == url@.len(),
            first_sep_from(url@, 0) == first_sep_from(url@, i as int),
        decreases n - i,
    {
        if n - i < 3 {
            return None;
        }
        if url.get_char(i) == ':' && url.get_char(i + 1) == '/' && url.get_char(i + 2) == '/' {
            return Some(i);
        }
        i = i + 1;
    }
}

impl Alert {
    /// Selects the alert channel from a `scheme://target` URL. An absent
    /// or empty URL, and an unrecognized scheme, disable alerting.
    pub fn from_url_scheme(url: &Option<String>) -> (r: Self)
        ensures
            ({
                match *url {
                    None => r.channel is None,
                    Some(u) => {
                        let (scheme, target) = spec_split_scheme(u@);
                        if u@.len() == 0 {
                            r.channel is None
                        } else if scheme == "wecom"@ {
                            r.channel matches Some(ChannelKind::WeCom { url: t }) && t@
                                == target
                        } else {
                            r.channel is None
                        }
                    },
                }
            }),
    {
        let u = match url {
            None => { return Alert { channel: None } },
            Some(u) => u,
        };
        let s = u.as_str();
        let n = s.unicode_len();
        if n == 0 {
            return Alert { channel: None };
        }
        let (scheme, target) = match find_sep(s) {
            Some(i) => (s.substring_char(0, i), s.substring_char(i + 3, n)),
            None => (s, ""),
        };
        proof {
            reveal_strlit("");
            assert(scheme@ == spec_split_scheme(u@).0);
            assert(target@ =~= spec_split_scheme(u@).1);
        }
        if str_eq(scheme, "wecom") {
            Alert { channel: Some(ChannelKind::WeCom { url: target.to_owned() }) }
        } else {
            Alert { channel: None }
        }
    }
}

} // verus!
