//! Per-prefix proxy configuration: the semantic mapping from the fields
//! of one configuration table entry to an `NDConfig` record. Reading and
//! decoding the configuration file itself happens outside the library;
//! this module receives its fields as plain values.

use vstd::prelude::*;

use crate::address::V6Prefix;
use crate::types::AddressMangling;

pub use crate::types::Proxy;

verus! {

/// Lifetime of a neighbor-presence entry, in seconds.
pub const TTL_OF_CACHE: u64 = 600;

/// Capacity of each proxy's solicitation channel: one, so that a storm of
/// solicitations slows the monitors down instead of growing a queue.
pub const MPSC_CAPACITY: usize = 1;

/// The proxy mode a configuration string selects: `forward` selects
/// `Forward`, anything else `Static`.
pub open spec fn parse_proxy_type(s: Seq<char>) -> Proxy {
    if s == "forward"@ {
        Proxy::Forward
    } else {
        Proxy::Static
    }
}

/// The rewrite method a configuration string selects.
pub open spec fn parse_mangling(s: Seq<char>) -> AddressMangling {
    if s == "netmap"@ {
        AddressMangling::Netmap
    } else if s == "npt"@ {
        AddressMangling::Npt
    } else {
        AddressMangling::Nochange
    }
}

/// The configuration of one proxied prefix.
#[derive(Debug, PartialEq, Clone)]
pub struct NDConfig {
    /// Label for logs.
    pub name: String,
    /// Whether solicitations are answered at once or only after the
    /// target was confirmed downstream.
    pub proxy_type: Proxy,
    /// The upstream prefix being proxied.
    pub proxied_pfx: V6Prefix,
    /// Names of the interfaces whose solicitations are answered; `*`
    /// stands for all.
    pub proxied_ifaces: Vec<String>,
    /// Names of the interfaces probed in `Forward` mode; `*` stands for
    /// all.
    pub forwarded_ifaces: Vec<String>,
    /// How the solicited address is rewritten before probing.
    pub address_mangling: AddressMangling,
    /// The rewrite destination prefix; equals `proxied_pfx` when no
    /// rewrite takes place.
    pub dst_pfx: V6Prefix,
}

impl NDConfig {
    /// The well-formedness every constructed configuration has: sound
    /// prefixes, and for a rewriting proxy a destination prefix of the
    /// same length, at least one whole segment long (RFC 6296 assumes
    /// equal-length prefixes).
    pub open spec fn wf(&self) -> bool {
        &&& self.proxied_pfx.wf()
        &&& self.dst_pfx.wf()
        &&& !(self.address_mangling is Nochange) ==> {
            &&& 16 <= self.dst_pfx.len
            &&& self.dst_pfx.len == self.proxied_pfx.len
        }
        &&& self.address_mangling is Npt ==> self.dst_pfx.len < 128
        &&& self.proxy_type is Static ==> self.forwarded_ifaces@.len() == 0
    }

    /// Assemble the configuration of one proxy from the fields of its
    /// configuration table entry. Absent interface lists default to the
    /// wildcard; a static proxy forwards to no interface; absent rewrite
    /// method means no rewrite, towards the proxied prefix itself.
    pub fn new(
        name: String,
        proxy_type_str: String,
        proxied_pfx: V6Prefix,
        proxied_ifaces: Option<Vec<String>>,
        forwarded_ifaces: Option<Vec<String>>,
        rewrite_method: Option<String>,
        local_prefix: Option<V6Prefix>,
    ) -> (r: Result<NDConfig, crate::types::Error>)
        requires
            proxied_pfx.wf(),
            rewrite_method is Some ==> local_prefix is Some,
            local_prefix is Some ==> local_prefix->0.wf(),
            (rewrite_method matches Some(s) && !(parse_mangling(s@) is Nochange))
                ==> (local_prefix matches Some(p) && 16 <= p.len && p.len == proxied_pfx.len),
            (rewrite_method matches Some(s) && parse_mangling(s@) is Npt)
                ==> (local_prefix matches Some(p) && p.len < 128),
        ensures
            r is Ok,
            r->Ok_0.wf(),
            r->Ok_0.name == name,
            r->Ok_0.proxy_type == parse_proxy_type(proxy_type_str@),
            r->Ok_0.proxied_pfx == proxied_pfx,
            match proxied_ifaces {
                Some(v) => r->Ok_0.proxied_ifaces == v,
                None => r->Ok_0.proxied_ifaces@.len() == 1 && r->Ok_0.proxied_ifaces@[0]@
                    == "*"@,
            },
            match forwarded_ifaces {
                Some(v) => r->Ok_0.forwarded_ifaces@ == (
                if parse_proxy_type(proxy_type_str@) is Static {
                    Seq::<String>::empty()
                } else {
                    v@
                }),
                None => {
                    if parse_proxy_type(proxy_type_str@) is Static {
                        r->Ok_0.forwarded_ifaces@ == Seq::<String>::empty()
                    } else {
                        r->Ok_0.forwarded_ifaces@.len() == 1 && r->Ok_0.forwarded_ifaces@[0]@
                            == "*"@
                    }
                },
            },
            match rewrite_method {
                Some(s) => r->Ok_0.address_mangling == parse_mangling(s@) && r->Ok_0.dst_pfx
                    == local_prefix->0,
                None => r->Ok_0.address_mangling is Nochange && r->Ok_0.dst_pfx == proxied_pfx,
            },
    {
        let forward_string: String = "forward".to_owned();
        let proxy_type = if proxy_type_str.eq(&forward_string) {
            Proxy::Forward
        } else {
            Proxy::Static
        };

        let proxied_ifaces = match proxied_ifaces {
            Some(v) => v,
            None => {
                let mut v: Vec<String> = Vec::new();
                v.push("*".to_owned());
                v
            },
        };

        let forwarded_ifaces = match proxy_type {
            Proxy::Static => Vec::new(),
            Proxy::Forward => match forwarded_ifaces {
                Some(v) => v,
                None => {
                    let mut v: Vec<String> = Vec::new();
                    v.push("*".to_owned());
                    v
                },
            },
        };

        let (address_mangling, dst_pfx) = match rewrite_method {
            Some(how_to_mangle) => {
                let netmap_string: String = "netmap".to_owned();
                let npt_string: String = "npt".to_owned();
                let mangling = if how_to_mangle.eq(&netmap_string) {
                    AddressMangling::Netmap
                } else if how_to_mangle.eq(&npt_string) {
                    AddressMangling::Npt
                } else {
                    AddressMangling::Nochange
                };
                let dst = match local_prefix {
                    Some(p) => p,
                    None => proxied_pfx,
                };
                (mangling, dst)
            },
            None => (AddressMangling::Nochange, proxied_pfx),
        };

        Ok(
            NDConfig {
                name,
                proxy_type,
                proxied_pfx,
                proxied_ifaces,
                forwarded_ifaces,
                address_mangling,
                dst_pfx,
            },
        )
    }
}

} // verus!
