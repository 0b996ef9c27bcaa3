//! Base URLs: a fixed one, or one built from the instances that a service
//! registry reports.
use vstd::prelude::*;

use crate::error::Error;
use crate::text::{chars_of, extend_str, signed_decimal, signed_decimal_chars, extend_chars, string_from_chars};

verus! {

/// A fixed base URL, the same for every service name.
#[derive(Clone, Debug)]
pub struct StaticUrl(pub String);

impl StaticUrl {
    /// The base URL; the service name plays no part.
    pub fn resolve(&self, service_name: &str) -> (r: String)
        ensures
            r@ == self.0@,
    {
        self.0.clone()
    }
}

/// `scheme://host:port`.
pub open spec fn spec_instance_url(scheme: Seq<char>, host: Seq<char>, port: int) -> Seq<char> {
    scheme + "://"@ + host + ":"@ + signed_decimal(port)
}

/// The base URL of an instance: `scheme://host:port`.
pub fn instance_url(scheme: &str, host: &str, port: i64) -> (r: String)
    ensures
        r@ == spec_instance_url(scheme@, host@, port as int),
{
    let mut v = chars_of(scheme);
    extend_str(&mut v, "://");
    extend_str(&mut v, host);
    extend_str(&mut v, ":");
    let p = signed_decimal_chars(port);
    extend_chars(&mut v, &p);
    string_from_chars(&v)
}

/// An instance of a service as a registry reports it.
#[derive(Clone, Debug)]
pub struct ServiceInstance {
    pub ip: String,
    pub port: i64,
    pub healthy: bool,
    /// Whether its metadata marks it as served over TLS (the `secure` key).
    pub secure: bool,
}

/// The instance to call: the first healthy one, else the first one.
pub open spec fn spec_select_instance(instances: Seq<ServiceInstance>) -> Option<int> {
    if exists|i: int| 0 <= i < instances.len() && #[trigger] instances[i].healthy {
        Some(
            choose|i: int|
                0 <= i < instances.len() && instances[i].healthy && forall|j: int|
                    0 <= j < i ==> !#[trigger] instances[j].healthy,
        )
    } else if instances.len() > 0 {
        Some(0)
    } else {
        None
    }
}

/// The index of the instance to call: the first healthy one, else the first one.
pub fn select_instance(instances: &Vec<ServiceInstance>) -> (r: Option<usize>)
    ensures
        match r {
            Some(i) => i < instances@.len() && (instances@[i as int].healthy || forall|j: int|
                0 <= j < instances@.len() ==> !#[trigger] instances@[j].healthy) && forall|j: int|
                0 <= j < i ==> !#[trigger] instances@[j].healthy,
            None => instances@.len() == 0,
        },
        r matches Some(i) ==> spec_select_instance(instances@) == Some(i as int),
        r is None ==> spec_select_instance(instances@) is None,
{
    let mut i: usize = 0;
    while i < instances.len()
        invariant
            i <= instances@.len(),
            forall|j: int| 0 <= j < i ==> !#[trigger] instances@[j].healthy,
        decreases instances.len() - i,
    {
        if instances[i].healthy {
            proof {
                let k = choose|k: int|
                    0 <= k < instances@.len() && instances@[k].healthy && forall|j: int|
                        0 <= j < k ==> !#[trigger] instances@[j].healthy;
                assert(instances@[i as int].healthy);
                if k < i {
                } else if k > i {
                    assert(!instances@[i as int].healthy);
                }
            }
            return Some(i);
        }
        i += 1;
    }
    if instances.len() > 0 {
        Some(0)
    } else {
        None
    }
}

/// The message when a service has no instance at all.
pub open spec fn no_instance_message(service: Seq<char>) -> Seq<char> {
    "no instance for "@ + service
}

/// The base URL of a service from all of its instances: the selected instance,
/// over `https` when it is marked secure, else `http`.
pub fn url_from_instances(service: &str, instances: &Vec<ServiceInstance>) -> (r: Result<String, Error>)
    ensures
        match spec_select_instance(instances@) {
            Some(i) => r matches Ok(u) && u@ == spec_instance_url(
                if instances@[i].secure {
                    "https"@
                } else {
                    "http"@
                },
                instances@[i].ip@,
                instances@[i].port as int,
            ),
            None => r matches Err(Error::Resolve(m)) && m@ == no_instance_message(service@),
        },
{
    match select_instance(instances) {
        Some(i) => {
            let inst = &instances[i];
            let scheme = if inst.secure {
                "https"
            } else {
                "http"
            };
            Ok(instance_url(scheme, inst.ip.as_str(), inst.port))
        },
        None => {
            let mut v = chars_of("no instance for ");
            extend_str(&mut v, service);
            Err(Error::Resolve(string_from_chars(&v)))
        },
    }
}

/// The message when a registry reports no healthy node for a service.
pub open spec fn no_healthy_message(service: Seq<char>) -> Seq<char> {
    "no healthy instance for "@ + service
}

/// The base URL of a service from its healthy nodes (address and port): the
/// first node, under the given scheme.
pub fn url_from_first_node(scheme: &str, service: &str, nodes: &Vec<(String, u16)>) -> (r: Result<String, Error>)
    ensures
        nodes@.len() > 0 ==> (r matches Ok(u) && u@ == spec_instance_url(
            scheme@,
            nodes@[0].0@,
            nodes@[0].1 as int,
        )),
        nodes@.len() == 0 ==> (r matches Err(Error::Resolve(m)) && m@ == no_healthy_message(
            service@,
        )),
{
    if nodes.len() > 0 {
        Ok(instance_url(scheme, nodes[0].0.as_str(), nodes[0].1 as i64))
    } else {
        let mut v = chars_of("no healthy instance for ");
        extend_str(&mut v, service);
        Err(Error::Resolve(string_from_chars(&v)))
    }
}

/// The URL of a request path against a base URL: the two joined.
pub fn join_url(base: &str, path: &str) -> (r: String)
    ensures
        r@ == base@ + path@,
{
    let mut v = chars_of(base);
    extend_str(&mut v, path);
    string_from_chars(&v)
}

} // verus!
