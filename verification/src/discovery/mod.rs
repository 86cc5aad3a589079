//! Service discovery types: services, workloads, their identities and their addresses.
use vstd::prelude::*;

use std::collections::HashMap;
use std::sync::Arc;

use crate::ext::push_char;
use crate::text::{find_char, find_char_exec, split_all, split_once, split_once_spec, starts_with, str_eq};

pub mod gatewayaddress;

verus! {

broadcast use vstd::std_specs::hash::group_hash_axioms;

/// A hostname within a namespace, written `namespace/hostname`.
#[derive(Debug, Eq, PartialEq, Hash, Clone)]
pub struct NamespacedHostname {
    pub namespace: String,
    pub hostname: String,
}

/// Why a discovery value could not be read from its text.
#[derive(Debug, PartialEq, Eq)]
pub enum ProtoError {
    /// The text is not of the form `namespace/hostname`.
    NamespacedHostnameParse(String),
}

/// A reference to a backend that policies can target.
#[derive(Debug, PartialEq, Eq)]
pub enum BackendTargetRef<'a> {
    Service { hostname: &'a str, namespace: &'a str, port: Option<u16> },
}

/// What a policy is attached to.
#[derive(Debug, PartialEq, Eq)]
pub enum PolicyTargetRef<'a> {
    Backend(BackendTargetRef<'a>),
}

/// The text `namespace/hostname`.
pub open spec fn namespaced_text(namespace: Seq<char>, hostname: Seq<char>) -> Seq<char> {
    namespace + seq!['/'] + hostname
}

impl NamespacedHostname {
    /// The policy target for every port of this service.
    pub fn as_policy_target_ref(&self) -> (r: PolicyTargetRef<'_>)
        ensures
            r matches PolicyTargetRef::Backend(BackendTargetRef::Service { hostname, namespace, port })
                && hostname@ == self.hostname@ && namespace@ == self.namespace@ && port is None,
    {
        PolicyTargetRef::Backend(
            BackendTargetRef::Service {
                hostname: self.hostname.as_str(),
                namespace: self.namespace.as_str(),
                port: None,
            },
        )
    }

    /// Reads `namespace/hostname`: the namespace is the text before the first `/`, the
    /// hostname all that follows it.
    pub fn parse(value: &str) -> (r: Result<Self, ProtoError>)
        ensures
            match split_once_spec(value@, '/') {
                Some((namespace, hostname)) => r matches Ok(n) && n.namespace@ == namespace
                    && n.hostname@ == hostname,
                None => r matches Err(ProtoError::NamespacedHostnameParse(v)) && v@ == value@,
            },
    {
        match split_once(value, '/') {
            Some((namespace, hostname)) => Ok(NamespacedHostname { namespace, hostname }),
            None => Err(ProtoError::NamespacedHostnameParse(value.to_owned())),
        }
    }

    /// The text `namespace/hostname`.
    pub fn display(&self) -> (s: String)
        ensures
            s@ == namespaced_text(self.namespace@, self.hostname@),
    {
        let mut s = self.namespace.clone();
        push_char(&mut s, '/');
        s.append(self.hostname.as_str());
        assert(s@ =~= namespaced_text(self.namespace@, self.hostname@));
        s
    }
}

/// `x` splits at its first `/` into `a` and `b` when `a` has no `/`.
proof fn lemma_split_at_first_slash(a: Seq<char>, b: Seq<char>)
    requires
        forall|j: int| 0 <= j < a.len() ==> a[j] != '/',
    ensures
        split_once_spec(a + seq!['/'] + b, '/') == Some((a, b)),
{
    let x = a + seq!['/'] + b;
    crate::text::lemma_find_char_at(x, '/', a.len() as int);
    assert(x.take(a.len() as int) =~= a);
    assert(x.skip(a.len() as int + 1) =~= b);
}

/// What `split_once_spec` splits off is around a `/`, and the part before it has none.
proof fn lemma_split_once_parts(x: Seq<char>)
    ensures
        split_once_spec(x, '/') matches Some((a, b)) ==> x == a + seq!['/'] + b && forall|j: int|
            0 <= j < a.len() ==> a[j] != '/',
{
    crate::text::lemma_find_char(x, '/');
    if let Some((a, b)) = split_once_spec(x, '/') {
        assert(x =~= a + seq!['/'] + b);
    }
}

/// Writing a namespaced hostname and reading it back gives the same namespace and hostname,
/// when the namespace has no `/`.
pub proof fn lemma_namespaced_hostname_round_trip(namespace: Seq<char>, hostname: Seq<char>)
    requires
        forall|j: int| 0 <= j < namespace.len() ==> namespace[j] != '/',
    ensures
        split_once_spec(namespaced_text(namespace, hostname), '/') == Some((namespace, hostname)),
{
    lemma_split_at_first_slash(namespace, hostname);
}

/// Reading a namespaced hostname and writing it back gives the text read.
pub proof fn lemma_namespaced_hostname_print_after_parse(value: Seq<char>)
    requires
        split_once_spec(value, '/') is Some,
    ensures
        ({
            let (namespace, hostname) = split_once_spec(value, '/')->0;
            namespaced_text(namespace, hostname) == value
        }),
{
    lemma_split_once_parts(value);
}

/// Structured identity for a waypoint proxy, used for self-verification when routing
/// HBONE waypoint traffic.
#[derive(Debug, Clone)]
pub struct WaypointIdentity {
    pub gateway: String,
    pub namespace: String,
}

/// `host` is a hostname of the waypoint `gateway` in `namespace`: it starts with
/// `{gateway}.{namespace}.` and has more after that.
pub open spec fn waypoint_host(gateway: Seq<char>, namespace: Seq<char>, host: Seq<char>) -> bool {
    let p = gateway + seq!['.'] + namespace;
    p.len() + 1 < host.len() && host.take(p.len() as int) == p && host[p.len() as int] == '.'
}

impl WaypointIdentity {
    /// The default full Kubernetes FQDN of this waypoint, under the default cluster domain.
    pub fn hostname(&self) -> (s: String)
        ensures
            s@ == self.gateway@ + seq!['.'] + self.namespace@ + ".svc.cluster.local"@,
    {
        let mut s = self.gateway.clone();
        push_char(&mut s, '.');
        s.append(self.namespace.as_str());
        s.append(".svc.cluster.local");
        assert(s@ =~= self.gateway@ + seq!['.'] + self.namespace@ + ".svc.cluster.local"@);
        s
    }

    /// Whether this waypoint identity matches a hostname waypoint destination: same
    /// namespace, and a hostname that starts with `{gateway}.{namespace}.` followed by a
    /// suffix of any cluster domain.
    pub fn matches_hostname(&self, nh: &NamespacedHostname) -> (r: bool)
        ensures
            r == (nh.namespace@ == self.namespace@ && waypoint_host(
                self.gateway@,
                self.namespace@,
                nh.hostname@,
            )),
    {
        if !str_eq(nh.namespace.as_str(), self.namespace.as_str()) {
            return false;
        }
        let mut p = self.gateway.clone();
        push_char(&mut p, '.');
        p.append(self.namespace.as_str());
        assert(p@ =~= self.gateway@ + seq!['.'] + self.namespace@);
        let host = nh.hostname.as_str();
        if !starts_with(host, p.as_str()) {
            return false;
        }
        let plen = p.as_str().unicode_len();
        let hlen = host.unicode_len();
        if plen >= hlen || hlen - plen <= 1 {
            return false;
        }
        host.get_char(plen) == '.'
    }

    /// Whether this waypoint identity matches an address waypoint destination: the service
    /// that `get_service_at` resolves at `addr` has this waypoint's name and namespace.
    pub fn matches_address<F: FnOnce(&NetworkAddress) -> Option<(String, String)>>(
        &self,
        addr: &NetworkAddress,
        get_service_at: F,
    ) -> (r: bool)
        requires
            call_requires(get_service_at, (addr,)),
        ensures
            exists|service: Option<(String, String)>|
                #[trigger] call_ensures(get_service_at, (addr,), service) && r == match service {
                    Some((name, ns)) => name@ == self.gateway@ && ns@ == self.namespace@,
                    None => false,
                },
    {
        let service = get_service_at(addr);
        let ghost resolved = service;
        let r = match &service {
            Some((name, ns)) => str_eq(name.as_str(), self.gateway.as_str()) && str_eq(
                ns.as_str(),
                self.namespace.as_str(),
            ),
            None => false,
        };
        assert(call_ensures(get_service_at, (addr,), resolved));
        r
    }
}

/// An IP address, by its octets.
#[derive(Debug, Clone, Copy, PartialEq, Eq, Hash)]
pub enum IpAddress {
    V4([u8; 4]),
    V6([u8; 16]),
}

/// An IP address within a network.
#[derive(Debug, Eq, PartialEq, Hash, Clone)]
pub struct NetworkAddress {
    pub network: String,
    pub address: IpAddress,
}

/// Identifies the gateway's own workload for locality-aware load balancing.
#[derive(Debug, Clone)]
pub enum SelfIdentitySource {
    Static(Arc<Workload>),
}

/// A workload: the addresses it serves on, where it runs and the services it backs.
#[derive(Debug, Eq, PartialEq, Clone)]
pub struct Workload {
    pub workload_ips: Vec<IpAddress>,
    pub waypoint: Option<GatewayAddress>,
    pub network_gateway: Option<GatewayAddress>,
    pub protocol: InboundProtocol,
    pub network_mode: NetworkMode,
    pub uid: String,
    pub name: String,
    pub namespace: String,
    pub trust_domain: String,
    pub service_account: String,
    pub network: String,
    pub workload_name: String,
    pub workload_type: String,
    pub canonical_name: String,
    pub canonical_revision: String,
    pub hostname: String,
    pub node: String,
    pub authorization_policies: Vec<String>,
    pub status: HealthStatus,
    pub cluster_id: String,
    pub locality: Locality,
    /// For each service, its port mapping (service port to target port).
    pub services: HashMap<NamespacedHostname, HashMap<u16, u16>>,
    pub hbone_mtls_port: u16,
    pub capacity: u32,
}

/// The capacity of a workload that does not set one; 0 would mean it takes no traffic.
pub fn default_capacity() -> (c: u32)
    ensures
        c == 1,
{
    1
}

impl Default for Workload {
    fn default() -> (w: Self)
        ensures
            w.workload_ips@.len() == 0,
            w.waypoint is None,
            w.network_gateway is None,
            w.protocol == InboundProtocol::TCP,
            w.network_mode == NetworkMode::Standard,
            w.uid@.len() == 0,
            w.name@.len() == 0,
            w.namespace@.len() == 0,
            w.trust_domain@.len() == 0,
            w.service_account@.len() == 0,
            w.network@.len() == 0,
            w.workload_name@.len() == 0,
            w.workload_type@.len() == 0,
            w.canonical_name@.len() == 0,
            w.canonical_revision@.len() == 0,
            w.hostname@.len() == 0,
            w.node@.len() == 0,
            w.authorization_policies@.len() == 0,
            w.status == HealthStatus::Healthy,
            w.cluster_id@.len() == 0,
            w.locality.region@.len() == 0,
            w.locality.zone@.len() == 0,
            w.locality.subzone@.len() == 0,
            w.services@ == Map::<NamespacedHostname, HashMap<u16, u16>>::empty(),
            w.hbone_mtls_port == 0,
            w.capacity == 1,
    {
        Workload {
            workload_ips: Vec::new(),
            waypoint: None,
            network_gateway: None,
            protocol: InboundProtocol::default(),
            network_mode: NetworkMode::default(),
            uid: String::new(),
            name: String::new(),
            namespace: String::new(),
            trust_domain: String::new(),
            service_account: String::new(),
            network: String::new(),
            workload_name: String::new(),
            workload_type: String::new(),
            canonical_name: String::new(),
            canonical_revision: String::new(),
            hostname: String::new(),
            node: String::new(),
            authorization_policies: Vec::new(),
            status: HealthStatus::default(),
            cluster_id: String::new(),
            locality: Locality::default(),
            services: HashMap::new(),
            hbone_mtls_port: 0,
            capacity: default_capacity(),
        }
    }
}

impl Workload {
    /// The SPIFFE identity the workload runs as.
    pub fn identity(&self) -> (r: Identity)
        ensures
            r matches Identity::Spiffe { trust_domain, namespace, service_account } && trust_domain@
                == self.trust_domain@ && namespace@ == self.namespace@ && service_account@
                == self.service_account@,
    {
        Identity::Spiffe {
            trust_domain: self.trust_domain.clone(),
            namespace: self.namespace.clone(),
            service_account: self.service_account.clone(),
        }
    }
}

/// A workload identity.
#[derive(Debug, PartialEq, Eq, PartialOrd, Ord, Clone, Hash)]
pub enum Identity {
    Spiffe { trust_domain: String, namespace: String, service_account: String },
}

/// Why text is not a SPIFFE identity.
#[derive(Debug, PartialEq, Eq)]
pub struct IdentityError {
    pub message: String,
}

/// The SPIFFE URI `spiffe://{trust_domain}/ns/{namespace}/sa/{service_account}`.
pub open spec fn spiffe_uri(trust_domain: Seq<char>, namespace: Seq<char>, service_account: Seq<char>) -> Seq<
    char,
> {
    "spiffe://"@ + trust_domain + "/ns/"@ + namespace + "/sa/"@ + service_account
}

/// The trust domain, namespace and service account of a SPIFFE URI: after `spiffe://`, the
/// text must split at `/` into exactly five parts, the second `ns` and the fourth `sa`.
pub open spec fn spiffe_parts(s: Seq<char>) -> Option<(Seq<char>, Seq<char>, Seq<char>)> {
    let prefix = "spiffe://"@;
    if prefix.len() <= s.len() && s.take(prefix.len() as int) == prefix {
        match split_once_spec(s.skip(prefix.len() as int), '/') {
            None => None,
            Some((trust_domain, r1)) => match split_once_spec(r1, '/') {
                None => None,
                Some((ns_tag, r2)) => match split_once_spec(r2, '/') {
                    None => None,
                    Some((namespace, r3)) => match split_once_spec(r3, '/') {
                        None => None,
                        Some((sa_tag, service_account)) => {
                            if find_char(service_account, '/') is None && ns_tag == "ns"@ && sa_tag
                                == "sa"@ {
                                Some((trust_domain, namespace, service_account))
                            } else {
                                None
                            }
                        },
                    },
                },
            },
        }
    } else {
        None
    }
}

impl Identity {
    pub fn from_parts(td: String, ns: String, sa: String) -> (r: Identity)
        ensures
            r == (Identity::Spiffe { trust_domain: td, namespace: ns, service_account: sa }),
    {
        Identity::Spiffe { trust_domain: td, namespace: ns, service_account: sa }
    }

    /// The SPIFFE URI of this identity.
    pub fn to_strng(&self) -> (s: String)
        ensures
            match self {
                Identity::Spiffe { trust_domain, namespace, service_account } => s@ == spiffe_uri(
                    trust_domain@,
                    namespace@,
                    service_account@,
                ),
            },
    {
        match self {
            Identity::Spiffe { trust_domain, namespace, service_account } => {
                let mut s = "spiffe://".to_owned();
                s.append(trust_domain.as_str());
                s.append("/ns/");
                s.append(namespace.as_str());
                s.append("/sa/");
                s.append(service_account.as_str());
                s
            },
        }
    }

    pub fn trust_domain(&self) -> (s: String)
        ensures
            match self {
                Identity::Spiffe { trust_domain, .. } => s@ == trust_domain@,
            },
    {
        match self {
            Identity::Spiffe { trust_domain, .. } => trust_domain.clone(),
        }
    }

    /// Reads a SPIFFE URI `spiffe://{trust_domain}/ns/{namespace}/sa/{service_account}`.
    pub fn parse(s: &str) -> (r: Result<Identity, IdentityError>)
        ensures
            match spiffe_parts(s@) {
                Some((td, ns, sa)) => r matches Ok(Identity::Spiffe { trust_domain, namespace, service_account })
                    && trust_domain@ == td && namespace@ == ns && service_account@ == sa,
                None => r matches Err(e) && e.message@ == "invalid spiffe: "@ + s@,
            },
    {
        let prefix = "spiffe://";
        if starts_with(s, prefix) {
            let rest = s.substring_char(prefix.unicode_len(), s.unicode_len());
            assert(rest@ == s@.skip(prefix@.len() as int));
            if let Some((td, r1)) = split_once(rest, '/') {
                if let Some((ns_tag, r2)) = split_once(r1.as_str(), '/') {
                    if let Some((ns, r3)) = split_once(r2.as_str(), '/') {
                        if let Some((sa_tag, sa)) = split_once(r3.as_str(), '/') {
                            if find_char_exec(sa.as_str(), '/').is_none() && str_eq(ns_tag.as_str(), "ns")
                                && str_eq(sa_tag.as_str(), "sa") {
                                return Ok(
                                    Identity::Spiffe { trust_domain: td, namespace: ns, service_account: sa },
                                );
                            }
                        }
                    }
                }
            }
        }
        let mut message = "invalid spiffe: ".to_owned();
        message.append(s);
        Err(IdentityError { message })
    }
}

impl std::str::FromStr for Identity {
    type Err = IdentityError;

    fn from_str(s: &str) -> (r: Result<Identity, IdentityError>)
        ensures
            match spiffe_parts(s@) {
                Some((td, ns, sa)) => r matches Ok(Identity::Spiffe { trust_domain, namespace, service_account })
                    && trust_domain@ == td && namespace@ == ns && service_account@ == sa,
                None => r is Err,
            },
    {
        Identity::parse(s)
    }
}

impl std::str::FromStr for NamespacedHostname {
    type Err = ProtoError;

    fn from_str(s: &str) -> (r: Result<NamespacedHostname, ProtoError>)
        ensures
            match split_once_spec(s@, '/') {
                Some((namespace, hostname)) => r matches Ok(n) && n.namespace@ == namespace
                    && n.hostname@ == hostname,
                None => r matches Err(ProtoError::NamespacedHostnameParse(v)) && v@ == s@,
            },
    {
        NamespacedHostname::parse(s)
    }
}

/// The literal parts of a SPIFFE URI, character by character.
proof fn lemma_spiffe_literals()
    ensures
        "spiffe://"@ == seq!['s', 'p', 'i', 'f', 'f', 'e', ':', '/', '/'],
        "/ns/"@ == seq!['/', 'n', 's', '/'],
        "/sa/"@ == seq!['/', 's', 'a', '/'],
        "ns"@ == seq!['n', 's'],
        "sa"@ == seq!['s', 'a'],
{
    reveal_strlit("spiffe://");
    reveal_strlit("/ns/");
    reveal_strlit("/sa/");
    reveal_strlit("ns");
    reveal_strlit("sa");
}

/// Writing an identity's SPIFFE URI and reading it back gives the same identity, when none
/// of its three parts contains a `/`.
pub proof fn lemma_spiffe_round_trip(td: Seq<char>, ns: Seq<char>, sa: Seq<char>)
    requires
        forall|j: int| 0 <= j < td.len() ==> td[j] != '/',
        forall|j: int| 0 <= j < ns.len() ==> ns[j] != '/',
        forall|j: int| 0 <= j < sa.len() ==> sa[j] != '/',
    ensures
        spiffe_parts(spiffe_uri(td, ns, sa)) == Some((td, ns, sa)),
{
    lemma_spiffe_literals();
    let prefix = "spiffe://"@;
    let uri = spiffe_uri(td, ns, sa);
    let nstag = seq!['n', 's'];
    let satag = seq!['s', 'a'];
    let r3 = satag + seq!['/'] + sa;
    let r2 = ns + seq!['/'] + r3;
    let r1 = nstag + seq!['/'] + r2;
    let rest = td + seq!['/'] + r1;
    assert(uri =~= prefix + rest);
    assert(uri.take(prefix.len() as int) =~= prefix);
    assert(uri.skip(prefix.len() as int) =~= rest);
    lemma_split_at_first_slash(td, r1);
    lemma_split_at_first_slash(nstag, r2);
    lemma_split_at_first_slash(ns, r3);
    lemma_split_at_first_slash(satag, sa);
    crate::text::lemma_find_char_none(sa, '/');
}

/// A text is a SPIFFE URI exactly when it starts with `spiffe://` and the rest splits on `/`
/// into five parts whose second is `ns` and whose fourth is `sa`; the first, third and fifth
/// parts are then the trust domain, the namespace and the service account.
pub proof fn lemma_spiffe_parts_iff_five_parts(s: Seq<char>)
    ensures
        ({
            let prefix = "spiffe://"@;
            let parts = split_all(s.skip(prefix.len() as int), '/');
            let shaped = prefix.len() <= s.len() && s.take(prefix.len() as int) == prefix && parts.len()
                == 5 && parts[1] == "ns"@ && parts[3] == "sa"@;
            &&& spiffe_parts(s) is Some <==> shaped
            &&& shaped ==> spiffe_parts(s) == Some((parts[0], parts[2], parts[4]))
        }),
{
    let prefix = "spiffe://"@;
    let rest = s.skip(prefix.len() as int);
    crate::text::lemma_split_all_step(rest, '/');
    if let Some((td, r1)) = split_once_spec(rest, '/') {
        crate::text::lemma_split_all_step(r1, '/');
        if let Some((nst, r2)) = split_once_spec(r1, '/') {
            crate::text::lemma_split_all_step(r2, '/');
            if let Some((ns, r3)) = split_once_spec(r2, '/') {
                crate::text::lemma_split_all_step(r3, '/');
                if let Some((sat, sa)) = split_once_spec(r3, '/') {
                    crate::text::lemma_split_all_step(sa, '/');
                    let p = split_all(rest, '/');
                    assert(p == seq![td] + (seq![nst] + (seq![ns] + (seq![sat] + split_all(sa, '/')))));
                    assert(p[0] == td && p[1] == nst && p[2] == ns && p[3] == sat);
                    assert(p.len() == 4 + split_all(sa, '/').len());
                    if find_char(sa, '/') is None {
                        assert(split_all(sa, '/') == seq![sa]);
                        assert(p[4] == sa);
                    }
                }
            }
        }
    }
}

/// Reading a SPIFFE URI and writing it back gives the text read.
pub proof fn lemma_spiffe_print_after_parse(s: Seq<char>)
    requires
        spiffe_parts(s) is Some,
    ensures
        ({
            let (td, ns, sa) = spiffe_parts(s)->0;
            spiffe_uri(td, ns, sa) == s
        }),
{
    lemma_spiffe_literals();
    let prefix = "spiffe://"@;
    let rest = s.skip(prefix.len() as int);
    lemma_split_once_parts(rest);
    let (td, r1) = split_once_spec(rest, '/')->0;
    lemma_split_once_parts(r1);
    let (ns_tag, r2) = split_once_spec(r1, '/')->0;
    lemma_split_once_parts(r2);
    let (ns, r3) = split_once_spec(r2, '/')->0;
    lemma_split_once_parts(r3);
    let (sa_tag, sa) = split_once_spec(r3, '/')->0;
    assert(s =~= prefix + rest);
    assert(spiffe_uri(td, ns, sa) =~= s);
}

/// The protocol a sender should use.
#[derive(Debug, Hash, Eq, PartialEq, Ord, PartialOrd, Clone, Copy, Structural)]
pub enum OutboundProtocol {
    TCP,
    HBONE,
    DOUBLEHBONE,
}

impl Default for OutboundProtocol {
    fn default() -> (p: Self)
        ensures
            p == OutboundProtocol::TCP,
    {
        OutboundProtocol::TCP
    }
}

#[derive(Debug, Hash, Eq, PartialEq, Clone, Copy, Structural)]
pub enum NetworkMode {
    Standard,
    HostNetwork,
}

impl Default for NetworkMode {
    fn default() -> (m: Self)
        ensures
            m == NetworkMode::Standard,
    {
        NetworkMode::Standard
    }
}

#[derive(Debug, Hash, Eq, PartialEq, Clone, Copy, Structural)]
pub enum HealthStatus {
    Healthy,
    Unhealthy,
}

impl Default for HealthStatus {
    fn default() -> (s: Self)
        ensures
            s == HealthStatus::Healthy,
    {
        HealthStatus::Healthy
    }
}

/// Where a workload runs: region, zone and subzone, each possibly empty.
#[derive(Debug, Hash, Eq, PartialEq, Clone)]
pub struct Locality {
    pub region: String,
    pub zone: String,
    pub subzone: String,
}

impl Default for Locality {
    fn default() -> (l: Self)
        ensures
            l.region@.len() == 0,
            l.zone@.len() == 0,
            l.subzone@.len() == 0,
    {
        Locality { region: String::new(), zone: String::new(), subzone: String::new() }
    }
}

/// The region, zone and subzone of `region/zone/subzone`: the text splits at its first two
/// `/`; missing parts are empty and the subzone keeps any further `/`.
pub open spec fn locality_parts(s: Seq<char>) -> (Seq<char>, Seq<char>, Seq<char>) {
    match split_once_spec(s, '/') {
        None => (s, Seq::empty(), Seq::empty()),
        Some((region, rest)) => match split_once_spec(rest, '/') {
            None => (region, rest, Seq::empty()),
            Some((zone, subzone)) => (region, zone, subzone),
        },
    }
}

impl Locality {
    /// Parses a locality `region/zone/subzone`; trailing parts are optional.
    pub fn parse(s: &str) -> (l: Self)
        ensures
            (l.region@, l.zone@, l.subzone@) == locality_parts(s@),
    {
        match split_once(s, '/') {
            None => Locality { region: s.to_owned(), zone: String::new(), subzone: String::new() },
            Some((region, rest)) => match split_once(rest.as_str(), '/') {
                None => Locality { region, zone: rest, subzone: String::new() },
                Some((zone, subzone)) => Locality { region, zone, subzone },
            },
        }
    }
}

/// Where a gateway is reached, and its HBONE mTLS port.
#[derive(Debug, Hash, Eq, PartialEq, Clone)]
pub struct GatewayAddress {
    pub destination: gatewayaddress::Destination,
    pub hbone_mtls_port: u16,
}

/// The protocol the final workload expects.
#[derive(Debug, Hash, Eq, PartialEq, Ord, PartialOrd, Clone, Copy, Structural)]
pub enum InboundProtocol {
    TCP,
    HBONE,
    LegacyIstioMtls,
}

impl Default for InboundProtocol {
    fn default() -> (p: Self)
        ensures
            p == InboundProtocol::TCP,
    {
        InboundProtocol::TCP
    }
}

/// A service: its name, addresses, ports and the endpoints that back it.
#[derive(Debug, Clone)]
pub struct Service {
    pub name: String,
    pub namespace: String,
    pub hostname: String,
    pub vips: Vec<NetworkAddress>,
    /// Service port to target port.
    pub ports: HashMap<u16, u16>,
    /// The application protocol of each port that declares one.
    pub app_protocols: HashMap<u16, AppProtocol>,
    /// The endpoints backing the service, each naming its workload.
    pub endpoints: Vec<Endpoint>,
    pub subject_alt_names: Vec<Identity>,
    pub waypoint: Option<GatewayAddress>,
    pub load_balancer: Option<LoadBalancer>,
    pub ip_families: Option<IpFamily>,
    /// When true, ingress gateways send traffic destined for this service through the
    /// service's waypoint proxy.
    pub ingress_use_waypoint: bool,
}

/// The declared application protocol of `port` is one of `protocols`.
pub open spec fn port_protocol_in(m: Map<u16, AppProtocol>, port: u16, protocols: Set<AppProtocol>) -> bool {
    m.contains_key(port) && protocols.contains(m[port])
}

impl Service {
    pub fn port_is_http2(&self, port: u16) -> (r: bool)
        ensures
            r == port_protocol_in(self.app_protocols@, port, set![AppProtocol::Http2, AppProtocol::Grpc]),
    {
        match self.app_protocols.get(&port) {
            Some(AppProtocol::Http2) => true,
            Some(AppProtocol::Grpc) => true,
            _ => false,
        }
    }

    pub fn port_is_http1(&self, port: u16) -> (r: bool)
        ensures
            r == port_protocol_in(self.app_protocols@, port, set![AppProtocol::Http11]),
    {
        match self.app_protocols.get(&port) {
            Some(AppProtocol::Http11) => true,
            _ => false,
        }
    }

    pub fn port_is_tcp(&self, port: u16) -> (r: bool)
        ensures
            r == port_protocol_in(self.app_protocols@, port, set![AppProtocol::Tcp, AppProtocol::Tls]),
    {
        match self.app_protocols.get(&port) {
            Some(AppProtocol::Tcp) => true,
            Some(AppProtocol::Tls) => true,
            _ => false,
        }
    }

    pub fn port_is_tls(&self, port: u16) -> (r: bool)
        ensures
            r == port_protocol_in(self.app_protocols@, port, set![AppProtocol::Tls]),
    {
        match self.app_protocols.get(&port) {
            Some(AppProtocol::Tls) => true,
            _ => false,
        }
    }

    pub fn namespaced_hostname(&self) -> (n: NamespacedHostname)
        ensures
            n.namespace@ == self.namespace@,
            n.hostname@ == self.hostname@,
    {
        NamespacedHostname { namespace: self.namespace.clone(), hostname: self.hostname.clone() }
    }

    /// Whether an endpoint in health `ep_health` receives traffic: healthy ones always,
    /// others only under a load balancer that allows all.
    pub fn should_include_endpoint(&self, ep_health: HealthStatus) -> (r: bool)
        ensures
            r == (ep_health == HealthStatus::Healthy || (self.load_balancer matches Some(lb)
                && lb.health_policy == LoadBalancerHealthPolicy::AllowAll)),
    {
        ep_health == HealthStatus::Healthy || match &self.load_balancer {
            Some(lb) => lb.health_policy == LoadBalancerHealthPolicy::AllowAll,
            None => false,
        }
    }
}

#[derive(Debug, Eq, PartialEq, Clone, Copy, Structural)]
pub enum AppProtocol {
    Http11,
    Http2,
    Grpc,
    Tls,
    Tcp,
}

#[derive(Debug, Eq, PartialEq, Clone, Copy, Structural)]
pub enum IpFamily {
    Dual,
    IPv4,
    IPv6,
}

impl IpFamily {
    /// Whether an address of `ip`'s family is served.
    pub fn accepts_ip(&self, ip: IpAddress) -> (r: bool)
        ensures
            r == match self {
                IpFamily::Dual => true,
                IpFamily::IPv4 => ip is V4,
                IpFamily::IPv6 => ip is V6,
            },
    {
        match self {
            IpFamily::Dual => true,
            IpFamily::IPv4 => matches!(ip, IpAddress::V4(_)),
            IpFamily::IPv6 => matches!(ip, IpAddress::V6(_)),
        }
    }
}

#[derive(Debug, Eq, PartialEq, Clone)]
pub struct LoadBalancer {
    pub routing_preferences: Vec<LoadBalancerScopes>,
    pub mode: LoadBalancerMode,
    pub health_policy: LoadBalancerHealthPolicy,
}

#[derive(Debug, Eq, PartialEq, Clone, Copy, Structural)]
pub enum LoadBalancerScopes {
    Region,
    Zone,
    Subzone,
    Node,
    Cluster,
    Network,
}

#[derive(Debug, Eq, PartialEq, Clone, Copy, Structural)]
pub enum LoadBalancerHealthPolicy {
    OnlyHealthy,
    AllowAll,
}

impl Default for LoadBalancerHealthPolicy {
    fn default() -> (p: Self)
        ensures
            p == LoadBalancerHealthPolicy::OnlyHealthy,
    {
        LoadBalancerHealthPolicy::OnlyHealthy
    }
}

#[derive(Debug, Eq, PartialEq, Clone, Copy, Structural)]
pub enum LoadBalancerMode {
    /// Do not consider routing preferences when picking endpoints.
    Standard,
    /// Only select endpoints matching all routing preferences; otherwise, fail.
    Strict,
    /// Prefer endpoints matching all routing preferences, but allow mismatches.
    Failover,
    /// Do no endpoint selection: traffic passes directly to the original destination.
    Passthrough,
}

#[derive(Debug, Eq, PartialEq, Clone)]
pub struct Endpoint {
    /// The workload UID for this endpoint.
    pub workload_uid: String,
    /// The port mapping.
    pub port: HashMap<u16, u16>,
    /// Health status for the endpoint.
    pub status: HealthStatus,
}

} // verus!
