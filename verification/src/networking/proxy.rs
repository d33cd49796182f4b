//! The pipeline of one proxied connection: whether it is taken and where it
//! goes, what is to be done between the dial of the backend and the relay, and
//! what a finished relay adds to the traffic counters.

use crate::balancer::ConnectionGuard;
use crate::balancer::LoadBalancer;
use crate::config::BackendTlsConfig;
use crate::networking::acl::allowed;
use crate::networking::acl::AccessControl;
use crate::networking::addr::IpAddr;
use crate::networking::proxy_protocol::create_v2_header;
use crate::networking::proxy_protocol::v2_header;
use crate::networking::proxy_protocol::SocketAddr;
use crate::traffic::bandwidth::earns;
use crate::traffic::bandwidth::RateLimitedStream;
use crate::traffic::bandwidth::Throttle;
use crate::traffic::limiter::bucket_of;
use crate::traffic::limiter::RateLimiter;
use crate::traffic::limiter::SimpleLimiter;
use vstd::prelude::*;
use vstd::string::StrSliceExecFns;
use vstd::string::StringExecFns;

verus! {

/// What becomes of a connection that was accepted on a listener.
pub enum Verdict {
    /// The access rules keep the client out.
    Denied,
    /// The client has used up its requests.
    Limited,
    /// No backend can take the connection.
    Unavailable,
    /// The connection goes to the backend at `backend_addr`, on which it holds
    /// `guard` until it ends.
    Proxied { backend_addr: String, guard: ConnectionGuard },
}

/// Decides on a connection of the client at `client`, accepted at time `now`:
/// the access rules come first, then the request limiter, then the selection
/// of a backend. A client that the rules keep out costs no token, and a
/// connection that is refused moves no cursor and takes no guard.
pub fn accept_connection(
    acl: &AccessControl,
    limiter: &mut RateLimiter,
    lb: &mut LoadBalancer,
    client: IpAddr,
    now: u64,
) -> (verdict: Verdict)
    requires
        old(lb)@.wf(),
    ensures
        final(lb)@.wf(),
        match verdict {
            Verdict::Denied => {
                &&& !allowed(acl.allow(), acl.deny(), client)
                &&& final(limiter)@ == old(limiter)@
                &&& final(lb)@ == old(lb)@
            },
            Verdict::Limited => {
                &&& allowed(acl.allow(), acl.deny(), client)
                &&& !old(limiter)@.allows(client.spec_key(), now as nat)
                &&& final(limiter)@ == old(limiter)@.after_check(client.spec_key(), now as nat)
                &&& final(lb)@ == old(lb)@
            },
            Verdict::Unavailable => {
                &&& allowed(acl.allow(), acl.deny(), client)
                &&& old(limiter)@.allows(client.spec_key(), now as nat)
                &&& final(limiter)@ == old(limiter)@.after_check(client.spec_key(), now as nat)
                &&& old(lb)@.selected() is None
                &&& final(lb)@ == old(lb)@.after_select()
            },
            Verdict::Proxied { backend_addr, guard } => {
                &&& allowed(acl.allow(), acl.deny(), client)
                &&& old(limiter)@.allows(client.spec_key(), now as nat)
                &&& final(limiter)@ == old(limiter)@.after_check(client.spec_key(), now as nat)
                &&& old(lb)@.selected() matches Some(i)
                &&& backend_addr@ == old(lb)@.backend(i).addr
                &&& guard.addr() == backend_addr@
                &&& guard.rule() == old(lb)@.backend(i).rule_name
                &&& guard.handle() == old(lb)@.snapshot[i]
                &&& final(lb)@ == old(lb)@.after_select()
            },
        },
{
    if !acl.is_allowed(client) {
        return Verdict::Denied;
    }
    if !limiter.check(client, now) {
        return Verdict::Limited;
    }
    match lb.next_backend() {
        Some((backend_addr, guard)) => Verdict::Proxied { backend_addr, guard },
        None => Verdict::Unavailable,
    }
}

/// What the pipeline of a connection is set up with.
pub struct ProxyConfig {
    /// The bucket that reads from the client pay into: the client's upload.
    pub client_read_limiter: Option<SimpleLimiter>,
    /// The bucket that writes to the client pay into: the client's download.
    pub client_write_limiter: Option<SimpleLimiter>,
    pub backend_read_limiter: Option<SimpleLimiter>,
    pub backend_write_limiter: Option<SimpleLimiter>,
    pub backend_tls: Option<BackendTlsConfig>,
    /// Whether the backend is told the client's address by a PROXY header.
    pub proxy_protocol: bool,
    pub client_addr: SocketAddr,
    pub local_addr: SocketAddr,
}

/// The place of the last colon among the first `n` characters of `addr`.
pub open spec fn last_colon(addr: Seq<char>, n: int) -> Option<int>
    decreases n,
{
    if n <= 0 {
        None
    } else if addr[n - 1] == ':' {
        Some(n - 1)
    } else {
        last_colon(addr, n - 1)
    }
}

/// A host without the square brackets that an IPv6 address is written in.
pub open spec fn unbracketed(host: Seq<char>) -> Seq<char> {
    if host.len() >= 2 && host[0] == '[' && host[host.len() - 1] == ']' {
        host.subrange(1, host.len() - 1)
    } else {
        host
    }
}

/// The host of a backend address: what stands before the last colon, or all of
/// it where there is no colon, without square brackets around it.
pub open spec fn host_of(addr: Seq<char>) -> Seq<char> {
    match last_colon(addr, addr.len() as int) {
        Some(i) => unbracketed(addr.subrange(0, i)),
        None => unbracketed(addr),
    }
}

/// The host of the backend at `backend_addr`: the name, or the address, that a
/// TLS session with the backend is opened for.
pub fn backend_host(backend_addr: &str) -> (host: String)
    ensures
        host@ == host_of(backend_addr@),
{
    let len: usize = backend_addr.unicode_len();
    let mut end: usize = len;
    let mut k: usize = len;
    while k > 0
        invariant
            k <= len,
            len == backend_addr@.len(),
            end == len,
            last_colon(backend_addr@, len as int) == last_colon(backend_addr@, k as int),
        decreases k,
    {
        if backend_addr.get_char(k - 1) == ':' {
            end = k - 1;
            let host = backend_addr.substring_char(0, end);
            return unbracket(host);
        }
        k = k - 1;
    }
    assert(backend_addr@.subrange(0, len as int) =~= backend_addr@);
    unbracket(backend_addr.substring_char(0, len))
}

fn unbracket(host: &str) -> (bare: String)
    ensures
        bare@ == unbracketed(host@),
{
    let len: usize = host.unicode_len();
    if len >= 2 && host.get_char(0) == '[' && host.get_char(len - 1) == ']' {
        String::from_str(host.substring_char(1, len - 1))
    } else {
        String::from_str(host)
    }
}

/// How the TLS session with a backend is opened.
#[derive(Clone, Debug, PartialEq, Eq)]
pub struct TlsDial {
    /// Whether the backend's certificate is accepted unchecked.
    pub ignore_verify: bool,
    /// The host that the session is opened for.
    pub server_name: String,
}

/// What is done on a connection once the backend is dialled, in this order:
/// the header is written to the backend, the TLS session with the backend is
/// opened, both sides are put behind their buckets, and the relay runs.
pub struct ConnectionPlan {
    /// The PROXY header to write to the backend before anything else.
    pub proxy_header: Option<Vec<u8>>,
    /// The TLS session to open with the backend.
    pub backend_tls: Option<TlsDial>,
    /// The token side of the client's stream.
    pub client: RateLimitedStream,
    /// The token side of the backend's stream.
    pub backend: RateLimitedStream,
}

/// The TLS session that `config` asks for with the backend at `backend_addr`:
/// one only where it is switched on, for the host of the backend. The result
/// says whether the certificate goes unchecked, and names the host.
pub open spec fn tls_dial(config: Option<BackendTlsConfig>, backend_addr: Seq<char>) -> Option<
    (bool, Seq<char>),
> {
    match config {
        Some(tls) => if tls.enabled {
            Some((tls.ignore_verify, host_of(backend_addr)))
        } else {
            None
        },
        None => None,
    }
}

/// A stream behind these two buckets, with no wait under way.
pub open spec fn throttle_of(
    read: Option<SimpleLimiter>,
    write: Option<SimpleLimiter>,
) -> Throttle {
    Throttle {
        read_limiter: bucket_of(read),
        write_limiter: bucket_of(write),
        read_permit: None,
        write_permit: None,
    }
}

/// Plans the pipeline of a connection to the backend at `backend_addr`.
pub fn proxy_connection(backend_addr: &str, config: ProxyConfig) -> (plan: ConnectionPlan)
    requires
        earns(config.client_read_limiter),
        earns(config.client_write_limiter),
        earns(config.backend_read_limiter),
        earns(config.backend_write_limiter),
    ensures
        match plan.proxy_header {
            Some(header) => config.proxy_protocol && header@ == v2_header(
                config.client_addr@,
                config.local_addr@,
            ),
            None => !config.proxy_protocol,
        },
        match plan.backend_tls {
            Some(dial) => tls_dial(config.backend_tls, backend_addr@) == Some(
                (dial.ignore_verify, dial.server_name@),
            ),
            None => tls_dial(config.backend_tls, backend_addr@) is None,
        },
        plan.client@ == throttle_of(config.client_read_limiter, config.client_write_limiter),
        plan.backend@ == throttle_of(config.backend_read_limiter, config.backend_write_limiter),
{
    let proxy_header = if config.proxy_protocol {
        Some(create_v2_header(config.client_addr, config.local_addr))
    } else {
        None
    };
    let backend_tls = match config.backend_tls {
        Some(tls) => if tls.enabled {
            Some(
                TlsDial {
                    ignore_verify: tls.ignore_verify,
                    server_name: backend_host(backend_addr),
                },
            )
        } else {
            None
        },
        None => None,
    };
    ConnectionPlan {
        proxy_header,
        backend_tls,
        client: RateLimitedStream::new(config.client_read_limiter, config.client_write_limiter),
        backend: RateLimitedStream::new(config.backend_read_limiter, config.backend_write_limiter),
    }
}

/// What a finished connection adds to the traffic counters of its rule, by
/// direction.
#[derive(Clone, Copy, Debug, PartialEq, Eq, Structural)]
pub struct TrafficReport {
    /// Bytes received from the client.
    pub client_in: u64,
    /// Bytes sent to the client.
    pub client_out: u64,
    /// Bytes received from the backend.
    pub backend_in: u64,
    /// Bytes sent to the backend.
    pub backend_out: u64,
}

/// The traffic of a relay that moved `c2b` bytes from the client to the
/// backend and `b2c` bytes back: what came in from one side went out to the
/// other.
pub fn traffic_report(c2b: u64, b2c: u64) -> (report: TrafficReport)
    ensures
        report == (TrafficReport {
            client_in: c2b,
            backend_out: c2b,
            backend_in: b2c,
            client_out: b2c,
        }),
{
    TrafficReport { client_in: c2b, backend_out: c2b, backend_in: b2c, client_out: b2c }
}

} // verus!
