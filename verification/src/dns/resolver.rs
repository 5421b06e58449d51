//! Resolver selection: which upstream servers a run queries, over which
//! transport, and under which name the choice is reported.

use crate::dns::ip::{ip_of_text, is_ip_text, IpAddress, IpAddressView};
use crate::dns::result::opt_text;
use crate::dns::retry::{Lookup, LookupView};
use crate::error::{ErrorView, ReverDNSError};
use crate::text::{is_substring, join, join_strings, str_contains, texts_of};
use vstd::prelude::*;
use vstd::string::StringExecFns;

verus! {

/// How an upstream server is reached.
#[derive(Debug, Clone, Copy, PartialEq, Eq, Structural)]
pub enum Transport {
    /// Plain DNS over UDP.
    Udp,
    /// DNS over HTTPS.
    Https,
}

/// One upstream server.
#[derive(Debug, Clone)]
pub struct NameServer {
    pub address: IpAddress,
    pub port: u16,
    pub transport: Transport,
    /// The name that the server's TLS certificate must carry.
    pub tls_name: Option<String>,
    pub trust_negative_responses: bool,
}

/// The mathematical value of a [`NameServer`].
pub struct NameServerView {
    pub address: IpAddressView,
    pub port: u16,
    pub transport: Transport,
    pub tls_name: Option<Seq<char>>,
    pub trust_negative_responses: bool,
}

impl View for NameServer {
    type V = NameServerView;

    open spec fn view(&self) -> NameServerView {
        NameServerView {
            address: self.address@,
            port: self.port,
            transport: self.transport,
            tls_name: opt_text(self.tls_name),
            trust_negative_responses: self.trust_negative_responses,
        }
    }
}

/// The values of a sequence of servers.
pub open spec fn server_views(servers: Seq<NameServer>) -> Seq<NameServerView> {
    Seq::new(servers.len(), |i: int| servers[i]@)
}

/// A plain resolver at `address`: UDP, port 53.
pub open spec fn udp_server(address: IpAddressView) -> NameServerView {
    NameServerView {
        address,
        port: 53,
        transport: Transport::Udp,
        tls_name: None,
        trust_negative_responses: true,
    }
}

/// A DNS-over-HTTPS endpoint at the IPv4 address `a.b.c.d`.
pub open spec fn https_server(
    a: u8,
    b: u8,
    c: u8,
    d: u8,
    port: u16,
    tls_name: Seq<char>,
) -> NameServerView {
    NameServerView {
        address: IpAddressView::V4(seq![a, b, c, d]),
        port,
        transport: Transport::Https,
        tls_name: Some(tls_name),
        trust_negative_responses: true,
    }
}

/// The DNS-over-HTTPS providers that are known by name.
#[derive(Debug, Clone, Copy, PartialEq, Eq, Structural)]
pub enum DohProvider {
    Cloudflare,
    Google,
    Quad9,
    /// The provider was not recognised; Cloudflare serves in its place.
    Fallback,
}

/// The provider URL that is used where none is given.
pub open spec fn default_doh_url() -> Seq<char> {
    "https://cloudflare-dns.com/dns-query"@
}

/// The provider URL of a run.
pub open spec fn doh_url(provider: Option<Seq<char>>) -> Seq<char> {
    match provider {
        Some(url) => url,
        None => default_doh_url(),
    }
}

impl DohProvider {
    /// The provider that a URL selects: the first of the known names that
    /// occurs anywhere in it.
    pub open spec fn of_url(url: Seq<char>) -> DohProvider {
        if is_substring("cloudflare"@, url) {
            DohProvider::Cloudflare
        } else if is_substring("google"@, url) {
            DohProvider::Google
        } else if is_substring("quad9"@, url) {
            DohProvider::Quad9
        } else {
            DohProvider::Fallback
        }
    }

    /// The endpoint of the provider.
    pub open spec fn server(self) -> NameServerView {
        match self {
            DohProvider::Cloudflare => https_server(1, 1, 1, 1, 443, "cloudflare-dns.com"@),
            DohProvider::Google => https_server(8, 8, 8, 8, 443, "dns.google"@),
            DohProvider::Quad9 => https_server(9, 9, 9, 9, 5053, "dns.quad9.net"@),
            DohProvider::Fallback => https_server(1, 1, 1, 1, 443, "cloudflare-dns.com"@),
        }
    }

    /// The name under which the provider is reported.
    pub open spec fn display_name(self) -> Seq<char> {
        match self {
            DohProvider::Cloudflare => "cloudflare-doh"@,
            DohProvider::Google => "google-doh"@,
            DohProvider::Quad9 => "quad9-doh"@,
            DohProvider::Fallback => "cloudflare-doh(fallback)"@,
        }
    }

    /// The provider that a URL selects.
    pub fn select(url: &str) -> (p: DohProvider)
        ensures
            p == DohProvider::of_url(url@),
    {
        if str_contains(url, "cloudflare") {
            DohProvider::Cloudflare
        } else if str_contains(url, "google") {
            DohProvider::Google
        } else if str_contains(url, "quad9") {
            DohProvider::Quad9
        } else {
            DohProvider::Fallback
        }
    }

    /// The endpoint of the provider.
    pub fn name_server(&self) -> (s: NameServer)
        ensures
            s@ == self.server(),
    {
        let s = match self {
            DohProvider::Cloudflare => https_name_server(1, 1, 1, 1, 443, "cloudflare-dns.com"),
            DohProvider::Google => https_name_server(8, 8, 8, 8, 443, "dns.google"),
            DohProvider::Quad9 => https_name_server(9, 9, 9, 9, 5053, "dns.quad9.net"),
            DohProvider::Fallback => https_name_server(1, 1, 1, 1, 443, "cloudflare-dns.com"),
        };
        s
    }

    /// The name under which the provider is reported.
    pub fn to_string(&self) -> (s: String)
        ensures
            s@ == self.display_name(),
    {
        match self {
            DohProvider::Cloudflare => String::from_str("cloudflare-doh"),
            DohProvider::Google => String::from_str("google-doh"),
            DohProvider::Quad9 => String::from_str("quad9-doh"),
            DohProvider::Fallback => String::from_str("cloudflare-doh(fallback)"),
        }
    }
}

/// A DNS-over-HTTPS endpoint at the IPv4 address `a.b.c.d`.
fn https_name_server(a: u8, b: u8, c: u8, d: u8, port: u16, tls_name: &str) -> (s: NameServer)
    ensures
        s@ == https_server(a, b, c, d, port, tls_name@),
{
    let octets: [u8; 4] = [a, b, c, d];
    assert(octets@ =~= seq![a, b, c, d]);
    NameServer {
        address: IpAddress::V4(octets),
        port,
        transport: Transport::Https,
        tls_name: Some(String::from_str(tls_name)),
        trust_negative_responses: true,
    }
}

/// A plain resolver at `address`.
fn udp_name_server(address: IpAddress) -> (s: NameServer)
    ensures
        s@ == udp_server(address@),
{
    NameServer {
        address,
        port: 53,
        transport: Transport::Udp,
        tls_name: None,
        trust_negative_responses: true,
    }
}

/// The settings that every lookup of a run shares: the upstream servers and
/// the retry policy. Made once, then only read.
#[derive(Debug, Clone)]
pub struct DnsResolver {
    servers: Vec<NameServer>,
    timeout_secs: u64,
    attempts: usize,
    retry_count: u32,
    retry_backoff_ms: u64,
    resolver_names: String,
}

/// The mathematical value of a [`DnsResolver`].
pub struct DnsResolverView {
    pub servers: Seq<NameServerView>,
    /// Time limit of one attempt, in seconds.
    pub timeout_secs: u64,
    /// Attempts that the upstream client makes per query; retries are
    /// made by the lookup itself.
    pub attempts: nat,
    pub retry_count: u32,
    pub retry_backoff_ms: u64,
    /// The name under which the configuration is reported.
    pub names: Seq<char>,
}

/// The two public resolvers that are used where none is configured.
pub open spec fn default_servers() -> Seq<NameServerView> {
    seq![
        udp_server(IpAddressView::V4(seq![8u8, 8u8, 8u8, 8u8])),
        udp_server(IpAddressView::V4(seq![1u8, 1u8, 1u8, 1u8])),
    ]
}

/// The configuration with the default resolvers.
pub open spec fn default_config(
    timeout_secs: u64,
    retry_count: u32,
    retry_backoff_ms: u64,
) -> DnsResolverView {
    DnsResolverView {
        servers: default_servers(),
        timeout_secs,
        attempts: 1,
        retry_count,
        retry_backoff_ms,
        names: "default(8.8.8.8,1.1.1.1)"@,
    }
}

/// The configuration for DNS over HTTPS with the provider that `url`
/// selects.
pub open spec fn doh_config(
    url: Seq<char>,
    timeout_secs: u64,
    retry_count: u32,
    retry_backoff_ms: u64,
) -> DnsResolverView {
    DnsResolverView {
        servers: seq![DohProvider::of_url(url).server()],
        timeout_secs,
        attempts: 1,
        retry_count,
        retry_backoff_ms,
        names: DohProvider::of_url(url).display_name(),
    }
}

/// The configuration with the plain resolvers at the given addresses, in
/// the order given.
pub open spec fn custom_config(
    ips: Seq<Seq<char>>,
    timeout_secs: u64,
    retry_count: u32,
    retry_backoff_ms: u64,
) -> DnsResolverView {
    DnsResolverView {
        servers: Seq::new(ips.len(), |i: int| udp_server(ip_of_text(ips[i]))),
        timeout_secs,
        attempts: 1,
        retry_count,
        retry_backoff_ms,
        names: join(ips, ","@),
    }
}

/// Every text is an IP address.
pub open spec fn all_ip_texts(ips: Seq<Seq<char>>) -> bool {
    forall|i: int| 0 <= i < ips.len() ==> is_ip_text(#[trigger] ips[i])
}

/// `k` is the index of the first text that is no IP address.
pub open spec fn first_invalid(ips: Seq<Seq<char>>, k: int) -> bool {
    &&& 0 <= k < ips.len()
    &&& !is_ip_text(ips[k])
    &&& forall|i: int| 0 <= i < k ==> is_ip_text(#[trigger] ips[i])
}

impl DnsResolver {
    /// The mathematical value of the configuration.
    pub closed spec fn view(&self) -> DnsResolverView {
        DnsResolverView {
            servers: server_views(self.servers@),
            timeout_secs: self.timeout_secs,
            attempts: self.attempts as nat,
            retry_count: self.retry_count,
            retry_backoff_ms: self.retry_backoff_ms,
            names: self.resolver_names@,
        }
    }

    /// The configuration with the two default public resolvers, 8.8.8.8 and
    /// 1.1.1.1, over UDP port 53.
    pub fn new(timeout_secs: u64, retry_count: u32, retry_backoff_ms: u64) -> (r: Result<
        DnsResolver,
        ReverDNSError,
    >)
        ensures
            r is Ok,
            r.unwrap()@ == default_config(timeout_secs, retry_count, retry_backoff_ms),
    {
        let google: [u8; 4] = [8, 8, 8, 8];
        let cloudflare: [u8; 4] = [1, 1, 1, 1];
        assert(google@ =~= seq![8u8, 8u8, 8u8, 8u8]);
        assert(cloudflare@ =~= seq![1u8, 1u8, 1u8, 1u8]);
        let mut servers: Vec<NameServer> = Vec::new();
        servers.push(udp_name_server(IpAddress::V4(google)));
        servers.push(udp_name_server(IpAddress::V4(cloudflare)));
        assert(server_views(servers@) =~= default_servers());
        Ok(
            DnsResolver {
                servers,
                timeout_secs,
                attempts: 1,
                retry_count,
                retry_backoff_ms,
                resolver_names: String::from_str("default(8.8.8.8,1.1.1.1)"),
            },
        )
    }

    /// The configuration for custom resolvers or for DNS over HTTPS.
    ///
    /// With `use_doh`, the provider URL (or the default one where none is
    /// given) selects a known endpoint by the name that occurs in it, and
    /// `resolver_ips` is not looked at. Without it, every text of
    /// `resolver_ips` must be an IP address and becomes a plain resolver;
    /// the first that is none is reported as `InvalidResolver`.
    pub fn with_resolvers(
        resolver_ips: &[String],
        timeout_secs: u64,
        retry_count: u32,
        retry_backoff_ms: u64,
        use_doh: bool,
        doh_provider: Option<String>,
    ) -> (r: Result<DnsResolver, ReverDNSError>)
        ensures
            r is Ok <==> use_doh || all_ip_texts(texts_of(resolver_ips@)),
            r matches Ok(resolver) ==> resolver@ == if use_doh {
                doh_config(
                    doh_url(opt_text(doh_provider)),
                    timeout_secs,
                    retry_count,
                    retry_backoff_ms,
                )
            } else {
                custom_config(
                    texts_of(resolver_ips@),
                    timeout_secs,
                    retry_count,
                    retry_backoff_ms,
                )
            },
            r matches Err(e) ==> exists|k: int|
                first_invalid(texts_of(resolver_ips@), k) && e@ == ErrorView::InvalidResolver(
                    #[trigger] texts_of(resolver_ips@)[k],
                ),
    {
        let ghost texts = texts_of(resolver_ips@);
        if use_doh {
            let url = match doh_provider {
                Some(url) => url,
                None => String::from_str("https://cloudflare-dns.com/dns-query"),
            };
            let provider = DohProvider::select(url.as_str());
            let mut servers: Vec<NameServer> = Vec::new();
            servers.push(provider.name_server());
            assert(server_views(servers@) =~= seq![provider.server()]);
            return Ok(
                DnsResolver {
                    servers,
                    timeout_secs,
                    attempts: 1,
                    retry_count,
                    retry_backoff_ms,
                    resolver_names: provider.to_string(),
                },
            );
        }
        let mut servers: Vec<NameServer> = Vec::new();
        let mut i: usize = 0;
        while i < resolver_ips.len()
            invariant
                !use_doh,
                i <= resolver_ips.len(),
                texts == texts_of(resolver_ips@),
                forall|k: int| 0 <= k < i ==> is_ip_text(#[trigger] texts[k]),
                servers@.len() == i,
                forall|k: int|
                    0 <= k < i ==> (#[trigger] servers@[k])@ == udp_server(ip_of_text(texts[k])),
            decreases resolver_ips.len() - i,
        {
            assert(texts[i as int] == resolver_ips@[i as int]@);
            match IpAddress::parse(resolver_ips[i].as_str()) {
                None => {
                    assert(first_invalid(texts, i as int));
                    assert(!all_ip_texts(texts));
                    return Err(ReverDNSError::InvalidResolver(resolver_ips[i].clone()));
                },
                Some(address) => {
                    servers.push(udp_name_server(address));
                },
            }
            i += 1;
        }
        let names = join_strings(resolver_ips, ",");
        assert(server_views(servers@) =~= Seq::new(
            texts.len(),
            |k: int| udp_server(ip_of_text(texts[k])),
        ));
        Ok(
            DnsResolver {
                servers,
                timeout_secs,
                attempts: 1,
                retry_count,
                retry_backoff_ms,
                resolver_names: names,
            },
        )
    }

    /// Starts the lookup of one target.
    ///
    /// The target must be the text of an IP address; any other text is
    /// reported as `InvalidIpAddress`, and no attempt is made for it.
    pub fn lookup(&self, ip: &str) -> (r: Result<Lookup, ReverDNSError>)
        ensures
            r is Ok <==> is_ip_text(ip@),
            r matches Ok(l) ==> l@ == LookupView::initial(
                ip@,
                ip_of_text(ip@),
                self@.names,
                self@.retry_count,
                self@.retry_backoff_ms,
            ) && l@.wf(),
            r matches Err(e) ==> e@ == ErrorView::InvalidIpAddress(ip@),
    {
        match IpAddress::parse(ip) {
            None => Err(ReverDNSError::InvalidIpAddress(String::from_str(ip))),
            Some(address) => Ok(
                Lookup::start(
                    String::from_str(ip),
                    address,
                    self.resolver_names.clone(),
                    self.retry_count,
                    self.retry_backoff_ms,
                ),
            ),
        }
    }

    /// The upstream servers, in the order in which they were configured.
    pub fn servers(&self) -> (s: &Vec<NameServer>)
        ensures
            server_views(s@) == self@.servers,
    {
        &self.servers
    }

    /// The time limit of one attempt, in seconds.
    pub fn timeout_secs(&self) -> (t: u64)
        ensures
            t == self@.timeout_secs,
    {
        self.timeout_secs
    }

    /// Attempts that the upstream client makes per query.
    pub fn attempts(&self) -> (n: usize)
        ensures
            n == self@.attempts,
    {
        self.attempts
    }

    /// Retries after the first attempt of a lookup.
    pub fn retry_count(&self) -> (n: u32)
        ensures
            n == self@.retry_count,
    {
        self.retry_count
    }

    /// The base of the backoff between attempts, in milliseconds.
    pub fn retry_backoff_ms(&self) -> (ms: u64)
        ensures
            ms == self@.retry_backoff_ms,
    {
        self.retry_backoff_ms
    }

    /// The name under which the configuration is reported.
    pub fn resolver_names(&self) -> (s: &String)
        ensures
            s@ == self@.names,
    {
        &self.resolver_names
    }
}

/// Where no provider URL is given, DNS over HTTPS goes to Cloudflare.
pub proof fn lemma_default_doh_is_cloudflare()
    ensures
        DohProvider::of_url(doh_url(None)) == DohProvider::Cloudflare,
{
    reveal_strlit("https://cloudflare-dns.com/dns-query");
    reveal_strlit("cloudflare");
    let url = default_doh_url();
    let pat = "cloudflare"@;
    assert(url.subrange(8, 18) =~= pat);
    assert(crate::text::occurs_at(pat, url, 8));
}

} // verus!
