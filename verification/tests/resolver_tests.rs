use reverdns::dns::resolver::{DohProvider, NameServer, Transport};
use reverdns::dns::{Lookup, RateLimiter};
use reverdns::{DnsResolver, IpAddress, ReverDNSError};

fn server_summary(s: &NameServer) -> (IpAddress, u16, Transport, Option<String>, bool) {
    (s.address, s.port, s.transport, s.tls_name.clone(), s.trust_negative_responses)
}

#[test]
fn test_resolver_creation() {
    let resolver = DnsResolver::new(5, 1, 100);
    assert!(resolver.is_ok());
}

#[test]
fn test_invalid_resolver_ip() {
    let result = DnsResolver::with_resolvers(&vec!["invalid".to_string()], 5, 1, 100, false, None);
    assert!(result.is_err());
}

#[test]
fn test_invalid_ip_lookup() {
    let resolver = DnsResolver::new(5, 0, 0).unwrap();
    let result = resolver.lookup("invalid");
    assert!(result.is_err());
}

#[test]
fn test_dns_resolver_creation() {
    let resolver = DnsResolver::new(5, 1, 100);
    assert!(resolver.is_ok());
}

#[test]
fn test_dns_resolver_with_custom_ip() {
    let resolvers = vec!["8.8.8.8".to_string()];
    let resolver = DnsResolver::with_resolvers(&resolvers, 5, 1, 100, false, None);
    assert!(resolver.is_ok());
}

#[test]
fn test_dns_resolver_invalid_ip() {
    let resolvers = vec!["invalid".to_string()];
    let resolver = DnsResolver::with_resolvers(&resolvers, 5, 1, 100, false, None);
    assert!(resolver.is_err());
}

#[test]
fn test_lookup_invalid_ip() {
    let resolver = DnsResolver::new(5, 1, 100).unwrap();
    let result = resolver.lookup("not-an-ip");
    assert!(result.is_err());
}

#[test]
fn default_resolver_uses_two_public_resolvers_over_udp() {
    let resolver = DnsResolver::new(5, 3, 100).unwrap();
    let servers: Vec<_> = resolver.servers().iter().map(server_summary).collect();
    assert_eq!(
        servers,
        vec![
            (IpAddress::V4([8, 8, 8, 8]), 53, Transport::Udp, None, true),
            (IpAddress::V4([1, 1, 1, 1]), 53, Transport::Udp, None, true),
        ]
    );
    assert_eq!(resolver.resolver_names(), "default(8.8.8.8,1.1.1.1)");
    assert_eq!(resolver.timeout_secs(), 5);
    assert_eq!(resolver.retry_count(), 3);
    assert_eq!(resolver.retry_backoff_ms(), 100);
    assert_eq!(resolver.attempts(), 1);
}

#[test]
fn custom_resolvers_are_registered_in_order() {
    let ips = vec!["9.9.9.9".to_string(), "2001:4860:4860::8888".to_string()];
    let resolver = DnsResolver::with_resolvers(&ips, 7, 2, 50, false, None).unwrap();
    let servers: Vec<_> = resolver.servers().iter().map(server_summary).collect();
    assert_eq!(
        servers,
        vec![
            (IpAddress::V4([9, 9, 9, 9]), 53, Transport::Udp, None, true),
            (
                IpAddress::V6([0x2001, 0x4860, 0x4860, 0, 0, 0, 0, 0x8888]),
                53,
                Transport::Udp,
                None,
                true
            ),
        ]
    );
    assert_eq!(resolver.resolver_names(), "9.9.9.9,2001:4860:4860::8888");
    assert_eq!(resolver.timeout_secs(), 7);
    assert_eq!(resolver.retry_count(), 2);
    assert_eq!(resolver.retry_backoff_ms(), 50);
    assert_eq!(resolver.attempts(), 1);
}

#[test]
fn custom_resolver_list_may_be_empty() {
    let resolver = DnsResolver::with_resolvers(&[], 5, 1, 100, false, None).unwrap();
    assert_eq!(resolver.servers().len(), 0);
    assert_eq!(resolver.resolver_names(), "");
}

#[test]
fn resolver_that_is_no_ip_address_is_refused() {
    let result =
        DnsResolver::with_resolvers(&vec!["not-an-ip".to_string()], 5, 3, 100, false, None);
    assert_eq!(result.unwrap_err(), ReverDNSError::InvalidResolver("not-an-ip".to_string()));
}

#[test]
fn first_resolver_that_is_no_ip_address_is_reported() {
    let ips = vec![
        "8.8.8.8".to_string(),
        "8.8.8".to_string(),
        "1.1.1.1".to_string(),
        "bad".to_string(),
    ];
    let result = DnsResolver::with_resolvers(&ips, 5, 3, 100, false, None);
    assert_eq!(result.unwrap_err(), ReverDNSError::InvalidResolver("8.8.8".to_string()));
}

fn doh(provider: Option<&str>) -> DnsResolver {
    DnsResolver::with_resolvers(&[], 5, 3, 100, true, provider.map(|p| p.to_string())).unwrap()
}

#[test]
fn doh_defaults_to_cloudflare() {
    let resolver = doh(None);
    let servers: Vec<_> = resolver.servers().iter().map(server_summary).collect();
    assert_eq!(
        servers,
        vec![(
            IpAddress::V4([1, 1, 1, 1]),
            443,
            Transport::Https,
            Some("cloudflare-dns.com".to_string()),
            true
        )]
    );
    assert_eq!(resolver.resolver_names(), "cloudflare-doh");
}

#[test]
fn doh_provider_is_selected_by_the_name_in_its_url() {
    let google = doh(Some("https://dns.google/dns-query"));
    assert_eq!(
        server_summary(&google.servers()[0]),
        (IpAddress::V4([8, 8, 8, 8]), 443, Transport::Https, Some("dns.google".to_string()), true)
    );
    assert_eq!(google.resolver_names(), "google-doh");

    let quad9 = doh(Some("https://dns.quad9.net/dns-query"));
    assert_eq!(
        server_summary(&quad9.servers()[0]),
        (
            IpAddress::V4([9, 9, 9, 9]),
            5053,
            Transport::Https,
            Some("dns.quad9.net".to_string()),
            true
        )
    );
    assert_eq!(quad9.resolver_names(), "quad9-doh");

    let cloudflare = doh(Some("cloudflare"));
    assert_eq!(cloudflare.resolver_names(), "cloudflare-doh");
    assert_eq!(cloudflare.servers().len(), 1);
}

#[test]
fn doh_provider_names_are_matched_in_order_and_by_case() {
    assert_eq!(doh(Some("google-via-cloudflare")).resolver_names(), "cloudflare-doh");
    assert_eq!(doh(Some("quad9.google")).resolver_names(), "google-doh");
    assert_eq!(doh(Some("https://Cloudflare-dns.com")).resolver_names(), "cloudflare-doh(fallback)");
    assert_eq!(DohProvider::select("GOOGLE"), DohProvider::Fallback);
    assert_eq!(DohProvider::select("xquad9x"), DohProvider::Quad9);
}

#[test]
fn unknown_doh_provider_falls_back_to_cloudflare() {
    let resolver = doh(Some("https://doh.example.org/dns-query"));
    assert_eq!(
        server_summary(&resolver.servers()[0]),
        (
            IpAddress::V4([1, 1, 1, 1]),
            443,
            Transport::Https,
            Some("cloudflare-dns.com".to_string()),
            true
        )
    );
    assert_eq!(resolver.resolver_names(), "cloudflare-doh(fallback)");
    assert_eq!(doh(Some("")).resolver_names(), "cloudflare-doh(fallback)");
}

#[test]
fn doh_ignores_the_resolver_list() {
    let ips = vec!["not-an-ip".to_string()];
    let resolver = DnsResolver::with_resolvers(&ips, 5, 3, 100, true, None).unwrap();
    assert_eq!(resolver.resolver_names(), "cloudflare-doh");
    assert_eq!(resolver.servers().len(), 1);
}

#[test]
fn lookup_of_a_malformed_target_is_refused_without_an_attempt() {
    let resolver = DnsResolver::new(5, 3, 100).unwrap();
    for s in ["not-an-ip", "", "8.8.8", "8.8.8.8 ", "example.com", "1.2.3.4.5"] {
        match resolver.lookup(s) {
            Err(e) => assert_eq!(e, ReverDNSError::InvalidIpAddress(s.to_string())),
            Ok(_) => panic!("{} was accepted", s),
        }
    }
}

#[test]
fn lookup_of_an_ip_address_starts_before_the_first_attempt() {
    let resolver = DnsResolver::new(5, 3, 100).unwrap();
    let lookup: Lookup = resolver.lookup("8.8.8.8").unwrap();
    assert_eq!(lookup.attempt(), 0);
    assert_eq!(lookup.backoff_ms(), 0);
    assert_eq!(lookup.address(), IpAddress::V4([8, 8, 8, 8]));
    assert_eq!(lookup.query_name(), "8.8.8.8.in-addr.arpa");
    let lookup6 = resolver.lookup("::1").unwrap();
    assert_eq!(lookup6.address(), IpAddress::V6([0, 0, 0, 0, 0, 0, 0, 1]));
}

#[test]
fn rate_limiter_interval_is_a_second_divided_by_the_rate() {
    assert_eq!(RateLimiter::new(100).interval_nanos(), 10_000_000);
    assert_eq!(RateLimiter::new(1).interval_nanos(), 1_000_000_000);
    assert_eq!(RateLimiter::new(2).interval_nanos(), 500_000_000);
    assert_eq!(RateLimiter::new(1_000_000_000).interval_nanos(), 1);
}

#[test]
fn rate_limiter_interval_is_never_shorter_than_a_second_divided_by_the_rate() {
    assert_eq!(RateLimiter::new(3).interval_nanos(), 333_333_334);
    assert_eq!(RateLimiter::new(7).interval_nanos(), 142_857_143);
    assert_eq!(RateLimiter::new(999_999_999).interval_nanos(), 2);
    assert_eq!(RateLimiter::new(u32::MAX).interval_nanos(), 1);
    for rate in [1u32, 3, 7, 10, 64, 100, 999, 1_000_003, u32::MAX] {
        let interval = RateLimiter::new(rate).interval_nanos() as u128;
        assert!(interval * rate as u128 >= 1_000_000_000);
        assert!((interval - 1) * (rate as u128) < 1_000_000_000);
    }
}

#[test]
fn rate_limiter_without_a_rate_waits_a_microsecond() {
    assert_eq!(RateLimiter::new(0).interval_nanos(), 1_000);
}
