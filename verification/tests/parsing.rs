//! Names and destinations as they are read with `FromStr`.

use std::str::FromStr;

use remap::address::IpAddress;
use remap::name::{NamePattern, RemapName, RemapNameError};
use remap::target::{HostHeaderPolicy, HttpScheme, HttpUpstream, MappingTarget, UpstreamHost};

fn text<T>(input: &str) -> Result<T, String>
where
    T: FromStr,
    T::Err: std::fmt::Debug,
{
    T::from_str(input).map_err(|e| format!("{e:?}"))
}

#[test]
fn accepts_single_label_arbitrary_suffix_and_public_names() -> Result<(), String> {
    assert_eq!(text::<RemapName>("atlas")?.as_str(), "atlas");
    assert_eq!(text::<RemapName>("api.whatever")?.as_str(), "api.whatever");
    assert_eq!(text::<RemapName>("google.com")?.as_str(), "google.com");
    Ok(())
}

#[test]
fn canonicalizes_case_and_the_dns_root_dot() -> Result<(), String> {
    assert_eq!(text::<RemapName>("Atlas.DEV.")?.as_str(), "atlas.dev");
    Ok(())
}

#[test]
fn rejects_address_literals_as_source_names() {
    assert!(matches!(RemapName::from_str("127.0.0.1"), Err(RemapNameError::AddressLiteral(_))));
    assert!(matches!(RemapName::from_str("::1"), Err(RemapNameError::AddressLiteral(_))));
}

#[test]
fn wildcard_matches_descendants_but_not_its_suffix() -> Result<(), String> {
    let pattern = text::<NamePattern>("*.lab")?;
    assert!(pattern.matches(&text("api.lab")?));
    assert!(pattern.matches(&text("deep.api.lab")?));
    assert!(!pattern.matches(&text("lab")?));
    assert!(!pattern.matches(&text("notlab")?));
    Ok(())
}

#[test]
fn infers_direct_dns_addresses() -> Result<(), String> {
    assert_eq!(
        text::<MappingTarget>("192.168.1.40")?,
        MappingTarget::DnsAddress(IpAddress::V4([192, 168, 1, 40]))
    );
    Ok(())
}

#[test]
fn infers_canonical_dns_aliases() -> Result<(), String> {
    assert_eq!(text::<MappingTarget>("NAS.Home.")?, MappingTarget::DnsAlias(text("nas.home")?));
    Ok(())
}

#[test]
fn parses_http_routes_with_explicit_policy() -> Result<(), String> {
    let upstream = HttpUpstream::parse_with_policy(
        "https://Example.com:9443/base",
        HostHeaderPolicy::UseUpstream,
    )
    .map_err(|e| e.to_text())?;
    assert_eq!(upstream.scheme(), HttpScheme::Https);
    assert_eq!(upstream.host(), &UpstreamHost::Name(text("example.com")?));
    assert_eq!(upstream.port(), Some(9443));
    assert_eq!(upstream.base_path(), "/base");
    assert_eq!(upstream.host_header_policy(), HostHeaderPolicy::UseUpstream);
    assert_eq!(upstream.to_text(), "https://example.com:9443/base");
    Ok(())
}

#[test]
fn renders_bracketed_ipv6_upstreams() -> Result<(), String> {
    assert_eq!(
        text::<HttpUpstream>("http://[2001:db8::1]:8080")?.to_text(),
        "http://[2001:db8::1]:8080/"
    );
    Ok(())
}

#[test]
fn rejects_credentials_queries_fragments_and_zero_ports() {
    assert!(HttpUpstream::from_str("https://user@example.com").is_err());
    assert!(HttpUpstream::from_str("https://example.com/?query=yes").is_err());
    assert!(HttpUpstream::from_str("https://example.com/#fragment").is_err());
    assert!(HttpUpstream::from_str("https://example.com:0").is_err());
}
