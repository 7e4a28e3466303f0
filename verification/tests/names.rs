//! Names, destinations and registries.

use std::str::FromStr;

use remap::address::IpAddress;
use remap::mapping::{Mapping, RegistrySnapshot, SnapshotError};
use remap::name::{NamePattern, RemapName, RemapNameError};
use remap::target::{
    HostHeaderPolicy, HttpScheme, HttpUpstream, HttpUpstreamError, MappingTarget,
    MappingTargetError, MappingTargetKind, UpstreamHost,
};

fn name(s: &str) -> Result<RemapName, String> {
    RemapName::parse(s).map_err(|e| e.to_text())
}

fn pattern(s: &str) -> Result<NamePattern, String> {
    NamePattern::parse(s).map_err(|e| e.to_text())
}

fn target(s: &str) -> Result<MappingTarget, String> {
    MappingTarget::from_str(s).map_err(|e| e.to_text())
}

fn upstream(s: &str) -> Result<HttpUpstream, String> {
    HttpUpstream::parse(s).map_err(|e| e.to_text())
}

fn mapping(p: &str, t: &str) -> Result<Mapping, String> {
    Ok(Mapping::new(pattern(p)?, target(t)?))
}

fn snapshot(revision: u64, mappings: Vec<Mapping>) -> Result<RegistrySnapshot, String> {
    RegistrySnapshot::new(revision, mappings).map_err(|e| e.to_text())
}

#[test]
fn name_semantics_accepts_single_label_arbitrary_suffix_and_public_names() -> Result<(), String> {
    assert_eq!(name("atlas")?.as_str(), "atlas");
    assert_eq!(name("api.whatever")?.as_str(), "api.whatever");
    assert_eq!(name("google.com")?.as_str(), "google.com");
    Ok(())
}

#[test]
fn name_semantics_canonicalizes_case_and_the_dns_root_dot() -> Result<(), String> {
    assert_eq!(name("Atlas.DEV.")?.as_str(), "atlas.dev");
    Ok(())
}

#[test]
fn name_semantics_rejects_address_literals_as_source_names() {
    assert!(matches!(RemapName::parse("127.0.0.1"), Err(RemapNameError::AddressLiteral(_))));
    assert!(matches!(RemapName::parse("::1"), Err(RemapNameError::AddressLiteral(_))));
}

#[test]
fn name_semantics_wildcard_matches_descendants_but_not_its_suffix() -> Result<(), String> {
    let p = pattern("*.lab")?;
    assert!(p.matches(&name("api.lab")?));
    assert!(p.matches(&name("deep.api.lab")?));
    assert!(!p.matches(&name("lab")?));
    assert!(!p.matches(&name("notlab")?));
    Ok(())
}

#[test]
fn exact_mapping_precedes_wildcards() -> Result<(), String> {
    let s = snapshot(7, vec![mapping("*.lab", "10.0.0.1")?, mapping("api.lab", "10.0.0.2")?])?;
    let resolved = s.resolve(&name("api.lab")?).ok_or("api.lab should resolve")?;
    assert_eq!(resolved.target().to_text(), "10.0.0.2");
    Ok(())
}

#[test]
fn most_specific_wildcard_precedes_broader_suffix() -> Result<(), String> {
    let s = snapshot(8, vec![mapping("*.lab", "10.0.0.1")?, mapping("*.dev.lab", "10.0.0.2")?])?;
    let resolved = s.resolve(&name("api.dev.lab")?).ok_or("api.dev.lab should resolve")?;
    assert_eq!(resolved.target().to_text(), "10.0.0.2");
    Ok(())
}

#[test]
fn disabled_mapping_does_not_claim_a_name() -> Result<(), String> {
    let s = snapshot(9, vec![mapping("atlas", "127.0.0.1")?.with_enabled(false)])?;
    assert!(s.resolve(&name("atlas")?).is_none());
    Ok(())
}

#[test]
fn duplicate_patterns_are_rejected() -> Result<(), String> {
    let result = RegistrySnapshot::new(
        10,
        vec![mapping("atlas", "127.0.0.1")?, mapping("ATLAS", "127.0.0.2")?],
    );
    assert!(result.is_err());
    Ok(())
}

#[test]
fn target_semantics_infers_direct_dns_addresses() -> Result<(), String> {
    assert_eq!(
        target("192.168.1.40")?,
        MappingTarget::DnsAddress(IpAddress::V4([192, 168, 1, 40]))
    );
    Ok(())
}

#[test]
fn target_semantics_infers_canonical_dns_aliases() -> Result<(), String> {
    assert_eq!(target("NAS.Home.")?, MappingTarget::DnsAlias(name("nas.home")?));
    Ok(())
}

#[test]
fn target_semantics_parses_http_routes_with_explicit_policy() -> Result<(), String> {
    let u = HttpUpstream::parse_with_policy(
        "https://Example.com:9443/base",
        HostHeaderPolicy::UseUpstream,
    )
    .map_err(|e| e.to_text())?;
    assert_eq!(u.scheme(), HttpScheme::Https);
    assert_eq!(u.host(), &UpstreamHost::Name(name("example.com")?));
    assert_eq!(u.port(), Some(9443));
    assert_eq!(u.base_path(), "/base");
    assert_eq!(u.host_header_policy(), HostHeaderPolicy::UseUpstream);
    assert_eq!(u.to_text(), "https://example.com:9443/base");
    Ok(())
}

#[test]
fn http_routes_use_the_destination_host_by_default() -> Result<(), String> {
    let u = upstream("http://127.0.0.1:4270")?;
    assert_eq!(u.host_header_policy(), HostHeaderPolicy::UseUpstream);
    Ok(())
}

#[test]
fn target_semantics_renders_bracketed_ipv6_upstreams() -> Result<(), String> {
    assert_eq!(upstream("http://[2001:db8::1]:8080")?.to_text(), "http://[2001:db8::1]:8080/");
    Ok(())
}

#[test]
fn target_semantics_rejects_credentials_queries_fragments_and_zero_ports() {
    assert!(HttpUpstream::parse("https://user@example.com").is_err());
    assert!(HttpUpstream::parse("https://example.com/?query=yes").is_err());
    assert!(HttpUpstream::parse("https://example.com/#fragment").is_err());
    assert!(HttpUpstream::parse("https://example.com:0").is_err());
    assert!(HttpUpstream::parse("https://example.com/a\r\nHost: evil").is_err());
    assert!(HttpUpstream::parse("https://example.com/a b").is_err());
}

#[test]
fn a_base_path_is_free_of_line_ends_and_spaces_alone() {
    for refused in ["\r", "\n", " "] {
        let url = format!("http://a/x{refused}y");
        assert_eq!(HttpUpstream::parse(&url), Err(HttpUpstreamError::InvalidUrl(url.clone())));
    }
    for accepted in ["\u{1}", "\t", "\u{7f}", "\u{a0}"] {
        let url = format!("http://a/x{accepted}y");
        let upstream = HttpUpstream::parse(&url).map(|u| (u.base_path().to_owned(), u.to_text()));
        assert_eq!(upstream, Ok((format!("/x{accepted}y"), url)));
    }
}

#[test]
fn parses_supgang_peer_services_as_text() -> Result<(), String> {
    let t = MappingTarget::parse_with_http_policy(
        "supgang://MacSolis/dibs",
        HostHeaderPolicy::PreserveClient,
    )
    .map_err(|e| e.to_text())?;
    let MappingTarget::Peer(service) = &t else {
        return Err("a supgang:// target is a peer service".to_owned());
    };
    assert_eq!(service.peer(), "MacSolis");
    assert_eq!(service.service(), "dibs");
    assert_eq!(service.host_header_policy(), HostHeaderPolicy::PreserveClient);
    assert_eq!(t.kind().as_str(), "peer");
    assert_eq!(t.to_text(), "supgang://MacSolis/dibs");
    assert!(MappingTarget::from_str("supgang://a8a37e32/remap").is_ok());
    assert!(MappingTarget::from_str(&format!("supgang://{}/dibs", "a".repeat(64))).is_ok());
    Ok(())
}

#[test]
fn rejects_supgang_targets_that_name_nothing_resolvable() {
    for invalid in [
        "supgang://",
        "supgang://MacSolis",
        "supgang:///dibs",
        "supgang://MacSolis/Dibs",
        "supgang://MacSolis/-dibs",
        "supgang://MacSolis/dibs/extra",
        "supgang://MacSolis/dibs?x",
        "supgang://--state-dir/dibs",
        "supgang://Mac Solis/dibs",
        "supgang://MacSolis/a-service-name-too-long",
    ] {
        assert!(MappingTarget::from_str(invalid).is_err(), "{invalid} was accepted");
    }
}

#[test]
fn every_name_error_has_its_text() {
    let text = |s: &str| RemapName::parse(s).err().map(|e| e.to_text()).unwrap_or_default();
    assert_eq!(text(""), "a mapped name cannot be empty");
    assert_eq!(text("a..b"), "a mapped name cannot contain an empty DNS label");
    assert_eq!(text("-a"), "the DNS label '-a' cannot start with a hyphen");
    assert_eq!(text("a-"), "the DNS label 'a-' cannot end with a hyphen");
    assert_eq!(text("a_b"), "the character '_' is not valid in the DNS label 'a_b'");
    let long = "a".repeat(64);
    assert_eq!(text(&long), format!("the DNS label '{long}' exceeds 63 bytes"));
    let many = vec!["a".repeat(63); 4].join(".");
    assert_eq!(many.len(), 255);
    assert_eq!(
        text(&many),
        "the canonical name is 255 bytes; DNS names are limited to 253 bytes"
    );
    assert_eq!(
        text("10.0.0.1"),
        "'10.0.0.1' is an address literal, not a DNS name that Remap can override"
    );
    assert!(matches!(NamePattern::parse("*."), Err(RemapNameError::WildcardWithoutSuffix)));
    assert!(matches!(NamePattern::parse("*"), Err(RemapNameError::WildcardWithoutSuffix)));
}

#[test]
fn names_count_their_labels_and_read_back() -> Result<(), String> {
    let n = name("A.b.C")?;
    assert_eq!(n.label_count(), 3);
    assert_eq!(name(n.as_str())?, n);
    let p = pattern("*.B.c")?;
    assert_eq!(p.to_text(), "*.b.c");
    assert_eq!(p.wildcard_specificity(), Some(2));
    assert_eq!(pattern("b.c")?.wildcard_specificity(), None);
    assert_eq!(pattern(&p.to_text())?, p);
    Ok(())
}

#[test]
fn every_upstream_error_has_an_input() {
    let error = |s: &str| HttpUpstream::parse(s).err();
    assert!(matches!(error("example.com"), Some(HttpUpstreamError::InvalidUrl(_))));
    assert!(matches!(error("ftp://example.com"), Some(HttpUpstreamError::UnsupportedScheme(_))));
    assert!(matches!(error("http://a@b"), Some(HttpUpstreamError::CredentialsNotSupported)));
    assert!(matches!(error("http://"), Some(HttpUpstreamError::MissingHost)));
    assert!(matches!(error("http://a/?b"), Some(HttpUpstreamError::QueryNotSupported)));
    assert!(matches!(error("http://a/#b"), Some(HttpUpstreamError::FragmentNotSupported)));
    assert!(matches!(error("http://a:70000"), Some(HttpUpstreamError::InvalidPort(_))));
    assert!(matches!(error("http://::1"), Some(HttpUpstreamError::UnbracketedIpv6)));
    assert!(matches!(error("http://-a"), Some(HttpUpstreamError::InvalidHost(_))));
    assert_eq!(
        error("ftp://example.com").map(|e| e.to_text()),
        Some("the upstream scheme 'ftp' is unsupported; use http or https".to_owned())
    );
    assert_eq!(
        error("http://a:70000").map(|e| e.to_text()),
        Some("the upstream port '70000' must be an integer from 1 through 65535".to_owned())
    );
}

#[test]
fn destinations_read_back_from_their_text() -> Result<(), String> {
    for s in ["192.168.1.40", "2001:db8::1", "nas.home", "http://a:1/b", "supgang://m/dibs"] {
        let t = target(s)?;
        assert_eq!(target(&t.to_text())?, t);
    }
    assert_eq!(target("2001:DB8:0:0:0:0:0:1")?.to_text(), "2001:db8::1");
    assert_eq!(target("nas.home")?.kind(), MappingTargetKind::DnsAlias);
    assert!(matches!(
        MappingTarget::from_str("http://a/b c"),
        Err(MappingTargetError::InvalidHttpUpstream(_))
    ));
    assert!(matches!(MappingTarget::from_str("a_b"), Err(MappingTargetError::InvalidName(_))));
    assert!(matches!(
        MappingTarget::from_str("supgang://m"),
        Err(MappingTargetError::InvalidPeerService(_))
    ));
    Ok(())
}

#[test]
fn registries_keep_the_order_of_resolution() -> Result<(), String> {
    let s = snapshot(
        3,
        vec![mapping("*.lab", "10.0.0.1")?, mapping("api.lab", "10.0.0.2")?, mapping("*.x.lab", "10.0.0.3")?],
    )?;
    assert_eq!(s.revision(), 3);
    let texts: Vec<String> = s.mappings().iter().map(|m| m.pattern().to_text()).collect();
    assert_eq!(texts, vec!["api.lab", "*.x.lab", "*.lab"]);
    let duplicate = RegistrySnapshot::new(
        3,
        vec![mapping("*.lab", "10.0.0.1")?, mapping("*.LAB", "10.0.0.2")?],
    );
    match duplicate {
        Err(SnapshotError::DuplicatePattern(_)) => {}
        Ok(_) => return Err("accepted".to_owned()),
    }
    Ok(())
}

#[test]
fn inferred_routes_keep_the_name_that_the_client_asked_for() -> Result<(), String> {
    let policy = |text: &str| match target(text) {
        Ok(MappingTarget::Http(upstream)) => Ok(upstream.host_header_policy()),
        Ok(other) => Err(format!("{other:?}")),
        Err(error) => Err(error),
    };
    assert_eq!(policy("http://127.0.0.1:4270")?, HostHeaderPolicy::PreserveClient);
    let direct = HttpUpstream::from_str("http://127.0.0.1:4270").map_err(|e| e.to_text())?;
    assert_eq!(direct.host_header_policy(), HostHeaderPolicy::UseUpstream);
    Ok(())
}

#[test]
fn a_name_has_at_most_as_many_labels_as_fit() -> Result<(), String> {
    let longest = vec!["a"; 127].join(".");
    assert_eq!(longest.len(), 253);
    assert_eq!(RemapName::from_str(&longest).map_err(|e| e.to_text())?.label_count(), 127);
    assert!(RemapName::from_str(&format!("{longest}.a")).is_err());
    Ok(())
}
