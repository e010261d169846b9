//! Session-token handling, configuration validation, and local lookups.

use dyndns::{
    Auth, InterfaceAddress, Ipv4Address, Ipv6Address, LocalIpv4Lookup, LocalIpv6Lookup, Log,
    LogStyle, NetworkError, PlainTextIpParser, RefreshTokenPayload, split_refresh_token,
};

fn v4(a: u8, b: u8, c: u8, d: u8) -> Ipv4Address {
    Ipv4Address { o0: a, o1: b, o2: c, o3: d }
}

fn v6(g0: u16, g7: u16) -> Ipv6Address {
    Ipv6Address { g0, g1: 0, g2: 0, g3: 0, g4: 0, g5: 0, g6: 0, g7 }
}

#[test]
fn split_refresh_token_accepts_selector_dot_verifier() {
    let (selector, verifier) = split_refresh_token(b"abc.def.ghi").unwrap();
    assert_eq!(selector, b"abc".to_vec());
    assert_eq!(verifier, b"def.ghi".to_vec());
}

#[test]
fn split_refresh_token_rejects_malformed_tokens() {
    let rejection = dyndns::AuthError::Unauthorized {
        reason: "invalid refresh token".to_string(),
        code: "invalid_refresh_token".to_string(),
    };
    assert_eq!(split_refresh_token(b""), Err(rejection.clone()));
    assert_eq!(split_refresh_token(b"nodot"), Err(rejection.clone()));
    assert_eq!(split_refresh_token(b".verifier"), Err(rejection.clone()));
    assert_eq!(split_refresh_token(b"selector."), Err(rejection.clone()));
    assert_eq!(split_refresh_token(b"."), Err(rejection));
}

#[test]
fn verifier_hash_matches_the_real_digest_and_encoder() {
    // Computed with the same outside crates the library relies on: the
    // library's hash must agree, so a wrapper handing its input through
    // unchanged would fail here.
    let expected = base64::Engine::encode(
        &base64::engine::general_purpose::URL_SAFE_NO_PAD,
        <sha2::Sha256 as sha2::Digest>::digest(b"verifier-bytes"),
    );
    let computed = RefreshTokenPayload::hash_verifier(b"verifier-bytes");
    assert_eq!(computed, expected.into_bytes());
}

#[test]
fn verify_hash_accepts_the_stored_hash_and_rejects_others() {
    let stored = RefreshTokenPayload::hash_verifier(b"the-verifier");
    assert!(RefreshTokenPayload::verify_hash(b"the-verifier", &stored).is_ok());
    assert!(RefreshTokenPayload::verify_hash(b"another-verifier", &stored).is_err());
    assert!(RefreshTokenPayload::verify_hash(b"the-verifier", b"not-the-hash").is_err());
}

#[test]
fn generated_tokens_are_well_formed_and_fresh() {
    let one = RefreshTokenPayload::generate();
    let two = RefreshTokenPayload::generate();
    // selector.verifier, with URL-safe base64 of 16 and 32 random bytes.
    assert_eq!(one.selector.len(), 22);
    assert_eq!(one.token.len(), 22 + 1 + 43);
    assert_eq!(one.token[22], b'.');
    assert_ne!(one.token, two.token);
    let (selector, verifier) = split_refresh_token(&one.token).unwrap();
    assert_eq!(selector, one.selector);
    assert_eq!(
        RefreshTokenPayload::hash_verifier(&verifier),
        one.verifier_hash
    );
    assert!(RefreshTokenPayload::verify_hash(&verifier, &one.verifier_hash).is_ok());
}

#[test]
fn auth_validation_reports_each_broken_rule() {
    let good = Auth {
        username: "admin".to_string(),
        password: "longenough".to_string(),
        token_ttl_seconds: 3600,
        refresh_token_ttl_seconds: 86400,
    };
    assert!(good.validate().is_ok());

    let blank = Auth { username: "  ".to_string(), ..good.clone() };
    assert_eq!(
        blank.validate(),
        Err("authentication username must be set".to_string())
    );

    let short = Auth { password: "short".to_string(), ..good.clone() };
    assert_eq!(
        short.validate(),
        Err("authentication password must be at least 8 characters".to_string())
    );

    let zero_ttl = Auth { token_ttl_seconds: 0, ..good.clone() };
    assert_eq!(
        zero_ttl.validate(),
        Err("authentication token ttl must be greater than zero".to_string())
    );

    let zero_refresh = Auth { refresh_token_ttl_seconds: 0, ..good.clone() };
    assert_eq!(
        zero_refresh.validate(),
        Err("authentication refresh token ttl must be greater than zero".to_string())
    );

    let inverted = Auth {
        token_ttl_seconds: 100,
        refresh_token_ttl_seconds: 100,
        ..good.clone()
    };
    assert_eq!(
        inverted.validate(),
        Err("authentication refresh token ttl must be greater than access token ttl".to_string())
    );
}

#[test]
fn default_auth_and_log_settings() {
    let auth = Auth::default();
    assert_eq!(auth.token_ttl_seconds, 3600);
    assert_eq!(auth.refresh_token_ttl_seconds, 86400);
    assert!(auth.validate().is_err());

    let log = Log::default();
    assert_eq!(log.level, "dyndns=info");
    assert_eq!(log.style, LogStyle::Auto);
    assert!(LogStyle::Auto.is_color(true));
    assert!(!LogStyle::Auto.is_color(false));
    assert!(LogStyle::Always.is_color(false));
    assert!(!LogStyle::Never.is_color(true));
}

#[test]
fn ipv6_lookup_filters_interface_and_link_local() {
    let entries = vec![
        ("eth0".to_string(), InterfaceAddress::V6(v6(0xfe80, 1))),
        ("eth0".to_string(), InterfaceAddress::V6(v6(0x2001, 1))),
        ("eth1".to_string(), InterfaceAddress::V6(v6(0x2001, 2))),
        ("eth0".to_string(), InterfaceAddress::V4(v4(192, 0, 2, 1))),
        ("eth0".to_string(), InterfaceAddress::V6(v6(0xfd00, 3))),
    ];
    let lookup = LocalIpv6Lookup::new("eth0".to_string());
    let found = lookup.lookup(&entries).unwrap();
    assert_eq!(found, vec![v6(0x2001, 1), v6(0xfd00, 3)]);
}

#[test]
fn ipv6_lookup_with_no_candidates_is_not_found() {
    let entries = vec![
        ("eth0".to_string(), InterfaceAddress::V6(v6(0xfe80, 1))),
        ("eth1".to_string(), InterfaceAddress::V6(v6(0x2001, 2))),
    ];
    let lookup = LocalIpv6Lookup::new("eth0".to_string());
    assert_eq!(lookup.lookup(&entries), Err(NetworkError::Ipv6NotFound));
}

#[test]
fn ipv4_lookup_skips_private_loopback_and_link_local() {
    let entries = vec![
        ("eth0".to_string(), InterfaceAddress::V4(v4(10, 1, 2, 3))),
        ("eth0".to_string(), InterfaceAddress::V4(v4(127, 0, 0, 1))),
        ("eth0".to_string(), InterfaceAddress::V4(v4(169, 254, 0, 1))),
        ("eth0".to_string(), InterfaceAddress::V4(v4(172, 20, 0, 1))),
        ("eth0".to_string(), InterfaceAddress::V4(v4(192, 168, 1, 1))),
        ("eth1".to_string(), InterfaceAddress::V4(v4(198, 51, 100, 7))),
        ("eth0".to_string(), InterfaceAddress::V4(v4(203, 0, 113, 9))),
    ];
    let lookup = LocalIpv4Lookup::new("eth0".to_string());
    assert_eq!(lookup.lookup(&entries), Ok(v4(203, 0, 113, 9)));
}

#[test]
fn ipv4_lookup_with_no_usable_address_is_not_found() {
    let entries = vec![
        ("eth0".to_string(), InterfaceAddress::V4(v4(10, 1, 2, 3))),
        ("eth0".to_string(), InterfaceAddress::V6(v6(0x2001, 1))),
    ];
    let lookup = LocalIpv4Lookup::new("eth0".to_string());
    assert_eq!(lookup.lookup(&entries), Err(NetworkError::Ipv4NotFound));
}

#[test]
fn plain_text_parser_trims_and_reports_the_raw_body() {
    let parser = PlainTextIpParser;
    assert_eq!(parser.parse_v4(b"10.0.0.5\n"), Ok(v4(10, 0, 0, 5)));
    assert_eq!(
        parser.parse_v4(b" not-an-ip "),
        Err(NetworkError::IPv4ParseError(b" not-an-ip ".to_vec()))
    );
    assert_eq!(parser.parse_v6(b"2001::1\n"), Ok(v6(0x2001, 1)));
    assert_eq!(
        parser.parse_v6(b"nope\n"),
        Err(NetworkError::IPv6ParseError(b"nope\n".to_vec()))
    );
}
