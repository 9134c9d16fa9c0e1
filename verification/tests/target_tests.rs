use dirscan::target::ProbeError;
use dirscan::target::TargetError;
use dirscan::target::UrlParts;
use dirscan::target::resolve_probe_url;
use dirscan::target::validate_parts;
use dirscan::target::validate_url;

fn b(s: &str) -> Vec<u8> {
    s.as_bytes().to_vec()
}

#[test]
fn valid_http_target_is_canonicalized() {
    assert_eq!(validate_url(&b("http://example.com")), Ok(b("http://example.com/")));
    assert_eq!(validate_url(&b("https://example.com/app")), Ok(b("https://example.com/app")));
    assert_eq!(validate_url(&b("http://example.com:8080/x")), Ok(b("http://example.com:8080/x")));
}

#[test]
fn unparsable_target_is_malformed() {
    assert_eq!(validate_url(&b("not a url")), Err(TargetError::Malformed));
    assert_eq!(validate_url(&b("")), Err(TargetError::Malformed));
}

#[test]
fn non_http_scheme_is_rejected() {
    assert_eq!(validate_url(&b("ftp://example.com/dir")), Err(TargetError::SchemeNotHttp));
    assert_eq!(validate_url(&b("file:///etc/passwd")), Err(TargetError::SchemeNotHttp));
}

#[test]
fn hostless_target_is_rejected() {
    // The scheme passes the `http` prefix rule, but no host is present.
    assert_eq!(validate_url(&b("httpdata:abc")), Err(TargetError::MissingHost));
}

#[test]
fn out_of_range_port_is_rejected() {
    let parts = UrlParts {
        scheme: b("http"),
        host: Some(b("example.com")),
        port: Some(70000),
        canonical: b("http://example.com/"),
    };
    assert_eq!(validate_parts(&parts), Err(TargetError::PortOutOfRange));
    let ok = UrlParts {
        scheme: b("http"),
        host: Some(b("example.com")),
        port: Some(8080),
        canonical: b("http://example.com:8080/"),
    };
    assert_eq!(validate_parts(&ok), Ok(b("http://example.com:8080/")));
}

#[test]
fn join_resolves_relative_path_against_directory_base() {
    assert_eq!(
        resolve_probe_url(&b("http://example.com/app/"), &b("admin")),
        Ok(b("http://example.com/app/admin"))
    );
}

#[test]
fn join_resolves_absolute_path_against_bare_host() {
    assert_eq!(
        resolve_probe_url(&b("http://example.com"), &b("/admin")),
        Ok(b("http://example.com/admin"))
    );
}

#[test]
fn join_against_unparsable_base_fails_per_path() {
    assert_eq!(resolve_probe_url(&b("not a url"), &b("admin")), Err(ProbeError::JoinFailure));
}
