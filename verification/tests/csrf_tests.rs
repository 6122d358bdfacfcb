use petshop_server::csrf::{build_set_cookie, Csrf, CsrfConfig, SameSite};
use petshop_server::headers::Headers;
use petshop_server::internal::XErr;
use petshop_server::metrics::Metrics;
use petshop_server::origin::Origin;

fn mk_config(allow_origins: Vec<Origin>) -> CsrfConfig {
    CsrfConfig::new(
        "XSRF-TOKEN".to_string(),
        "localhost".to_string(),
        "/".to_string(),
        true,
        SameSite::Strict,
        1440,
        "X-XSRF-TOKEN".to_string(),
        allow_origins,
        32,
    )
    .unwrap()
}

fn set_cookie_token(set_cookie: &str) -> String {
    let rest = set_cookie.strip_prefix("XSRF-TOKEN=").unwrap();
    rest.split(';').next().unwrap().to_string()
}

#[test]
fn samesite_from_string_test() {
    assert!(matches!(Csrf::samesite_from_string("strict".to_string()), Ok(SameSite::Strict)));
    assert!(matches!(Csrf::samesite_from_string("Lax".to_string()), Ok(SameSite::Lax)));
    assert!(matches!(Csrf::samesite_from_string("NONE".to_string()), Ok(SameSite::NonePolicy)));
    let err = Csrf::samesite_from_string("other".to_string()).unwrap_err();
    assert!(matches!(&err, XErr::Config(_)));
    assert_eq!(err.message(), "csrf.cookie_samesite is invalid");
    assert!(matches!(Csrf::samesite_from_string("".to_string()), Err(XErr::Config(_))));
}

#[test]
fn csrf_config_new_validation_test() {
    assert!(matches!(
        CsrfConfig::new(
            "".to_string(),
            "localhost".to_string(),
            "/".to_string(),
            true,
            SameSite::Strict,
            1440,
            "X-XSRF-TOKEN".to_string(),
            vec![],
            32,
        ),
        Err(XErr::Config(_))
    ));
    assert!(matches!(
        CsrfConfig::new(
            "XSRF-TOKEN".to_string(),
            "localhost".to_string(),
            "/".to_string(),
            true,
            SameSite::Strict,
            1440,
            "X-XSRF-TOKEN".to_string(),
            vec![],
            0,
        ),
        Err(XErr::Config(_))
    ));
    assert!(CsrfConfig::new(
        "XSRF-TOKEN".to_string(),
        "localhost".to_string(),
        "/".to_string(),
        true,
        SameSite::Strict,
        1440,
        "X-XSRF-TOKEN".to_string(),
        vec![],
        32,
    )
    .is_ok());
}

#[test]
fn build_set_cookie_test() {
    let config = mk_config(vec![]);
    let cookie = build_set_cookie(&config, "sometoken");
    assert_eq!(
        cookie,
        "XSRF-TOKEN=sometoken; Domain=localhost; Path=/; Secure; SameSite=Strict; Max-Age=86400"
    );
}

#[test]
fn build_set_cookie_variants_test() {
    let config = CsrfConfig::new(
        "session".to_string(),
        "example.org".to_string(),
        "/api".to_string(),
        false,
        SameSite::NonePolicy,
        -1,
        "x-token".to_string(),
        vec![],
        16,
    )
    .unwrap();
    let cookie = build_set_cookie(&config, "t");
    assert_eq!(cookie, "session=t; Domain=example.org; Path=/api; SameSite=None; Max-Age=-60");
}

#[test]
fn request_check_disabled_test() {
    // with no configuration the guard always passes and counts nothing
    let guard = Csrf::from_config(None);
    let mut metrics = Metrics::from_config("petshop");
    let headers = Headers::new();
    assert!(guard.request_check(&mut metrics, &headers).is_ok());
    assert_eq!(metrics.csrf_error_counter, 0);
}

#[test]
fn request_check_enabled_test() {
    let guard = Csrf::from_config(Some(mk_config(vec![])));
    let mut metrics = Metrics::from_config("petshop");

    let headers = Headers::new();
    let denied = guard.request_check(&mut metrics, &headers);
    assert!(denied.is_err());
    assert_eq!(denied.unwrap_err().message(), "CsrfCheckError");
    assert_eq!(metrics.csrf_error_counter, 1);

    let mut matched = Headers::new();
    matched.insert("x-csrf-match", "1");
    assert!(guard.request_check(&mut metrics, &matched).is_ok());
    assert_eq!(metrics.csrf_error_counter, 1);
}

#[test]
fn disabled_guard_is_inert_test() {
    // absence of configuration disables every phase, whatever the input
    let guard = Csrf::from_config(None);
    let mut headers = Headers::new();
    headers.append("cookie", "XSRF-TOKEN=tok");
    headers.append("x-xsrf-token", "tok");
    assert_eq!(guard.service_request_handler(&mut headers), None);
    assert_eq!(headers.len(), 2);
    assert_eq!(headers.get("x-xsrf-token"), Some("tok".to_string()));
    assert_eq!(headers.get("x-csrf-match"), None);

    let mut response = Headers::new();
    guard.response_used(&mut response);
    assert_eq!(response.len(), 0);
    guard.service_response_handler(Some("tok".to_string()), 200, &mut response);
    assert_eq!(response.len(), 0);
}

#[test]
fn request_phase_match_test() {
    let guard = Csrf::from_config(Some(mk_config(vec![])));
    let mut headers = Headers::new();
    headers.append("cookie", "XSRF-TOKEN=tok123");
    headers.append("x-xsrf-token", "tok123");
    let carried = guard.service_request_handler(&mut headers);
    assert_eq!(carried, Some("tok123".to_string()));
    // the client token header must not reach the inner handler
    assert_eq!(headers.get("x-xsrf-token"), None);
    assert_eq!(headers.get("x-csrf-match"), Some("1".to_string()));
    assert_eq!(headers.get("x-csrf-error"), None);
}

#[test]
fn request_phase_mismatch_test() {
    let guard = Csrf::from_config(Some(mk_config(vec![])));
    let mut headers = Headers::new();
    headers.append("cookie", "XSRF-TOKEN=tok123");
    headers.append("x-xsrf-token", "other");
    let carried = guard.service_request_handler(&mut headers);
    assert_eq!(carried, Some("tok123".to_string()));
    assert_eq!(headers.get("x-csrf-match"), None);
    assert_eq!(headers.get("x-csrf-error"), Some("tokens do not match".to_string()));
}

#[test]
fn request_phase_missing_tokens_test() {
    let guard = Csrf::from_config(Some(mk_config(vec![])));
    let mut headers = Headers::new();
    headers.append("x-xsrf-token", "tok123");
    let carried = guard.service_request_handler(&mut headers);
    assert_eq!(carried, None);
    assert_eq!(headers.get("x-csrf-match"), None);
    assert_eq!(headers.get("x-csrf-error"), Some("tokens not found".to_string()));
}

#[test]
fn request_phase_origin_allowed_test() {
    let allow = vec![Origin {
        scheme: "http".to_string(),
        host: "good.com".to_string(),
        port: None,
    }];
    let guard = Csrf::from_config(Some(mk_config(allow)));
    let mut headers = Headers::new();
    headers.append("cookie", "XSRF-TOKEN=tok123");
    headers.append("x-xsrf-token", "tok123");
    headers.append("origin", "http://good.com:4180");
    let carried = guard.service_request_handler(&mut headers);
    assert_eq!(carried, Some("tok123".to_string()));
    assert_eq!(headers.get("x-csrf-match"), Some("1".to_string()));
}

#[test]
fn request_phase_origin_rejected_test() {
    let allow = vec![Origin {
        scheme: "http".to_string(),
        host: "good.com".to_string(),
        port: None,
    }];
    let guard = Csrf::from_config(Some(mk_config(allow)));
    let mut headers = Headers::new();
    headers.append("cookie", "XSRF-TOKEN=tok123");
    headers.append("x-xsrf-token", "tok123");
    headers.append("origin", "http://evil.com");
    let carried = guard.service_request_handler(&mut headers);
    assert_eq!(carried, Some("tok123".to_string()));
    assert_eq!(headers.get("x-csrf-match"), None);
    assert_eq!(headers.get("x-csrf-error"), Some("origin not allowed".to_string()));
}

#[test]
fn request_phase_referer_fallback_test() {
    let allow = vec![Origin {
        scheme: "https".to_string(),
        host: "good.com".to_string(),
        port: None,
    }];
    let guard = Csrf::from_config(Some(mk_config(allow)));
    let mut headers = Headers::new();
    headers.append("cookie", "XSRF-TOKEN=tok123");
    headers.append("x-xsrf-token", "tok123");
    headers.append("referer", "https://good.com/some/page");
    let carried = guard.service_request_handler(&mut headers);
    assert_eq!(carried, Some("tok123".to_string()));
    assert_eq!(headers.get("x-csrf-match"), Some("1".to_string()));
}

#[test]
fn request_phase_no_origin_blocked_test() {
    // with a non-empty allow-list and no origin or referer, block
    let allow = vec![Origin {
        scheme: "http".to_string(),
        host: "good.com".to_string(),
        port: None,
    }];
    let guard = Csrf::from_config(Some(mk_config(allow)));
    let mut headers = Headers::new();
    headers.append("cookie", "XSRF-TOKEN=tok123");
    headers.append("x-xsrf-token", "tok123");
    let carried = guard.service_request_handler(&mut headers);
    assert_eq!(carried, Some("tok123".to_string()));
    assert_eq!(headers.get("x-csrf-match"), None);
    assert_eq!(headers.get("x-csrf-error"), Some("origin not allowed".to_string()));
}

#[test]
fn response_phase_reuse_test() {
    // an unused carried token is set again unchanged
    let guard = Csrf::from_config(Some(mk_config(vec![])));
    let mut response = Headers::new();
    guard.service_response_handler(Some("tok123".to_string()), 200, &mut response);
    let set_cookie = response.get("set-cookie").unwrap();
    assert_eq!(set_cookie_token(&set_cookie), "tok123");
}

#[test]
fn response_phase_rotate_test() {
    // a used token is replaced by a fresh one of the configured length
    let guard = Csrf::from_config(Some(mk_config(vec![])));
    let mut response = Headers::new();
    guard.response_used(&mut response);
    assert_eq!(response.get("x-csrf-used"), Some("1".to_string()));
    guard.service_response_handler(Some("tok123".to_string()), 200, &mut response);
    assert_eq!(response.get("x-csrf-used"), None);
    let token = set_cookie_token(&response.get("set-cookie").unwrap());
    assert_eq!(token.len(), 32);
    assert_ne!(token, "tok123");
}

#[test]
fn response_phase_first_contact_test() {
    // with no carried token a fresh one is minted
    let guard = Csrf::from_config(Some(mk_config(vec![])));
    let mut response = Headers::new();
    guard.service_response_handler(None, 200, &mut response);
    let token = set_cookie_token(&response.get("set-cookie").unwrap());
    assert_eq!(token.len(), 32);
    assert!(token.chars().all(|c| c.is_ascii_alphanumeric()));
}

#[test]
fn response_phase_error_status_test() {
    // no cookie is handed out on error paths
    let guard = Csrf::from_config(Some(mk_config(vec![])));
    let mut response = Headers::new();
    guard.service_response_handler(Some("tok123".to_string()), 500, &mut response);
    assert_eq!(response.get("set-cookie"), None);

    let mut grpc_failed = Headers::new();
    grpc_failed.append("grpc-status", "7");
    guard.service_response_handler(Some("tok123".to_string()), 200, &mut grpc_failed);
    assert_eq!(grpc_failed.get("set-cookie"), None);
    // the used flag is not even consumed on error paths
    let mut used_failed = Headers::new();
    used_failed.append("x-csrf-used", "1");
    guard.service_response_handler(None, 503, &mut used_failed);
    assert_eq!(used_failed.get("x-csrf-used"), Some("1".to_string()));
}

#[test]
fn response_phase_appends_cookie_test() {
    // the cookie is appended, not merged over other cookies
    let guard = Csrf::from_config(Some(mk_config(vec![])));
    let mut response = Headers::new();
    response.append("set-cookie", "other=1");
    guard.service_response_handler(Some("tok123".to_string()), 200, &mut response);
    assert_eq!(response.len(), 2);
    assert_eq!(response.get("set-cookie"), Some("other=1".to_string()));
}
