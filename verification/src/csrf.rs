//! The double-submit-cookie CSRF guard.
//!
//! On the way in, the guard compares the token borne by the configured
//! cookie with the token mirrored into the configured request header
//! (which it removes), optionally checks the request's origin against an
//! allow-list, and annotates the request with a match or error header;
//! it never rejects a request itself. On the way out, on successful
//! responses only, it sets the cookie again: rotated when the handler
//! marked the token used, reused otherwise, minted on first contact.
//!
//! Guidance followed:
//! <https://cheatsheetseries.owasp.org/cheatsheets/Cross-Site_Request_Forgery_Prevention_Cheat_Sheet.html>

use vstd::prelude::*;
use vstd::string::StringExecFns;
use crate::headers::{Headers, HeadersView, header_first_value, has_header, remove_header};
use crate::internal::XErr;
use crate::metrics::{Metrics, sat_inc};
use crate::origin::{Origin, match_allow_origin, origin_triple_allowed, parse_origin, origin_of,
    lemma_origin_allowed_triple};
use crate::status::grpc_ok;
use crate::text::{dec_str_signed, eq_ignore_case, i64_to_string, str_eq};
use crate::token::{cookie_token_of, cookie_value, is_alphanumeric, random_string};

verus! {

/// A cookie's SameSite policy.
#[derive(Clone, Copy, Debug, PartialEq, Eq, Structural)]
pub enum SameSite {
    Strict,
    Lax,
    /// The policy serialized as `None`.
    NonePolicy,
}

/// Largest magnitude of a max-age in minutes whose value in seconds
/// still fits a signed 64-bit integer.
pub const MAX_AGE_MINUTES_LIMIT: i64 = 153_722_867_280_912_930;

/// CSRF configuration.
pub struct CsrfConfig {
    pub cookie_name: String,
    pub cookie_domain: String,
    pub cookie_path: String,
    pub cookie_secure: bool,
    pub cookie_samesite: SameSite,
    pub cookie_max_age_minutes: i64,
    pub header_name: String,
    pub allow_origins: Vec<Origin>,
    pub token_length: usize,
}

impl CsrfConfig {
    /// The configuration invariant: cookie and header names are
    /// non-empty, tokens have positive length, and the max-age in
    /// seconds fits 64 bits.
    pub open spec fn wf(&self) -> bool {
        &&& self.cookie_name@.len() > 0
        &&& self.header_name@.len() > 0
        &&& self.token_length > 0
        &&& -MAX_AGE_MINUTES_LIMIT <= self.cookie_max_age_minutes <= MAX_AGE_MINUTES_LIMIT
    }

    /// Builds a configuration, upholding the invariant: succeeds on
    /// exactly the inputs with a non-empty cookie name, a non-empty
    /// header name, a positive token length and a max-age within
    /// bounds, and then carries the inputs through unchanged.
    pub fn new(
        cookie_name: String,
        cookie_domain: String,
        cookie_path: String,
        cookie_secure: bool,
        cookie_samesite: SameSite,
        cookie_max_age_minutes: i64,
        header_name: String,
        allow_origins: Vec<Origin>,
        token_length: usize,
    ) -> (r: Result<CsrfConfig, XErr>)
        ensures
            match r {
                Ok(c) => c == (CsrfConfig {
                    cookie_name,
                    cookie_domain,
                    cookie_path,
                    cookie_secure,
                    cookie_samesite,
                    cookie_max_age_minutes,
                    header_name,
                    allow_origins,
                    token_length,
                }) && c.wf(),
                Err(e) => e is Config && !(cookie_name@.len() > 0 && header_name@.len() > 0
                    && token_length > 0 && -MAX_AGE_MINUTES_LIMIT <= cookie_max_age_minutes
                    <= MAX_AGE_MINUTES_LIMIT),
            },
    {
        if cookie_name.as_str().is_empty() {
            Err(XErr::config("csrf.cookie_name is required"))
        } else if header_name.as_str().is_empty() {
            Err(XErr::config("csrf.header_name is required"))
        } else if token_length == 0 {
            Err(XErr::config("csrf.token_length is invalid"))
        } else if cookie_max_age_minutes < -MAX_AGE_MINUTES_LIMIT || cookie_max_age_minutes
            > MAX_AGE_MINUTES_LIMIT {
            Err(XErr::config("csrf.cookie_max_age_minutes is invalid"))
        } else {
            Ok(
                CsrfConfig {
                    cookie_name,
                    cookie_domain,
                    cookie_path,
                    cookie_secure,
                    cookie_samesite,
                    cookie_max_age_minutes,
                    header_name,
                    allow_origins,
                    token_length,
                },
            )
        }
    }
}

/// The error a protected endpoint surfaces when it rejects a request
/// that failed the CSRF check: the permission-denied class, with a
/// fixed public message.
#[derive(Debug)]
pub struct CsrfCheckError;

impl CsrfCheckError {
    /// The public message of the error.
    pub fn message(&self) -> (r: String)
        ensures
            r@ == "CsrfCheckError"@,
    {
        "CsrfCheckError".to_owned()
    }
}

/// CSRF guard.
pub struct Csrf {
    pub config: Option<CsrfConfig>,
}

/// The token carried to the server in the configured cookie.
pub open spec fn carried_token(h: HeadersView, c: CsrfConfig) -> Option<Seq<char>> {
    cookie_token_of(h, c.cookie_name@)
}

/// The token mirrored by the client into the configured header.
pub open spec fn client_token(h: HeadersView, c: CsrfConfig) -> Option<Seq<char>> {
    header_first_value(h, c.header_name@)
}

/// Both tokens reached the server.
pub open spec fn tokens_present(h: HeadersView, c: CsrfConfig) -> bool {
    carried_token(h, c) is Some && client_token(h, c) is Some
}

/// The two tokens agree.
pub open spec fn tokens_equal(h: HeadersView, c: CsrfConfig) -> bool {
    carried_token(h, c) == client_token(h, c)
}

/// The origin that the request declares: the parse of its origin
/// header, or, only when no origin header is present, of its referer
/// header.
pub open spec fn derived_origin(h1: HeadersView) -> Option<(Seq<char>, Seq<char>, Option<u16>)> {
    match header_first_value(h1, "origin"@) {
        Some(o) => origin_of(o),
        None => match header_first_value(h1, "referer"@) {
            Some(r) => origin_of(r),
            None => None,
        },
    }
}

/// Whether the origin check passes: an empty allow-list accepts every
/// request; otherwise the declared origin must exist and match an
/// entry.
pub open spec fn origin_check_ok(h1: HeadersView, c: CsrfConfig) -> bool {
    if c.allow_origins@.len() == 0 {
        true
    } else {
        match derived_origin(h1) {
            Some(t) => origin_triple_allowed(t, c.allow_origins@),
            None => false,
        }
    }
}

/// The request's headers after the request phase: the client token
/// header is removed, and exactly one annotation is set — the match
/// flag when both tokens agree and the origin check passes, an error
/// header naming what failed otherwise.
pub open spec fn request_headers_after(h: HeadersView, c: CsrfConfig) -> HeadersView {
    let h1 = remove_header(h, c.header_name@);
    if tokens_present(h, c) {
        if tokens_equal(h, c) {
            if origin_check_ok(h1, c) {
                remove_header(h1, "x-csrf-match"@).push(("x-csrf-match"@, "1"@))
            } else {
                remove_header(h1, "x-csrf-error"@).push(("x-csrf-error"@, "origin not allowed"@))
            }
        } else {
            remove_header(h1, "x-csrf-error"@).push(("x-csrf-error"@, "tokens do not match"@))
        }
    } else {
        remove_header(h1, "x-csrf-error"@).push(("x-csrf-error"@, "tokens not found"@))
    }
}

/// The request phase grants the match annotation: both tokens present
/// and equal, and the origin check passed.
pub open spec fn request_matched(h: HeadersView, c: CsrfConfig) -> bool {
    tokens_present(h, c) && tokens_equal(h, c) && origin_check_ok(
        remove_header(h, c.header_name@),
        c,
    )
}

/// Law: the match annotation is trustworthy. For a request that does
/// not itself carry the internal match header, the request phase leaves
/// that header present exactly when both tokens were present and equal
/// and the origin check passed — the condition under which
/// `request_check` later accepts the request.
pub proof fn lemma_match_annotation(h: HeadersView, c: CsrfConfig)
    requires
        !has_header(h, "x-csrf-match"@),
    ensures
        has_header(request_headers_after(h, c), "x-csrf-match"@) <==> request_matched(h, c),
{
    let h1 = remove_header(h, c.header_name@);
    assert(!has_header(h1, "x-csrf-match"@)) by {
        if has_header(h1, "x-csrf-match"@) {
            crate::headers::lemma_remove_header_keeps_only(h, c.header_name@, "x-csrf-match"@);
        }
    }
    if request_matched(h, c) {
        let base = remove_header(h1, "x-csrf-match"@);
        crate::headers::lemma_has_header_push(base, "x-csrf-match"@, "1"@, "x-csrf-match"@);
    } else {
        let base = remove_header(h1, "x-csrf-error"@);
        assert(!has_header(base, "x-csrf-match"@)) by {
            if has_header(base, "x-csrf-match"@) {
                crate::headers::lemma_remove_header_keeps_only(h1, "x-csrf-error"@, "x-csrf-match"@);
            }
        }
        assert(!eq_ignore_case("x-csrf-error"@, "x-csrf-match"@)) by {
            reveal_strlit("x-csrf-error");
            reveal_strlit("x-csrf-match");
            assert(crate::text::lower_code("x-csrf-error"@[7]) != crate::text::lower_code(
                "x-csrf-match"@[7],
            ));
        }
        if !tokens_present(h, c) {
            crate::headers::lemma_has_header_push(base, "x-csrf-error"@, "tokens not found"@, "x-csrf-match"@);
        } else if !tokens_equal(h, c) {
            crate::headers::lemma_has_header_push(base, "x-csrf-error"@, "tokens do not match"@, "x-csrf-match"@);
        } else {
            crate::headers::lemma_has_header_push(base, "x-csrf-error"@, "origin not allowed"@, "x-csrf-match"@);
        }
    }
}

/// The serialized Set-Cookie value for a token under a configuration.
pub open spec fn set_cookie_str(c: CsrfConfig, token: Seq<char>) -> Seq<char> {
    c.cookie_name@ + "="@ + token + "; Domain="@ + c.cookie_domain@ + "; Path="@ + c.cookie_path@
        + secure_part(c.cookie_secure) + "; SameSite="@ + samesite_str(c.cookie_samesite)
        + "; Max-Age="@ + dec_str_signed(c.cookie_max_age_minutes as int * 60)
}

/// The optional Secure attribute.
pub open spec fn secure_part(secure: bool) -> Seq<char> {
    if secure {
        "; Secure"@
    } else {
        Seq::empty()
    }
}

/// The SameSite attribute value.
pub open spec fn samesite_str(s: SameSite) -> Seq<char> {
    match s {
        SameSite::Strict => "Strict"@,
        SameSite::Lax => "Lax"@,
        SameSite::NonePolicy => "None"@,
    }
}

/// The response's headers after the response phase. On a successful
/// response the used flag is removed and one Set-Cookie pair is
/// appended, carrying `fresh` when the handler marked the token used or
/// none was carried, and the carried token otherwise; an unsuccessful
/// response passes through untouched.
pub open spec fn response_headers_after(
    c: CsrfConfig,
    carried: Option<Seq<char>>,
    status: u16,
    h: HeadersView,
    fresh: Seq<char>,
) -> HeadersView {
    if status == 200 && grpc_ok(h) {
        let token = if has_header(h, "x-csrf-used"@) {
            fresh
        } else {
            match carried {
                Some(t) => t,
                None => fresh,
            }
        };
        remove_header(h, "x-csrf-used"@).push(("set-cookie"@, set_cookie_str(c, token)))
    } else {
        h
    }
}

/// Law: no token is handed out on error paths. The response phase
/// leaves an unsuccessful response completely untouched: no cookie, no
/// consumption of the used flag.
pub proof fn lemma_no_cookie_on_failure(
    c: CsrfConfig,
    carried: Option<Seq<char>>,
    status: u16,
    h: HeadersView,
    fresh: Seq<char>,
)
    requires
        !(status == 200 && grpc_ok(h)),
    ensures
        response_headers_after(c, carried, status, h, fresh) == h,
{
}

/// The view of an optional token.
pub open spec fn opt_view(o: Option<String>) -> Option<Seq<char>> {
    match o {
        Some(s) => Some(s@),
        None => None,
    }
}

/// Some alphanumeric token of each length exists.
proof fn lemma_exists_fresh(n: nat)
    ensures
        exists|f: Seq<char>| f.len() == n && is_alphanumeric(f),
{
    let w = Seq::new(n, |i: int| 'a');
    assert(is_alphanumeric(w));
    assert(w.len() == n && is_alphanumeric(w));
}

/// Builds the Set-Cookie header value for a token.
pub fn build_set_cookie(config: &CsrfConfig, token: &str) -> (r: String)
    requires
        config.wf(),
    ensures
        r@ == set_cookie_str(*config, token@),
{
    let mut s = config.cookie_name.clone();
    s.append("=");
    s.append(token);
    s.append("; Domain=");
    s.append(config.cookie_domain.as_str());
    s.append("; Path=");
    s.append(config.cookie_path.as_str());
    let ghost before_secure = s@;
    if config.cookie_secure {
        s.append("; Secure");
    } else {
        proof {
            assert(before_secure + secure_part(false) =~= before_secure);
        }
    }
    s.append("; SameSite=");
    match config.cookie_samesite {
        SameSite::Strict => s.append("Strict"),
        SameSite::Lax => s.append("Lax"),
        SameSite::NonePolicy => s.append("None"),
    }
    s.append("; Max-Age=");
    let seconds: i64 = config.cookie_max_age_minutes * 60;
    let secs = i64_to_string(seconds);
    s.append(secs.as_str());
    proof {
        assert(s@ =~= set_cookie_str(*config, token@));
    }
    s
}

impl Csrf {
    /// The guard's invariant: a present configuration is well-formed.
    pub open spec fn wf(&self) -> bool {
        match self.config {
            Some(c) => c.wf(),
            None => true,
        }
    }

    /// A guard over an optional configuration; absence disables it.
    pub fn from_config(config: Option<CsrfConfig>) -> (r: Self)
        ensures
            r.config == config,
    {
        Csrf { config }
    }

    /// Parses a SameSite policy name, ASCII case-insensitively.
    pub fn samesite_from_string(s: String) -> (r: Result<SameSite, XErr>)
        ensures
            match r {
                Ok(v) => (eq_ignore_case(s@, "strict"@) && v == SameSite::Strict) || (
                eq_ignore_case(s@, "lax"@) && v == SameSite::Lax) || (eq_ignore_case(s@, "none"@)
                    && v == SameSite::NonePolicy),
                Err(e) => !eq_ignore_case(s@, "strict"@) && !eq_ignore_case(s@, "lax"@)
                    && !eq_ignore_case(s@, "none"@) && e is Config,
            },
    {
        if crate::text::str_eq_ignore_case(s.as_str(), "strict") {
            Ok(SameSite::Strict)
        } else if crate::text::str_eq_ignore_case(s.as_str(), "lax") {
            Ok(SameSite::Lax)
        } else if crate::text::str_eq_ignore_case(s.as_str(), "none") {
            Ok(SameSite::NonePolicy)
        } else {
            Err(XErr::config("csrf.cookie_samesite is invalid"))
        }
    }

    /// Used in request handlers to check the CSRF match annotation: with
    /// a configuration present, a request without the match flag is
    /// rejected with a permission error and counted as a CSRF failure;
    /// without one the guard is disabled and every request passes.
    pub fn request_check(&self, metrics: &mut Metrics, headers: &Headers) -> (r: Result<
        (),
        CsrfCheckError,
    >)
        ensures
            self.config is None ==> r is Ok && *final(metrics) == *old(metrics),
            self.config is Some ==> if has_header(headers@, "x-csrf-match"@) {
                r is Ok && *final(metrics) == *old(metrics)
            } else {
                r is Err && *final(metrics) == (Metrics {
                    csrf_error_counter: sat_inc(old(metrics).csrf_error_counter),
                    ..*old(metrics)
                })
            },
    {
        if self.config.is_some() {
            if headers.contains("x-csrf-match") {
                Ok(())
            } else {
                metrics.csrf_error_counter_inc();
                Err(CsrfCheckError)
            }
        } else {
            Ok(())
        }
    }

    /// Used in request handlers to mark the token as used on the
    /// response, so that the response phase rotates it.
    pub fn response_used(&self, headers: &mut Headers)
        ensures
            self.config is None ==> *final(headers) == *old(headers),
            self.config is Some ==> final(headers)@ == remove_header(
                old(headers)@,
                "x-csrf-used"@,
            ).push(("x-csrf-used"@, "1"@)),
    {
        if self.config.is_some() {
            headers.insert("x-csrf-used", "1");
        }
    }

    /// The request phase: reads the cookie token, removes and reads the
    /// mirrored header token, annotates the request, and returns the
    /// cookie token so the response phase can carry it forward.
    pub fn service_request_handler(&self, headers: &mut Headers) -> (r: Option<String>)
        ensures
            self.config is None ==> *final(headers) == *old(headers) && r is None,
            self.config matches Some(c) ==> final(headers)@ == request_headers_after(
                old(headers)@,
                c,
            ) && opt_view(r) == carried_token(old(headers)@, c),
    {
        match self.config.as_ref() {
            Some(config) => {
                let ghost h = headers@;
                // the cookie token, set by the server on successful
                // responses and refreshed after one use
                let csrf_token = cookie_value(headers, config.cookie_name.as_str());
                // the mirrored token, set by the client; removed so it
                // is not forwarded
                let x_csrf_token = headers.remove(config.header_name.as_str());
                let ghost h1 = headers@;
                match (&csrf_token, &x_csrf_token) {
                    (Some(ct), Some(xt)) => {
                        if str_eq(ct.as_str(), xt.as_str()) {
                            let allow_origin: bool = if config.allow_origins.len() == 0 {
                                true
                            } else {
                                // check the source origin against the
                                // allow-list, preferring the origin
                                // header over the referer header
                                let origin = headers.get("origin");
                                let referer = headers.get("referer");
                                let origin_parsed: Option<Origin> = match (&origin, &referer) {
                                    (Some(o), _) => parse_origin(o.as_str()),
                                    (None, Some(rf)) => parse_origin(rf.as_str()),
                                    (None, None) => None,
                                };
                                match &origin_parsed {
                                    Some(u) => {
                                        proof {
                                            lemma_origin_allowed_triple(*u, config.allow_origins@);
                                        }
                                        match_allow_origin(u, config.allow_origins.as_slice())
                                    },
                                    None => false,
                                }
                            };
                            if allow_origin {
                                headers.insert("x-csrf-match", "1");
                            } else {
                                headers.insert("x-csrf-error", "origin not allowed");
                            }
                        } else {
                            headers.insert("x-csrf-error", "tokens do not match");
                        }
                    },
                    _ => {
                        headers.insert("x-csrf-error", "tokens not found");
                    },
                }
                csrf_token
            },
            None => None,
        }
    }

    /// The response phase: on a successful response, sets the cookie
    /// again — rotated if the handler marked it used, reused otherwise,
    /// minted when none was carried; unsuccessful responses pass
    /// through untouched, so no fresh token is handed out on error
    /// paths.
    pub fn service_response_handler(
        &self,
        csrf_token: Option<String>,
        status: u16,
        headers: &mut Headers,
    )
        requires
            self.wf(),
        ensures
            self.config is None ==> *final(headers) == *old(headers),
            self.config matches Some(c) ==> exists|fresh: Seq<char>|
                fresh.len() == c.token_length && is_alphanumeric(fresh) && final(headers)@
                    == response_headers_after(c, opt_view(csrf_token), status, old(headers)@, fresh),
            self.config matches Some(c) ==> (csrf_token matches Some(t) ==> ((status == 200
                && grpc_ok(old(headers)@) && !has_header(old(headers)@, "x-csrf-used"@))
                ==> final(headers)@ == remove_header(old(headers)@, "x-csrf-used"@).push(
                ("set-cookie"@, set_cookie_str(c, t@))))),
    {
        match self.config.as_ref() {
            Some(config) => {
                let ghost h = headers@;
                let ghost carried = opt_view(csrf_token);
                let status_is_ok = status == 200;
                let code_is_ok = crate::status::http_headers_grpc_status(headers) == 0;
                if status_is_ok && code_is_ok {
                    // the request handler indicates a consumed token
                    // with the used flag
                    let csrf_used = headers.remove("x-csrf-used").is_some();
                    proof {
                        crate::headers::lemma_has_header_first_value(h, "x-csrf-used"@);
                    }
                    // always refresh a used token, else reuse the
                    // carried one or mint one if none was present
                    if csrf_used {
                        let token = random_string(config.token_length);
                        let cookie = build_set_cookie(config, token.as_str());
                        headers.append("set-cookie", cookie.as_str());
                        proof {
                            assert(final(headers)@ == response_headers_after(
                                *config,
                                carried,
                                status,
                                h,
                                token@,
                            ));
                        }
                    } else {
                        match csrf_token {
                            Some(t) => {
                                let cookie = build_set_cookie(config, t.as_str());
                                headers.append("set-cookie", cookie.as_str());
                                proof {
                                    lemma_exists_fresh(config.token_length as nat);
                                    let f = choose|f: Seq<char>|
                                        f.len() == config.token_length as nat && is_alphanumeric(f);
                                    assert(final(headers)@ == response_headers_after(
                                        *config,
                                        carried,
                                        status,
                                        h,
                                        f,
                                    ));
                                }
                            },
                            None => {
                                let token = random_string(config.token_length);
                                let cookie = build_set_cookie(config, token.as_str());
                                headers.append("set-cookie", cookie.as_str());
                                proof {
                                    assert(final(headers)@ == response_headers_after(
                                        *config,
                                        carried,
                                        status,
                                        h,
                                        token@,
                                    ));
                                }
                            },
                        }
                    }
                } else {
                    proof {
                        lemma_exists_fresh(config.token_length as nat);
                        let f = choose|f: Seq<char>|
                            f.len() == config.token_length as nat && is_alphanumeric(f);
                        assert(final(headers)@ == response_headers_after(
                            *config,
                            carried,
                            status,
                            h,
                            f,
                        ));
                    }
                }
            },
            None => {},
        }
    }
}

} // verus!
