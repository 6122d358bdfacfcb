//! Request-origin allow-listing: a normalized (scheme, host, optional
//! port) triple and the exact-match rules deciding whether a candidate
//! origin is one of a configured allow-list.

use vstd::prelude::*;

verus! {

/// A normalized request origin: scheme, host and optional port, as a URL
/// parser reports them (scheme and host lower-cased, default ports
/// omitted).
#[derive(Debug)]
pub struct Origin {
    pub scheme: String,
    pub host: String,
    pub port: Option<u16>,
}

/// Whether allow-list entry `e` accepts candidate `c`: scheme and host
/// must match exactly; a port given by the entry must match exactly,
/// an entry without a port accepts any candidate port.
pub open spec fn origin_entry_matches(e: Origin, c: Origin) -> bool {
    &&& e.scheme@ == c.scheme@
    &&& e.host@ == c.host@
    &&& (e.port is None || e.port == c.port)
}

/// Whether some entry of the allow-list accepts candidate `c`.
pub open spec fn origin_allowed(c: Origin, allow: Seq<Origin>) -> bool {
    exists|i: int| 0 <= i < allow.len() && origin_entry_matches(allow[i], c)
}

/// Whether allow-list entry `e` accepts a bare (scheme, host, port)
/// triple, by the same rules as `origin_entry_matches`.
pub open spec fn origin_entry_matches_triple(e: Origin, t: (Seq<char>, Seq<char>, Option<u16>)) -> bool {
    &&& e.scheme@ == t.0
    &&& e.host@ == t.1
    &&& (e.port is None || e.port == t.2)
}

/// Whether some entry of the allow-list accepts the triple.
pub open spec fn origin_triple_allowed(t: (Seq<char>, Seq<char>, Option<u16>), allow: Seq<Origin>) -> bool {
    exists|i: int| 0 <= i < allow.len() && origin_entry_matches_triple(allow[i], t)
}

/// A candidate origin is allowed exactly when its triple of views is.
pub proof fn lemma_origin_allowed_triple(c: Origin, allow: Seq<Origin>)
    ensures
        origin_allowed(c, allow) == origin_triple_allowed((c.scheme@, c.host@, c.port), allow),
{
    if origin_allowed(c, allow) {
        let i = choose|i: int| 0 <= i < allow.len() && origin_entry_matches(allow[i], c);
        assert(origin_entry_matches_triple(allow[i], (c.scheme@, c.host@, c.port)));
    }
    if origin_triple_allowed((c.scheme@, c.host@, c.port), allow) {
        let i = choose|i: int|
            0 <= i < allow.len() && origin_entry_matches_triple(allow[i], (c.scheme@, c.host@, c.port));
        assert(origin_entry_matches(allow[i], c));
    }
}

/// Returns true if the candidate origin matches one of the allowed
/// origins.
pub fn match_allow_origin(origin: &Origin, allow_origin: &[Origin]) -> (r: bool)
    ensures
        r == origin_allowed(*origin, allow_origin@),
{
    let n = allow_origin.len();
    let mut i: usize = 0;
    while i < n
        invariant
            i <= n,
            n == allow_origin@.len(),
            forall|j: int| 0 <= j < i ==> !origin_entry_matches(allow_origin@[j], *origin),
        decreases n - i,
    {
        let entry = &allow_origin[i];
        let scheme_match = entry.scheme == origin.scheme;
        let host_match = entry.host == origin.host;
        let port_match = match entry.port {
            Some(port) => match origin.port {
                Some(compare_port) => port == compare_port,
                None => false,
            },
            None => true,
        };
        if scheme_match && host_match && port_match {
            return true;
        }
        i = i + 1;
    }
    false
}

/// What a URL parser derives from an origin or referer header value:
/// the (scheme, host, port) triple, or nothing when the value is not an
/// absolute URL with a domain-name host.
pub uninterp spec fn origin_of(s: Seq<char>) -> Option<(Seq<char>, Seq<char>, Option<u16>)>;

/// Relies on url::Url::parse together with Url::scheme, Url::domain and
/// Url::port: the parse is a function of the input string alone; the
/// result is None when the input does not parse or its host is no domain
/// name, and otherwise carries the normalized scheme, domain and
/// explicit port.
#[verifier::external_body]
pub(crate) fn parse_origin(s: &str) -> (r: Option<Origin>)
    ensures
        match r {
            Some(o) => origin_of(s@) == Some((o.scheme@, o.host@, o.port)),
            None => origin_of(s@) is None,
        },
{
    match url::Url::parse(s) {
        Ok(u) => match u.domain() {
            Some(d) => Some(
                Origin { scheme: u.scheme().to_string(), host: d.to_string(), port: u.port() },
            ),
            None => None,
        },
        Err(_) => None,
    }
}

/// Law: origin matching accepts exact equality. A candidate that agrees
/// with some allow-list entry on scheme, host and port is allowed.
pub proof fn lemma_origin_match_reflexive(c: Origin, allow: Seq<Origin>, i: int)
    requires
        0 <= i < allow.len(),
        allow[i].scheme@ == c.scheme@,
        allow[i].host@ == c.host@,
        allow[i].port == c.port,
    ensures
        origin_allowed(c, allow),
{
}

/// Law: an allow-list entry that names no port accepts a candidate with
/// the same scheme and host under any port.
pub proof fn lemma_origin_match_any_port(c: Origin, allow: Seq<Origin>, i: int)
    requires
        0 <= i < allow.len(),
        allow[i].scheme@ == c.scheme@,
        allow[i].host@ == c.host@,
        allow[i].port is None,
    ensures
        origin_allowed(c, allow),
{
}

/// Law: a match pins the host down exactly. A candidate whose host equals
/// no entry's host character for character is rejected; in particular a
/// host that merely extends an allowed host (a look-alike domain) never
/// matches that entry.
pub proof fn lemma_origin_match_host_exact(c: Origin, allow: Seq<Origin>)
    requires
        forall|i: int| 0 <= i < allow.len() ==> allow[i].host@ != c.host@,
    ensures
        !origin_allowed(c, allow),
{
}

} // verus!
