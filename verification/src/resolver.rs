//! Tenant resolution: the decisions that turn request data (a header, a
//! host name, a bearer token, a path) into a tenant.
//!
//! Looking a tenant up in a store is asynchronous and happens around these
//! functions; each resolver here decides which key to look up and what the
//! lookup's answer means.

use vstd::prelude::*;
use vstd::string::*;

use base64::Engine;

use crate::tenant::Tenant;
use crate::text::{
    before_first, chars_of, concat, concat3, contains_char, contains_seq, count_char,
    count_char_in, ends_with, first_index_of, has_suffix, index_of_char, lemma_first_index_of,
    prefix_before, trim_end_char, trim_end_matches_char,
};

verus! {

/// Tenant resolution errors.
#[derive(Debug)]
pub enum TenantError {
    NotFound(String),
    Invalid(String),
    ResolutionFailed(String),
    Inactive,
    Storage(String),
}

/// The text of an error, as its `Display` rendering reads.
pub open spec fn tenant_error_text(e: TenantError) -> Seq<char> {
    match e {
        TenantError::NotFound(s) => "Tenant not found: "@ + s@,
        TenantError::Invalid(s) => "Invalid tenant identifier: "@ + s@,
        TenantError::ResolutionFailed(s) => "Tenant resolution failed: "@ + s@,
        TenantError::Inactive => "Tenant is inactive"@,
        TenantError::Storage(s) => "Storage error: "@ + s@,
    }
}

impl TenantError {
    /// Human-readable text of the error.
    pub fn message(&self) -> (res: String)
        ensures
            res@ == tenant_error_text(*self),
    {
        match self {
            TenantError::NotFound(s) => concat("Tenant not found: ", s.as_str()),
            TenantError::Invalid(s) => concat("Invalid tenant identifier: ", s.as_str()),
            TenantError::ResolutionFailed(s) => concat("Tenant resolution failed: ", s.as_str()),
            TenantError::Inactive => "Tenant is inactive".to_owned(),
            TenantError::Storage(s) => concat("Storage error: ", s.as_str()),
        }
    }
}

/// What a resolver returns for the answer of a store lookup by `key`: the
/// store's error, `NotFound(key)` when there is no such tenant, `Inactive`
/// for an inactive one, and the tenant otherwise.
pub open spec fn accepted_lookup(
    lookup: Result<Option<Tenant>, TenantError>,
    key: Seq<char>,
    res: Result<Tenant, TenantError>,
) -> bool {
    match lookup {
        Err(e) => res == Err::<Tenant, TenantError>(e),
        Ok(None) => res matches Err(TenantError::NotFound(k)) && k@ == key,
        Ok(Some(t)) => if t.active {
            res == Ok::<Tenant, TenantError>(t)
        } else {
            res matches Err(TenantError::Inactive)
        },
    }
}

/// Turns the answer of a store lookup by `key` into the resolved tenant.
/// Only active tenants are ever resolved.
pub fn accept_lookup(lookup: Result<Option<Tenant>, TenantError>, key: &str) -> (res: Result<
    Tenant,
    TenantError,
>)
    ensures
        accepted_lookup(lookup, key@, res),
        res matches Ok(t) ==> t.active,
{
    match lookup {
        Err(e) => Err(e),
        Ok(None) => Err(TenantError::NotFound(key.to_owned())),
        Ok(Some(t)) => {
            if !t.active {
                Err(TenantError::Inactive)
            } else {
                Ok(t)
            }
        },
    }
}

// ---------------------------------------------------------------------------
// Header
// ---------------------------------------------------------------------------

/// Header-based tenant resolver: the tenant id is the value of a request
/// header (e.g. `X-Tenant-ID`), looked up by id.
pub struct HeaderTenantResolver<S> {
    store: S,
    header_name: String,
}

impl<S> HeaderTenantResolver<S> {
    pub closed spec fn spec_store(&self) -> S {
        self.store
    }

    pub closed spec fn spec_header_name(&self) -> Seq<char> {
        self.header_name@
    }

    /// Create new header-based resolver.
    pub fn new(store: S, header_name: &str) -> (r: Self)
        ensures
            r.spec_store() == store,
            r.spec_header_name() == header_name@,
    {
        HeaderTenantResolver { store, header_name: header_name.to_owned() }
    }

    /// The tenant store.
    pub fn store(&self) -> (s: &S)
        ensures
            *s == self.spec_store(),
    {
        &self.store
    }

    /// Name of the header that carries the tenant id.
    pub fn header_name(&self) -> (h: &str)
        ensures
            h@ == self.spec_header_name(),
    {
        self.header_name.as_str()
    }

    /// The tenant id to look up, given the header's value (`None` when the
    /// request does not carry the header).
    pub fn tenant_id_from_header(&self, header: Option<&str>) -> (res: Result<String, TenantError>)
        ensures
            header matches Some(v) ==> (res matches Ok(id) && id@ == v@),
            header is None ==> (res matches Err(TenantError::NotFound(m)) && m@ == "Missing header: "@
                + self.spec_header_name()),
    {
        match header {
            Some(v) => Ok(v.to_owned()),
            None => Err(TenantError::NotFound(concat("Missing header: ", self.header_name.as_str()))),
        }
    }
}

// ---------------------------------------------------------------------------
// Subdomain
// ---------------------------------------------------------------------------

/// The single-label subdomain of `host` under `base` (`acme.example.com` ->
/// `acme`), after dropping any `:port`.
pub open spec fn subdomain_of(host: Seq<char>, base: Seq<char>) -> Option<Seq<char>> {
    let h = before_first(host, ':');
    let suffix = seq!['.'] + base;
    if has_suffix(h, suffix) {
        let sub = h.take(h.len() - suffix.len());
        if sub.len() > 0 && !sub.contains('.') {
            Some(sub)
        } else {
            None
        }
    } else {
        None
    }
}

/// Subdomain-based tenant resolver: `acme.example.com` resolves the tenant
/// named `acme`.
pub struct SubdomainTenantResolver<S> {
    store: S,
    base_domain: String,
}

impl<S> SubdomainTenantResolver<S> {
    pub closed spec fn spec_store(&self) -> S {
        self.store
    }

    pub closed spec fn spec_base_domain(&self) -> Seq<char> {
        self.base_domain@
    }

    /// Create new subdomain-based resolver.
    pub fn new(store: S, base_domain: &str) -> (r: Self)
        ensures
            r.spec_store() == store,
            r.spec_base_domain() == base_domain@,
    {
        SubdomainTenantResolver { store, base_domain: base_domain.to_owned() }
    }

    /// The tenant store.
    pub fn store(&self) -> (s: &S)
        ensures
            *s == self.spec_store(),
    {
        &self.store
    }

    /// The base domain under which tenants have their subdomain.
    pub fn base_domain(&self) -> (d: &str)
        ensures
            d@ == self.spec_base_domain(),
    {
        self.base_domain.as_str()
    }

    /// Extract the subdomain from a `Host` header value.
    pub fn extract_subdomain(&self, host: &str) -> (res: Option<String>)
        ensures
            match subdomain_of(host@, self.spec_base_domain()) {
                Some(sub) => res matches Some(s) && s@ == sub,
                None => res is None,
            },
    {
        let h = prefix_before(host, ':');
        let suffix = concat(".", self.base_domain.as_str());
        proof {
            reveal_strlit(".");
            assert(suffix@ =~= seq!['.'] + self.spec_base_domain());
        }
        if !ends_with(h.as_str(), suffix.as_str()) {
            return None;
        }
        let hv = chars_of(h.as_str());
        let sv = chars_of(suffix.as_str());
        let sub = h.as_str().substring_char(0, hv.len() - sv.len());
        proof {
            assert(sub@ =~= h@.take(h@.len() - suffix@.len()));
        }
        if chars_of(sub).len() > 0 && !contains_char(sub, '.') {
            Some(sub.to_owned())
        } else {
            None
        }
    }

    /// The tenant name to look up, given the `Host` header (`None` when absent).
    pub fn subdomain_from_host(&self, host: Option<&str>) -> (res: Result<String, TenantError>)
        ensures
            host is None ==> (res matches Err(TenantError::ResolutionFailed(m)) && m@
                == "Missing Host header"@),
            host matches Some(h) ==> match subdomain_of(h@, self.spec_base_domain()) {
                Some(sub) => res matches Ok(s) && s@ == sub,
                None => res matches Err(TenantError::ResolutionFailed(m)) && m@ == "No subdomain in: "@
                    + h@,
            },
    {
        match host {
            None => Err(TenantError::ResolutionFailed("Missing Host header".to_owned())),
            Some(h) => match self.extract_subdomain(h) {
                Some(s) => Ok(s),
                None => Err(TenantError::ResolutionFailed(concat("No subdomain in: ", h))),
            },
        }
    }
}

// ---------------------------------------------------------------------------
// JWT claim
// ---------------------------------------------------------------------------

#[verifier::external_type_specification]
#[verifier::external_body]
pub struct ExDecodeError(base64::DecodeError);

#[verifier::external_type_specification]
#[verifier::external_body]
pub struct ExJsonError(serde_json::Error);

/// The member found under a claim name in a JSON payload.
pub enum ClaimView {
    Absent,
    NotText,
    Text(Seq<char>),
}

/// The member found under a claim name in a JSON payload.
#[derive(Debug)]
pub enum JsonClaim {
    /// The payload has no member of that name (or is not a JSON object).
    Absent,
    /// The member is not a JSON string.
    NotText,
    /// The member is the JSON string given.
    Text(String),
}

impl View for JsonClaim {
    type V = ClaimView;

    open spec fn view(&self) -> ClaimView {
        match self {
            JsonClaim::Absent => ClaimView::Absent,
            JsonClaim::NotText => ClaimView::NotText,
            JsonClaim::Text(s) => ClaimView::Text(s@),
        }
    }
}

/// The bytes that URL-safe base64 without padding decodes `text` to, or
/// `None` when the text is not such an encoding.
pub uninterp spec fn base64url_decoded(text: Seq<char>) -> Option<Seq<u8>>;

/// The member named `name` of the JSON document `payload`, or `None` when the
/// payload is not JSON.
pub uninterp spec fn json_claim_lookup(payload: Seq<u8>, name: Seq<char>) -> Option<ClaimView>;

/// Calls `base64::engine::general_purpose::URL_SAFE_NO_PAD.decode`. Trusted to
/// be a function of the text alone, named `base64url_decoded`.
#[verifier::external_body]
fn decode_base64url(text: &str) -> (res: Result<Vec<u8>, base64::DecodeError>)
    ensures
        res is Err <==> base64url_decoded(text@) is None,
        res matches Ok(b) ==> base64url_decoded(text@) == Some(b@),
{
    base64::engine::general_purpose::URL_SAFE_NO_PAD.decode(text)
}

/// Calls `serde_json::from_slice::<serde_json::Value>` on the payload and, when
/// it parses, `serde_json::Value::get` with the claim name, telling the
/// variants of the member apart. Trusted to be a function of the payload and
/// the name alone, named `json_claim_lookup`.
#[verifier::external_body]
fn lookup_json_claim(payload: &[u8], claim: &str) -> (res: Result<JsonClaim, serde_json::Error>)
    ensures
        res is Err <==> json_claim_lookup(payload@, claim@) is None,
        res matches Ok(c) ==> json_claim_lookup(payload@, claim@) == Some(c@),
{
    match serde_json::from_slice::<serde_json::Value>(payload) {
        Err(e) => Err(e),
        Ok(v) => Ok(
            match v.get(claim) {
                None => JsonClaim::Absent,
                Some(serde_json::Value::String(s)) => JsonClaim::Text(s.clone()),
                Some(_) => JsonClaim::NotText,
            },
        ),
    }
}

/// The payload segment of a compact JWS: the middle one of exactly three
/// `.`-separated segments.
pub open spec fn jwt_payload_segment(token: Seq<char>) -> Option<Seq<char>> {
    if count_char(token, '.') == 2 {
        let i = first_index_of(token, '.')->0;
        Some(before_first(token.skip(i + 1), '.'))
    } else {
        None
    }
}

pub open spec fn claim_not_text_message(claim: Seq<char>) -> Seq<char> {
    "JWT claim '"@ + claim + "' is not a non-empty string"@
}

pub open spec fn claim_missing_message(claim: Seq<char>) -> Seq<char> {
    "JWT is missing the '"@ + claim + "' claim"@
}

/// What extracting claim `claim` gives for the JSON lookup's answer.
pub open spec fn claim_result(
    claim: Seq<char>,
    lookup: Option<ClaimView>,
    res: Result<String, TenantError>,
) -> bool {
    match lookup {
        None => res matches Err(TenantError::Invalid(m)) && m@ == "Malformed JWT payload JSON"@,
        Some(ClaimView::Text(v)) => if v.len() > 0 {
            res matches Ok(s) && s@ == v
        } else {
            res matches Err(TenantError::Invalid(m)) && m@ == claim_not_text_message(claim)
        },
        Some(ClaimView::NotText) => res matches Err(TenantError::Invalid(m)) && m@
            == claim_not_text_message(claim),
        Some(ClaimView::Absent) => res matches Err(TenantError::ResolutionFailed(m)) && m@
            == claim_missing_message(claim),
    }
}

/// JWT claim-based tenant resolver.
///
/// It does not verify the token's signature: it reads the claim from the
/// payload of a token that an authentication layer must already have
/// verified. Malformed tokens fail closed with an error.
pub struct JwtTenantResolver<S> {
    store: S,
    claim_name: String,
}

impl<S> JwtTenantResolver<S> {
    pub closed spec fn spec_store(&self) -> S {
        self.store
    }

    pub closed spec fn spec_claim_name(&self) -> Seq<char> {
        self.claim_name@
    }

    /// Create new JWT-based resolver.
    pub fn new(store: S, claim_name: &str) -> (r: Self)
        ensures
            r.spec_store() == store,
            r.spec_claim_name() == claim_name@,
    {
        JwtTenantResolver { store, claim_name: claim_name.to_owned() }
    }

    /// The tenant store.
    pub fn store(&self) -> (s: &S)
        ensures
            *s == self.spec_store(),
    {
        &self.store
    }

    /// Name of the claim that carries the tenant id.
    pub fn claim_name(&self) -> (c: &str)
        ensures
            c@ == self.spec_claim_name(),
    {
        self.claim_name.as_str()
    }

    /// The bearer token of an `Authorization` header value (`None` when absent).
    pub fn token_from_header(&self, authorization: Option<&str>) -> (res: Result<String, TenantError>)
        ensures
            authorization is None ==> (res matches Err(TenantError::ResolutionFailed(m)) && m@
                == "Missing Authorization header"@),
            authorization matches Some(a) ==> if a@.len() >= 7 && a@.take(7) == "Bearer "@ {
                res matches Ok(t) && t@ == a@.skip(7)
            } else {
                res matches Err(TenantError::Invalid(m)) && m@ == "Invalid Authorization format"@
            },
    {
        match authorization {
            None => Err(TenantError::ResolutionFailed("Missing Authorization header".to_owned())),
            Some(a) => {
                proof {
                    reveal_strlit("Bearer ");
                }
                let v = chars_of(a);
                if crate::text::starts_with(a, "Bearer ") {
                    proof {
                        assert(a@.subrange(0, 7) =~= a@.take(7));
                    }
                    Ok(a.substring_char(7, v.len()).to_owned())
                } else {
                    proof {
                        if a@.len() >= 7 && a@.take(7) == "Bearer "@ {
                            assert(a@.subrange(0, 7) =~= a@.take(7));
                        }
                    }
                    Err(TenantError::Invalid("Invalid Authorization format".to_owned()))
                }
            },
        }
    }

    /// The claim's value for the answer of the JSON lookup.
    pub fn claim_value(&self, lookup: Result<JsonClaim, serde_json::Error>) -> (res: Result<
        String,
        TenantError,
    >)
        ensures
            claim_result(
                self.spec_claim_name(),
                match lookup {
                    Ok(c) => Some(c@),
                    Err(_) => None,
                },
                res,
            ),
    {
        match lookup {
            Err(_) => Err(TenantError::Invalid("Malformed JWT payload JSON".to_owned())),
            Ok(JsonClaim::Text(v)) => {
                if chars_of(v.as_str()).len() > 0 {
                    Ok(v)
                } else {
                    Err(
                        TenantError::Invalid(
                            concat3(
                                "JWT claim '",
                                self.claim_name.as_str(),
                                "' is not a non-empty string",
                            ),
                        ),
                    )
                }
            },
            Ok(JsonClaim::NotText) => Err(
                TenantError::Invalid(
                    concat3("JWT claim '", self.claim_name.as_str(), "' is not a non-empty string"),
                ),
            ),
            Ok(JsonClaim::Absent) => Err(
                TenantError::ResolutionFailed(
                    concat3("JWT is missing the '", self.claim_name.as_str(), "' claim"),
                ),
            ),
        }
    }

    /// The claim's value for the answer of the base64 decoding of the payload.
    pub fn claim_from_decoded(&self, decoded: Result<Vec<u8>, base64::DecodeError>) -> (res: Result<
        String,
        TenantError,
    >)
        ensures
            decoded is Err ==> (res matches Err(TenantError::Invalid(m)) && m@
                == "Malformed JWT payload encoding"@),
            decoded matches Ok(b) ==> claim_result(
                self.spec_claim_name(),
                json_claim_lookup(b@, self.spec_claim_name()),
                res,
            ),
    {
        match decoded {
            Err(_) => Err(TenantError::Invalid("Malformed JWT payload encoding".to_owned())),
            Ok(bytes) => {
                let lookup = lookup_json_claim(bytes.as_slice(), self.claim_name.as_str());
                self.claim_value(lookup)
            },
        }
    }

    /// Extract the configured claim from the payload of `token`, without
    /// verifying the signature. Fails closed on any malformed input.
    pub fn extract_claim(&self, token: &str) -> (res: Result<String, TenantError>)
        ensures
            match jwt_payload_segment(token@) {
                None => res matches Err(TenantError::Invalid(m)) && m@
                    == "Malformed JWT: expected three segments"@,
                Some(p) => match base64url_decoded(trim_end_char(p, '=')) {
                    None => res matches Err(TenantError::Invalid(m)) && m@
                        == "Malformed JWT payload encoding"@,
                    Some(b) => claim_result(
                        self.spec_claim_name(),
                        json_claim_lookup(b, self.spec_claim_name()),
                        res,
                    ),
                },
            },
    {
        if count_char_in(token, '.') != 2 {
            return Err(TenantError::Invalid("Malformed JWT: expected three segments".to_owned()));
        }
        let v = chars_of(token);
        proof {
            lemma_first_index_of(token@, '.');
            if !token@.contains('.') {
                assert(count_char(token@, '.') == 0) by {
                    lemma_count_absent(token@, '.');
                }
            }
        }
        let i = match index_of_char(&v, '.') {
            Some(i) => i,
            None => {
                return Err(TenantError::Invalid("Malformed JWT: expected three segments".to_owned()));
            },
        };
        let rest = token.substring_char(i + 1, v.len());
        let payload = prefix_before(rest, '.');
        let trimmed = trim_end_matches_char(payload.as_str(), '=');
        let decoded = decode_base64url(trimmed.as_str());
        self.claim_from_decoded(decoded)
    }
}

proof fn lemma_count_absent(s: Seq<char>, c: char)
    requires
        !s.contains(c),
    ensures
        count_char(s, c) == 0,
    decreases s.len(),
{
    if s.len() > 0 {
        assert(s.drop_last().len() < s.len());
        assert(!s.drop_last().contains(c)) by {
            if s.drop_last().contains(c) {
                let k = choose|k: int| 0 <= k < s.drop_last().len() && s.drop_last()[k] == c;
                assert(s[k] == c);
            }
        }
        lemma_count_absent(s.drop_last(), c);
        assert(s.last() == s[s.len() - 1]);
    }
}

// ---------------------------------------------------------------------------
// Path
// ---------------------------------------------------------------------------

#[verifier::external_type_specification]
#[verifier::external_body]
pub struct ExRegex(regex::Regex);

#[verifier::external_type_specification]
#[verifier::external_body]
pub struct ExRegexError(regex::Error);

/// Whether `pattern` is a regular expression that `regex::Regex::new` accepts.
pub uninterp spec fn regex_compiles(pattern: Seq<char>) -> bool;

/// What applying `pattern` to `text` captures in group `group`: `None` when
/// the pattern does not match, `Some(None)` when the group did not take part
/// in the match, otherwise the captured text.
pub uninterp spec fn regex_capture(pattern: Seq<char>, text: Seq<char>, group: usize) -> Option<
    Option<Seq<char>>,
>;

/// The texts of a capture answer.
pub open spec fn capture_view(c: Option<Option<String>>) -> Option<Option<Seq<char>>> {
    match c {
        None => None,
        Some(None) => Some(None),
        Some(Some(s)) => Some(Some(s@)),
    }
}

/// Calls `regex::Regex::new`. Trusted to succeed exactly on the patterns named
/// by `regex_compiles`, a function of the pattern alone.
#[verifier::external_body]
fn compile_pattern(pattern: &str) -> (res: Result<regex::Regex, regex::Error>)
    ensures
        res is Ok <==> regex_compiles(pattern@),
{
    regex::Regex::new(pattern)
}

/// Compiles `pattern` with `regex::Regex::new`, then calls `Regex::captures`
/// on `text` and `Captures::get` for `group`. Trusted: the answer is the one
/// named by `regex_capture`, a function of the three arguments alone, and a
/// captured text is a piece of `text` (`Match::as_str` slices the haystack).
#[verifier::external_body]
fn capture_group(pattern: &str, text: &str, group: usize) -> (res: Option<Option<String>>)
    requires
        regex_compiles(pattern@),
    ensures
        capture_view(res) == regex_capture(pattern@, text@, group),
        res matches Some(Some(s)) ==> contains_seq(text@, s@),
{
    match regex::Regex::new(pattern) {
        Err(_) => None,
        Ok(re) => match re.captures(text) {
            None => None,
            Some(caps) => match caps.get(group) {
                None => Some(None),
                Some(m) => Some(Some(m.as_str().to_owned())),
            },
        },
    }
}

/// The path of a request target, without its query string (`/a/b?x=1` -> `/a/b`).
pub fn path_only(target: &str) -> (res: String)
    ensures
        res@ == before_first(target@, '?'),
{
    prefix_before(target, '?')
}

/// The tenant-name answer for a capture answer.
pub open spec fn path_capture_result(
    capture: Option<Option<Seq<char>>>,
    res: Result<String, TenantError>,
) -> bool {
    match capture {
        None => res matches Err(TenantError::ResolutionFailed(m)) && m@ == "Path pattern not matched"@,
        Some(None) => res matches Err(TenantError::ResolutionFailed(m)) && m@
            == "Capture group not found"@,
        Some(Some(n)) => res matches Ok(s) && s@ == n,
    }
}

/// Path-based tenant resolver: a capture group of a regular expression
/// applied to the request path names the tenant (e.g. `/tenants/acme/users`).
/// The pattern is kept as text that is known to compile.
pub struct PathTenantResolver<S> {
    store: S,
    pattern: String,
    group_index: usize,
}

impl<S> PathTenantResolver<S> {
    #[verifier::type_invariant]
    spec fn pattern_compiles(self) -> bool {
        regex_compiles(self.pattern@)
    }

    pub closed spec fn spec_store(&self) -> S {
        self.store
    }

    pub closed spec fn spec_pattern(&self) -> Seq<char> {
        self.pattern@
    }

    pub closed spec fn spec_group_index(&self) -> usize {
        self.group_index
    }

    /// Create new path-based resolver; a pattern that does not compile is
    /// refused with the error of `regex::Regex::new`.
    pub fn new(store: S, pattern: &str, group_index: usize) -> (res: Result<Self, regex::Error>)
        ensures
            res is Ok <==> regex_compiles(pattern@),
            res matches Ok(r) ==> (r.spec_store() == store && r.spec_pattern() == pattern@
                && r.spec_group_index() == group_index),
    {
        match compile_pattern(pattern) {
            Ok(_) => Ok(PathTenantResolver { store, pattern: pattern.to_owned(), group_index }),
            Err(e) => Err(e),
        }
    }

    /// The tenant store.
    pub fn store(&self) -> (s: &S)
        ensures
            *s == self.spec_store(),
    {
        &self.store
    }

    /// The regular expression, as text.
    pub fn pattern(&self) -> (p: &str)
        ensures
            p@ == self.spec_pattern(),
    {
        self.pattern.as_str()
    }

    /// Index of the capture group that holds the tenant name.
    pub fn group_index(&self) -> (g: usize)
        ensures
            g == self.spec_group_index(),
    {
        self.group_index
    }

    /// The tenant name for the answer of the capture: `None` when the pattern
    /// did not match, `Some(None)` when the group is absent.
    pub fn tenant_name_from_capture(&self, capture: Option<Option<String>>) -> (res: Result<
        String,
        TenantError,
    >)
        ensures
            path_capture_result(capture_view(capture), res),
    {
        match capture {
            None => Err(TenantError::ResolutionFailed("Path pattern not matched".to_owned())),
            Some(None) => Err(TenantError::ResolutionFailed("Capture group not found".to_owned())),
            Some(Some(n)) => Ok(n),
        }
    }

    /// The tenant name to look up for a request path (without query string):
    /// the text the pattern captures in the configured group. A name found is
    /// always a piece of the path.
    pub fn tenant_name_for_path(&self, path: &str) -> (res: Result<String, TenantError>)
        ensures
            path_capture_result(
                regex_capture(self.spec_pattern(), path@, self.spec_group_index()),
                res,
            ),
            res matches Ok(n) ==> contains_seq(path@, n@),
    {
        proof {
            use_type_invariant(self);
        }
        let capture = capture_group(self.pattern.as_str(), path, self.group_index);
        self.tenant_name_from_capture(capture)
    }
}

} // verus!
