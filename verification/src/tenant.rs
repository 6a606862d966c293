//! Tenant identity and the request-scoped tenant context.

use vstd::prelude::*;
use vstd::string::*;

use crate::keyed_map::KeyedMap;
use crate::resolver::TenantError;
use crate::text::{
    byte_len, chars_of, concat3, decimal, decimal_string, has_prefix, is_digit, lemma_byte_len_strict_prefix,
    lemma_decimal_digits, lemma_decimal_injective,
};

verus! {

/// Maximum length of a PostgreSQL identifier (`NAMEDATALEN - 1`).
pub const MAX_IDENTIFIER_LEN: usize = 63;

/// First character of an unquoted SQL identifier.
pub open spec fn is_ident_start(c: char) -> bool {
    ('a' <= c && c <= 'z') || ('A' <= c && c <= 'Z') || c == '_'
}

/// Later character of an unquoted SQL identifier.
pub open spec fn is_ident_char(c: char) -> bool {
    is_ident_start(c) || ('0' <= c && c <= '9')
}

/// `[A-Za-z_][A-Za-z0-9_]*`, between 1 and 63 characters. Such names are pure
/// ASCII, so the character count equals the byte count.
pub open spec fn valid_schema_name(s: Seq<char>) -> bool {
    &&& 0 < s.len() <= MAX_IDENTIFIER_LEN
    &&& is_ident_start(s[0])
    &&& forall|i: int| 1 <= i < s.len() ==> is_ident_char(#[trigger] s[i])
}

/// Whether `name` is safe to interpolate into SQL as a bare schema identifier.
pub fn is_valid_schema_name(name: &str) -> (res: bool)
    ensures
        res == valid_schema_name(name@),
{
    let v = chars_of(name);
    if v.len() == 0 || v.len() > MAX_IDENTIFIER_LEN {
        return false;
    }
    let first = v[0];
    if !(('a' <= first && first <= 'z') || ('A' <= first && first <= 'Z') || first == '_') {
        return false;
    }
    let mut i: usize = 1;
    while i < v.len()
        invariant
            v@ == name@,
            1 <= i <= v.len(),
            forall|j: int| 1 <= j < i ==> is_ident_char(#[trigger] v@[j]),
        decreases v.len() - i,
    {
        let c = v[i];
        if !(('a' <= c && c <= 'z') || ('A' <= c && c <= 'Z') || c == '_' || ('0' <= c && c
            <= '9')) {
            return false;
        }
        i = i + 1;
    }
    true
}

/// The constant head of every tenant cache key.
pub open spec fn cache_key_head() -> Seq<char> {
    seq!['t', 'e', 'n', 'a', 'n', 't', ':']
}

/// `tenant:{byte length of id}:{id}:{key}`, as produced by [`Tenant::cache_key`].
/// The length is the byte length as `str::len` reports it.
pub open spec fn cache_key_of(id: Seq<char>, key: Seq<char>) -> Seq<char> {
    cache_key_head() + decimal((byte_len(id) as usize) as nat) + seq![':'] + id + seq![':'] + key
}

/// Debug rendering of a string, as `{:?}` prints it.
pub uninterp spec fn debug_repr(s: Seq<char>) -> Seq<char>;

/// Calls `format!("{:?}", s)`, std's `Debug` for `str`. Trusted: the result
/// is whatever that formatting produces for these characters.
#[verifier::external_body]
fn debug_quoted(s: &str) -> (res: String)
    ensures
        res@ == debug_repr(s@),
{
    format!("{:?}", s)
}

/// Tenant information.
#[derive(Clone, Debug, PartialEq, Eq)]
#[non_exhaustive]
pub struct Tenant {
    /// Unique tenant identifier
    pub id: String,
    /// Tenant name/slug
    pub name: String,
    /// Human-readable display name (distinct from the slug in `name`)
    pub display_name: Option<String>,
    /// Tenant domain (if using subdomain isolation)
    pub domain: Option<String>,
    /// Database name (for database-per-tenant)
    pub database: Option<String>,
    /// Schema name (for schema-per-tenant)
    pub schema: Option<String>,
    /// Whether tenant is active
    pub active: bool,
    /// Additional metadata
    pub metadata: KeyedMap<String>,
}

/// The error text for a rejected schema name.
pub open spec fn invalid_schema_message(schema: Seq<char>) -> Seq<char> {
    "Invalid schema name: "@ + debug_repr(schema) + " (expected an unquoted SQL identifier)"@
}

impl Tenant {
    /// Create a new, active tenant with no optional settings.
    pub fn new(id: &str, name: &str) -> (t: Self)
        ensures
            t.id@ == id@,
            t.name@ == name@,
            t.display_name is None,
            t.domain is None,
            t.database is None,
            t.schema is None,
            t.active,
            t.metadata@ == Map::<Seq<char>, String>::empty(),
    {
        Tenant {
            id: id.to_owned(),
            name: name.to_owned(),
            display_name: None,
            domain: None,
            database: None,
            schema: None,
            active: true,
            metadata: KeyedMap::new(),
        }
    }

    /// Set the human-readable display name.
    pub fn with_display_name(self, display_name: &str) -> (t: Self)
        ensures
            t == (Tenant { display_name: t.display_name, ..self }),
            t.display_name matches Some(d) && d@ == display_name@,
    {
        let mut t = self;
        t.display_name = Some(display_name.to_owned());
        t
    }

    /// Set tenant domain.
    pub fn with_domain(self, domain: &str) -> (t: Self)
        ensures
            t == (Tenant { domain: t.domain, ..self }),
            t.domain matches Some(d) && d@ == domain@,
    {
        let mut t = self;
        t.domain = Some(domain.to_owned());
        t
    }

    /// Set database name.
    pub fn with_database(self, database: &str) -> (t: Self)
        ensures
            t == (Tenant { database: t.database, ..self }),
            t.database matches Some(d) && d@ == database@,
    {
        let mut t = self;
        t.database = Some(database.to_owned());
        t
    }

    /// Set schema name, which must be a plain unquoted SQL identifier of at
    /// most 63 bytes; anything else is refused with `TenantError::Invalid`.
    pub fn with_schema(self, schema: &str) -> (res: Result<Self, TenantError>)
        ensures
            valid_schema_name(schema@) <==> res is Ok,
            res matches Ok(t) ==> t == (Tenant { schema: t.schema, ..self }),
            res matches Ok(t) ==> (t.schema matches Some(s) && s@ == schema@),
            res matches Err(e) ==> (e matches TenantError::Invalid(m) && m@ == invalid_schema_message(
                schema@,
            )),
    {
        if !is_valid_schema_name(schema) {
            let q = debug_quoted(schema);
            let msg = concat3("Invalid schema name: ", q.as_str(), " (expected an unquoted SQL identifier)");
            return Err(TenantError::Invalid(msg));
        }
        let mut t = self;
        t.schema = Some(schema.to_owned());
        Ok(t)
    }

    /// Set active status.
    pub fn with_active(self, active: bool) -> (t: Self)
        ensures
            t == (Tenant { active, ..self }),
    {
        let mut t = self;
        t.active = active;
        t
    }

    /// Add (or replace) a metadata entry.
    pub fn with_metadata(self, key: &str, value: &str) -> (t: Self)
        ensures
            t == (Tenant { metadata: t.metadata, ..self }),
            t.metadata@.dom() == self.metadata@.dom().insert(key@),
            t.metadata@[key@]@ == value@,
            forall|k: Seq<char>| k != key@ && #[trigger] self.metadata@.contains_key(k) ==> t.metadata@[k] == self.metadata@[k],
    {
        let mut t = self;
        t.metadata.insert(key.to_owned(), value.to_owned());
        t
    }

    /// Cache key for this tenant: `tenant:{id.len()}:{id}:{key}`.
    ///
    /// The `id` segment is length-prefixed so that no `(id, key)` pair can
    /// produce the key of a different pair, whatever characters they hold
    /// (see `lemma_cache_key_injective`).
    pub fn cache_key(&self, key: &str) -> (res: String)
        ensures
            res@ == cache_key_of(self.id@, key@),
    {
        let n = self.id.as_str().len();
        let digits = decimal_string(n as u64);
        proof {
            reveal_strlit("tenant:");
            reveal_strlit(":");
        }
        let mut s = "tenant:".to_owned();
        s.append(digits.as_str());
        s.append(":");
        s.append(self.id.as_str());
        s.append(":");
        s.append(key);
        proof {
            assert(s@ =~= cache_key_of(self.id@, key@));
        }
        s
    }
}

/// Tenant context stored in a request.
#[derive(Clone, Debug)]
pub struct TenantContext {
    tenant: Option<Tenant>,
}

impl TenantContext {
    /// The tenant held by this context.
    pub closed spec fn current(&self) -> Option<Tenant> {
        self.tenant
    }

    /// Create empty tenant context.
    pub fn new() -> (c: Self)
        ensures
            c.current() is None,
    {
        TenantContext { tenant: None }
    }

    /// Create with tenant.
    pub fn with_tenant(tenant: Tenant) -> (c: Self)
        ensures
            c.current() == Some(tenant),
    {
        TenantContext { tenant: Some(tenant) }
    }

    /// Get tenant.
    pub fn tenant(&self) -> (res: Option<&Tenant>)
        ensures
            res is Some <==> self.current() is Some,
            res matches Some(t) ==> self.current() == Some(*t),
    {
        match &self.tenant {
            Some(t) => Some(t),
            None => None,
        }
    }

    /// Set tenant.
    pub fn set_tenant(&mut self, tenant: Tenant)
        ensures
            final(self).current() == Some(tenant),
    {
        self.tenant = Some(tenant);
    }

    /// Get tenant ID.
    pub fn tenant_id(&self) -> (res: Option<&str>)
        ensures
            res is Some <==> self.current() is Some,
            res matches Some(id) ==> id@ == self.current()->0.id@,
    {
        match &self.tenant {
            Some(t) => Some(t.id.as_str()),
            None => None,
        }
    }

    /// Check if tenant is set.
    pub fn has_tenant(&self) -> (res: bool)
        ensures
            res == self.current() is Some,
    {
        self.tenant.is_some()
    }
}

impl Default for TenantContext {
    fn default() -> (c: Self)
        ensures
            c.current() is None,
    {
        TenantContext::new()
    }
}

// ---------------------------------------------------------------------------
// Laws of tenant cache keys
// ---------------------------------------------------------------------------

/// Core of the key laws: if the header `tenant:{n1}:{id1}:` of one key is a
/// prefix of another key built for `id2`, the two ids are equal.
proof fn lemma_key_header_determines_id(id1: Seq<char>, id2: Seq<char>, key2: Seq<char>)
    requires
        byte_len(id1) <= usize::MAX,
        byte_len(id2) <= usize::MAX,
        has_prefix(cache_key_of(id2, key2), cache_key_of(id1, Seq::empty())),
    ensures
        id1 == id2,
{
    let h = cache_key_head();
    let d1 = decimal(byte_len(id1));
    let d2 = decimal(byte_len(id2));
    let s1 = cache_key_of(id1, Seq::empty());
    let s2 = cache_key_of(id2, key2);
    let n1 = d1.len() as int;
    let n2 = d2.len() as int;
    lemma_decimal_digits(byte_len(id1));
    lemma_decimal_digits(byte_len(id2));
    assert(s1 =~= h + d1 + seq![':'] + id1 + seq![':']);
    assert(s2 =~= h + d2 + seq![':'] + id2 + seq![':'] + key2);
    let len1 = s1.len() as int;
    assert(s2.subrange(0, len1) == s1);
    assert forall|i: int| 0 <= i < len1 implies s2[i] == s1[i] by {
        assert(s2.subrange(0, len1)[i] == s2[i]);
    }
    // The digit runs have the same length: the first ':' after the head ends them.
    if n1 < n2 {
        assert(s1[7 + n1] == ':');
        assert(s2[7 + n1] == d2[n1]);
        assert(is_digit(d2[n1]));
        assert(false);
    }
    if n2 < n1 {
        assert(s2[7 + n2] == ':');
        assert(s1[7 + n2] == d1[n2]);
        assert(is_digit(d1[n2]));
        assert(false);
    }
    assert(d1 =~= d2) by {
        assert forall|i: int| 0 <= i < n1 implies d1[i] == d2[i] by {
            assert(s1[7 + i] == d1[i]);
            assert(s2[7 + i] == d2[i]);
        }
    }
    lemma_decimal_injective(byte_len(id1), byte_len(id2));
    let b = 8 + n1;
    let k1 = id1.len() as int;
    let k2 = id2.len() as int;
    assert forall|j: int| 0 <= j < k1 && j < k2 implies id1[j] == id2[j] by {
        assert(s1[b + j] == id1[j]);
        assert(s2[b + j] == id2[j]);
    }
    if k1 < k2 {
        assert(id2.take(k1) =~= id1);
        lemma_byte_len_strict_prefix(id1, id2);
        assert(false);
    }
    if k2 < k1 {
        assert(id1.take(k2) =~= id2);
        lemma_byte_len_strict_prefix(id2, id1);
        assert(false);
    }
    assert(id1 =~= id2);
}

/// Distinct `(id, key)` pairs never produce the same cache key, whatever
/// characters (including `':'`) the id or the key contain.
pub proof fn lemma_cache_key_injective(id1: Seq<char>, key1: Seq<char>, id2: Seq<char>, key2: Seq<char>)
    requires
        byte_len(id1) <= usize::MAX,
        byte_len(id2) <= usize::MAX,
        cache_key_of(id1, key1) == cache_key_of(id2, key2),
    ensures
        id1 == id2,
        key1 == key2,
{
    let s1 = cache_key_of(id1, key1);
    let p1 = cache_key_of(id1, Seq::empty());
    assert(s1 =~= p1 + key1);
    assert(s1.subrange(0, p1.len() as int) =~= p1);
    lemma_key_header_determines_id(id1, id2, key2);
    assert(key1 =~= s1.skip(p1.len() as int));
    assert(key2 =~= cache_key_of(id2, key2).skip(p1.len() as int));
}

/// Every cache key of a tenant starts with that tenant's key prefix
/// (`cache_key("")`), and the prefix of one tenant never starts a key of a
/// tenant with a different id: prefix-scoped clearing never reaches another
/// tenant's keys.
pub proof fn lemma_cache_prefix_isolates_tenants(id1: Seq<char>, id2: Seq<char>, key: Seq<char>)
    requires
        byte_len(id1) <= usize::MAX,
        byte_len(id2) <= usize::MAX,
    ensures
        has_prefix(cache_key_of(id1, key), cache_key_of(id1, Seq::empty())),
        has_prefix(cache_key_of(id2, key), cache_key_of(id1, Seq::empty())) ==> id1 == id2,
{
    let p1 = cache_key_of(id1, Seq::empty());
    assert(cache_key_of(id1, key) =~= p1 + key);
    assert((p1 + key).subrange(0, p1.len() as int) =~= p1);
    if has_prefix(cache_key_of(id2, key), p1) {
        lemma_key_header_determines_id(id1, id2, key);
    }
}

} // verus!
