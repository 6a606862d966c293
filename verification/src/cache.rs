//! Tenant-scoped cache keys.
//!
//! Every key a tenant uses in a shared cache is the tenant's cache key
//! (`Tenant::cache_key`), so tenants never read, write or clear each other's
//! entries (see the laws in `tenant`).

use vstd::prelude::*;
use vstd::string::*;

use crate::tenant::{cache_key_of, Tenant};
use crate::text::concat;

verus! {

/// Cache errors.
#[derive(Debug)]
pub enum CacheError {
    Error(String),
    Serialization(String),
    Connection(String),
}

/// The text of a cache error, as its `Display` rendering reads.
pub open spec fn cache_error_text(e: CacheError) -> Seq<char> {
    match e {
        CacheError::Error(s) => "Cache error: "@ + s@,
        CacheError::Serialization(s) => "Serialization error: "@ + s@,
        CacheError::Connection(s) => "Connection error: "@ + s@,
    }
}

impl CacheError {
    /// Human-readable text of the error.
    pub fn message(&self) -> (res: String)
        ensures
            res@ == cache_error_text(*self),
    {
        match self {
            CacheError::Error(s) => concat("Cache error: ", s.as_str()),
            CacheError::Serialization(s) => concat("Serialization error: ", s.as_str()),
            CacheError::Connection(s) => concat("Connection error: ", s.as_str()),
        }
    }
}

/// Tenant-aware cache: a cache provider whose keys are always prefixed with
/// the tenant's cache-key prefix.
pub struct TenantCache<P> {
    provider: P,
}

impl<P> TenantCache<P> {
    pub closed spec fn spec_provider(&self) -> P {
        self.provider
    }

    /// Create new tenant cache with injected provider.
    pub fn new(provider: P) -> (c: Self)
        ensures
            c.spec_provider() == provider,
    {
        TenantCache { provider }
    }

    /// The cache provider.
    pub fn provider(&self) -> (p: &P)
        ensures
            *p == self.spec_provider(),
    {
        &self.provider
    }
}

/// `parts` joined with `sep` between consecutive parts.
pub open spec fn join_with(parts: Seq<Seq<char>>, sep: Seq<char>) -> Seq<char>
    decreases parts.len(),
{
    if parts.len() == 0 {
        Seq::empty()
    } else if parts.len() == 1 {
        parts[0]
    } else {
        join_with(parts.drop_last(), sep) + sep + parts.last()
    }
}

/// Cache key builder: colon-separated parts, optionally under a tenant prefix.
pub struct CacheKeyBuilder {
    parts: Vec<String>,
}

impl CacheKeyBuilder {
    /// The parts added so far, in order.
    pub closed spec fn spec_parts(&self) -> Seq<Seq<char>> {
        self.parts@.map_values(|p: String| p@)
    }

    /// Create new key builder.
    pub fn new() -> (b: Self)
        ensures
            b.spec_parts() == Seq::<Seq<char>>::empty(),
    {
        let b = CacheKeyBuilder { parts: Vec::new() };
        proof {
            assert(b.spec_parts() =~= Seq::<Seq<char>>::empty());
        }
        b
    }

    /// Add part to key.
    pub fn part(self, part: &str) -> (b: Self)
        ensures
            b.spec_parts() == self.spec_parts().push(part@),
    {
        let mut parts = self.parts;
        parts.push(part.to_owned());
        let b = CacheKeyBuilder { parts };
        proof {
            assert(b.spec_parts() =~= self.spec_parts().push(part@));
        }
        b
    }

    /// Build final key (without tenant prefix): the parts joined with `:`.
    pub fn build(&self) -> (res: String)
        ensures
            res@ == join_with(self.spec_parts(), seq![':']),
    {
        let ghost parts = self.spec_parts();
        let mut out = String::new();
        let mut i: usize = 0;
        proof {
            reveal_strlit(":");
            assert(":"@ =~= seq![':']);
            assert(parts.take(0) =~= Seq::<Seq<char>>::empty());
        }
        while i < self.parts.len()
            invariant
                parts == self.spec_parts(),
                ":"@ == seq![':'],
                i <= self.parts.len(),
                out@ == join_with(parts.take(i as int), seq![':']),
            decreases self.parts.len() - i,
        {
            proof {
                assert(parts.take(i + 1).drop_last() =~= parts.take(i as int));
                assert(parts.take(i + 1).last() == self.parts@[i as int]@);
            }
            let ghost before = out@;
            if i > 0 {
                out.append(":");
            }
            out.append(self.parts[i].as_str());
            proof {
                if i == 0 {
                    assert(parts.take(1) =~= seq![parts[0]]);
                } else {
                    assert(out@ =~= before + seq![':'] + parts[i as int]);
                }
                assert(out@ =~= join_with(parts.take(i + 1), seq![':']));
            }
            i = i + 1;
        }
        proof {
            assert(parts.take(self.parts.len() as int) =~= parts);
        }
        out
    }

    /// Build final key with the tenant's prefix.
    pub fn build_for_tenant(&self, tenant: &Tenant) -> (res: String)
        ensures
            res@ == cache_key_of(tenant.id@, join_with(self.spec_parts(), seq![':'])),
    {
        let key = self.build();
        tenant.cache_key(key.as_str())
    }
}

impl Default for CacheKeyBuilder {
    fn default() -> (b: Self)
        ensures
            b.spec_parts() == Seq::<Seq<char>>::empty(),
    {
        CacheKeyBuilder::new()
    }
}

} // verus!
