//! Tenant middleware decisions: which client headers are stripped before
//! resolution, and what happens to a request once resolution has answered.

use vstd::prelude::*;
use vstd::string::*;

use crate::resolver::{tenant_error_text, TenantError};
use crate::tenant::{Tenant, TenantContext};
use crate::text::{ascii_lower, chars_of, concat};

verus! {

/// `__tenant`, the header-name prefix that once carried the resolved tenant.
pub open spec fn internal_tenant_prefix() -> Seq<char> {
    seq!['_', '_', 't', 'e', 'n', 'a', 'n', 't']
}

/// A header name whose first eight characters are `__tenant`, ignoring ASCII
/// case. Such headers are client noise and are removed before resolution.
pub open spec fn is_internal_tenant_header(name: Seq<char>) -> bool {
    &&& name.len() >= 8
    &&& forall|i: int| 0 <= i < 8 ==> ascii_lower(#[trigger] name[i]) == internal_tenant_prefix()[i]
}

fn lower_char(c: char) -> (r: char)
    ensures
        r == ascii_lower(c),
{
    if 'A' <= c && c <= 'Z' {
        ((c as u8) + 32) as char
    } else {
        c
    }
}

/// Whether `name` starts with `__tenant`, ignoring ASCII case.
pub fn is_internal_tenant_header_name(name: &str) -> (res: bool)
    ensures
        res == is_internal_tenant_header(name@),
{
    let v = chars_of(name);
    if v.len() < 8 {
        return false;
    }
    let prefix = ['_', '_', 't', 'e', 'n', 'a', 'n', 't'];
    proof {
        assert(prefix@ =~= internal_tenant_prefix());
    }
    let mut i: usize = 0;
    while i < 8
        invariant
            v@ == name@,
            v@.len() >= 8,
            prefix@ == internal_tenant_prefix(),
            i <= 8,
            forall|j: int| 0 <= j < i ==> ascii_lower(#[trigger] v@[j]) == internal_tenant_prefix()[j],
        decreases 8 - i,
    {
        if lower_char(v[i]) != prefix[i] {
            return false;
        }
        i = i + 1;
    }
    true
}

/// The names, among `names`, of the headers to strip, in their order.
pub fn internal_tenant_headers(names: &Vec<String>) -> (res: Vec<String>)
    ensures
        res@ == names@.filter(|n: String| is_internal_tenant_header(n@)),
{
    let ghost pred = |n: String| is_internal_tenant_header(n@);
    let mut out: Vec<String> = Vec::new();
    let mut i: usize = 0;
    proof {
        reveal_with_fuel(Seq::<_>::filter, 1);
        assert(names@.take(0).filter(pred) =~= Seq::<String>::empty());
    }
    while i < names.len()
        invariant
            i <= names.len(),
            pred == (|n: String| is_internal_tenant_header(n@)),
            out@ == names@.take(i as int).filter(pred),
        decreases names.len() - i,
    {
        proof {
            assert(names@.take(i + 1).drop_last() =~= names@.take(i as int));
            assert(names@.take(i + 1).last() == names@[i as int]);
        }
        let ghost before = out@;
        if is_internal_tenant_header_name(names[i].as_str()) {
            out.push(names[i].clone());
        }
        proof {
            let t = names@.take(i + 1);
            reveal_with_fuel(Seq::<_>::filter, 1);
            assert(t.filter(pred) == if pred(t.last()) {
                t.drop_last().filter(pred).push(t.last())
            } else {
                t.drop_last().filter(pred)
            });
            assert(out@ =~= t.filter(pred));
        }
        i = i + 1;
    }
    proof {
        reveal_with_fuel(Seq::<_>::filter, 1);
        assert(names@.take(names.len() as int) =~= names@);
    }
    out
}

/// What to do with a request after tenant resolution has answered.
#[derive(Debug)]
pub enum MiddlewareDecision {
    /// Hand the request on, with this context stored in its extensions.
    Continue(TenantContext),
    /// Hand the request on with no tenant context at all.
    ContinueAnonymous,
    /// Refuse the request as unauthorized, with this message.
    Reject(String),
}

/// Tenant middleware: resolves the tenant of every request and stores it in
/// the request's server-side context; unresolved requests are refused unless
/// resolution is optional.
pub struct TenantMiddleware<R> {
    resolver: R,
    optional: bool,
}

impl<R> TenantMiddleware<R> {
    pub closed spec fn spec_resolver(&self) -> R {
        self.resolver
    }

    pub closed spec fn spec_optional(&self) -> bool {
        self.optional
    }

    /// Create new tenant middleware; resolution is required.
    pub fn new(resolver: R) -> (m: Self)
        ensures
            m.spec_resolver() == resolver,
            !m.spec_optional(),
    {
        TenantMiddleware { resolver, optional: false }
    }

    /// Make tenant resolution optional (or required again).
    pub fn with_optional(self, optional: bool) -> (m: Self)
        ensures
            m.spec_resolver() == self.spec_resolver(),
            m.spec_optional() == optional,
    {
        TenantMiddleware { resolver: self.resolver, optional }
    }

    /// The resolver.
    pub fn resolver(&self) -> (r: &R)
        ensures
            *r == self.spec_resolver(),
    {
        &self.resolver
    }

    /// Whether unresolved requests proceed.
    pub fn is_optional(&self) -> (b: bool)
        ensures
            b == self.spec_optional(),
    {
        self.optional
    }

    /// The decision for the resolver's answer. A resolved tenant is the only
    /// tenant a request ever carries; a failed resolution never leaves a
    /// tenant behind.
    pub fn decide(&self, outcome: Result<Tenant, TenantError>) -> (d: MiddlewareDecision)
        ensures
            outcome matches Ok(t) ==> (d matches MiddlewareDecision::Continue(c) && c.current()
                == Some(t)),
            outcome is Err && self.spec_optional() ==> d is ContinueAnonymous,
            !self.spec_optional() ==> (outcome matches Err(e) ==> (d matches MiddlewareDecision::Reject(
                m,
            ) && m@ == "Tenant resolution failed: "@ + tenant_error_text(e))),
    {
        match outcome {
            Ok(t) => MiddlewareDecision::Continue(TenantContext::with_tenant(t)),
            Err(e) => {
                if self.optional {
                    MiddlewareDecision::ContinueAnonymous
                } else {
                    let text = e.message();
                    MiddlewareDecision::Reject(concat("Tenant resolution failed: ", text.as_str()))
                }
            },
        }
    }
}

} // verus!
