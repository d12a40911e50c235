//! Route and middleware configurations registered by juno functions.

use vstd::prelude::*;

verus! {

/// The kind of handler a configuration installs: one HTTP method, or a
/// middleware (`Use`) that runs for every route under its path.
#[derive(Clone, Copy, Debug, PartialEq, Eq, Structural)]
pub enum MiddlewareType {
    Delete,
    Get,
    Options,
    Patch,
    Post,
    Put,
    Use,
}

/// The upper-case name of a handler kind, as HTTP writes method names.
pub open spec fn capitalized_name(t: MiddlewareType) -> Seq<char> {
    match t {
        MiddlewareType::Delete => "DELETE"@,
        MiddlewareType::Get => "GET"@,
        MiddlewareType::Options => "OPTIONS"@,
        MiddlewareType::Patch => "PATCH"@,
        MiddlewareType::Post => "POST"@,
        MiddlewareType::Put => "PUT"@,
        MiddlewareType::Use => "USE"@,
    }
}

impl MiddlewareType {
    /// The handler kind's name in capitals (`"GET"`, `"USE"`, ...).
    pub fn to_capitalized_string(&self) -> (r: &'static str)
        ensures
            r@ == capitalized_name(*self),
    {
        match self {
            MiddlewareType::Delete => "DELETE",
            MiddlewareType::Get => "GET",
            MiddlewareType::Options => "OPTIONS",
            MiddlewareType::Patch => "PATCH",
            MiddlewareType::Post => "POST",
            MiddlewareType::Put => "PUT",
            MiddlewareType::Use => "USE",
        }
    }
}

/// Each handler kind has its own name, so a request's method names at most
/// one kind.
pub proof fn lemma_capitalized_names_distinct(a: MiddlewareType, b: MiddlewareType)
    ensures
        capitalized_name(a) == capitalized_name(b) ==> a == b,
{
    reveal_strlit("DELETE");
    reveal_strlit("GET");
    reveal_strlit("OPTIONS");
    reveal_strlit("PATCH");
    reveal_strlit("POST");
    reveal_strlit("PUT");
    reveal_strlit("USE");
    if capitalized_name(a) == capitalized_name(b) {
        let x = capitalized_name(a);
        assert(x.len() == capitalized_name(b).len());
        if x.len() > 0 {
            assert(x[0] == capitalized_name(b)[0]);
        }
        if x.len() > 1 {
            assert(x[1] == capitalized_name(b)[1]);
        }
    }
}

/// A handler registered by a juno function: the kind of handler, the juno
/// function to call, and the path it is bound to.
#[derive(Debug, PartialEq, Eq)]
pub struct HttpConfig {
    pub config_type: MiddlewareType,
    pub func_name: String,
    pub path: String,
}

impl Clone for HttpConfig {
    fn clone(&self) -> (r: Self)
        ensures
            r == *self,
    {
        HttpConfig {
            config_type: self.config_type,
            func_name: self.func_name.clone(),
            path: self.path.clone(),
        }
    }
}

/// A copy of a list of configurations, entry for entry.
pub fn clone_configs(configs: &Vec<HttpConfig>) -> (r: Vec<HttpConfig>)
    ensures
        r@ == configs@,
{
    let mut out: Vec<HttpConfig> = Vec::new();
    let mut i: usize = 0;
    while i < configs.len()
        invariant
            i <= configs@.len(),
            out@ == configs@.take(i as int),
        decreases configs@.len() - i,
    {
        out.push(configs[i].clone());
        assert(configs@.take(i + 1) =~= configs@.take(i as int).push(configs@[i as int]));
        i = i + 1;
    }
    assert(configs@.take(configs@.len() as int) =~= configs@);
    out
}

} // verus!
