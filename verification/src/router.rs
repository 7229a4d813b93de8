use vstd::prelude::*;
use vstd::string::StringExecFns;

use crate::errors::{ConfigError, SylphError};
use crate::matcher::{
    capture_group_names, capture_group_value, compile_regex, named_params, named_params_upto,
    new_regex_set, regex_group_names, regex_match, regex_set_first_match, regex_set_is_match,
    regex_source, regex_valid, regexset_patterns, regexset_valid, str_starts_with_char,
};
use crate::method::Method;
use crate::params::Params;

verus! {

/// A registered path pattern is never empty and always starts with `/`.
pub open spec fn valid_path(p: Seq<char>) -> bool {
    p.len() > 0 && p[0] == '/'
}

/// The key under which a handler is registered: an HTTP method together with
/// a path pattern.
#[derive(Debug, Clone)]
pub struct Route {
    pub method: Method,
    pub path: String,
}

/// One registered binding, as the specifications see it: method, path
/// pattern, handler.
pub type Binding<H> = (Method, Seq<char>, H);

/// No two bindings share a (method, pattern) key.
pub open spec fn unique_keys<H>(s: Seq<Binding<H>>) -> bool {
    forall|i: int, j: int|
        0 <= i < j < s.len() ==> !(s[i].0 == s[j].0 && s[i].1 == s[j].1)
}

/// The path patterns of the bindings, in registration order.
pub open spec fn patterns_of<H>(s: Seq<Binding<H>>) -> Seq<Seq<char>> {
    s.map_values(|b: Binding<H>| b.1)
}

/// The first index at or after `k` whose binding carries the key
/// `(m, p)`, or the length of `s` when there is none.
pub open spec fn binding_index_from<H>(s: Seq<Binding<H>>, m: Method, p: Seq<char>, k: int) -> int
    decreases s.len() - k,
{
    if k < 0 || k >= s.len() {
        s.len() as int
    } else if s[k].0 == m && s[k].1 == p {
        k
    } else {
        binding_index_from(s, m, p, k + 1)
    }
}

/// Whether some binding carries the key `(m, p)`.
pub open spec fn has_binding<H>(s: Seq<Binding<H>>, m: Method, p: Seq<char>) -> bool {
    binding_index_from(s, m, p, 0) < s.len()
}

/// The handler bound to the key `(m, p)`, if any.
pub open spec fn binding_of<H>(s: Seq<Binding<H>>, m: Method, p: Seq<char>) -> Option<H> {
    if has_binding(s, m, p) {
        Some(s[binding_index_from(s, m, p, 0)].2)
    } else {
        None
    }
}

/// What registering `(m, p) -> h` does to the store: the binding under the
/// same key is replaced in place, keeping its position; a fresh key goes to
/// the end. The last registration for a key always wins.
pub open spec fn insert_binding<H>(s: Seq<Binding<H>>, m: Method, p: Seq<char>, h: H) -> Seq<
    Binding<H>,
> {
    if has_binding(s, m, p) {
        s.update(binding_index_from(s, m, p, 0), (m, p, h))
    } else {
        s.push((m, p, h))
    }
}

/// The first index at or after `k` whose pattern matches `text`, or the
/// length of `pats` when no pattern does.
pub open spec fn first_match_from(pats: Seq<Seq<char>>, text: Seq<char>, k: int) -> int
    decreases pats.len() - k,
{
    if k < 0 || k >= pats.len() {
        pats.len() as int
    } else if regex_match(pats[k], text) {
        k
    } else {
        first_match_from(pats, text, k + 1)
    }
}

/// What mounting does to the store: every binding of `others`, in order, is
/// registered into `s` under its pattern rewritten to `prefix + pattern`,
/// with its original handler.
pub open spec fn mount_seq<H>(
    s: Seq<Binding<H>>,
    prefix: Seq<char>,
    others: Seq<Binding<H>>,
) -> Seq<Binding<H>>
    decreases others.len(),
{
    if others.len() == 0 {
        s
    } else {
        mount_seq(
            insert_binding(s, others[0].0, prefix + others[0].1, others[0].2),
            prefix,
            others.drop_first(),
        )
    }
}

proof fn lemma_binding_index_from<H>(s: Seq<Binding<H>>, m: Method, p: Seq<char>, st: int, k: int)
    requires
        0 <= st <= k <= s.len(),
        forall|j: int| st <= j < k ==> !(s[j].0 == m && s[j].1 == p),
        k < s.len() ==> s[k].0 == m && s[k].1 == p,
    ensures
        binding_index_from(s, m, p, st) == if k < s.len() {
            k
        } else {
            s.len() as int
        },
    decreases k - st,
{
    if st < k {
        lemma_binding_index_from(s, m, p, st + 1, k);
    }
}

proof fn lemma_first_match_from(pats: Seq<Seq<char>>, text: Seq<char>, st: int, k: int)
    requires
        0 <= st <= k <= pats.len(),
        forall|j: int| st <= j < k ==> !regex_match(pats[j], text),
        k < pats.len() ==> regex_match(pats[k], text),
    ensures
        first_match_from(pats, text, st) == if k < pats.len() {
            k
        } else {
            pats.len() as int
        },
    decreases k - st,
{
    if st < k {
        lemma_first_match_from(pats, text, st + 1, k);
    }
}

/// The regex-backed router under its strategy name: patterns are regexes,
/// matched through one combined set.
pub type RegexRouter<H> = Router<H>;

/// The router: a pattern store mapping (method, path pattern) to a handler,
/// and, once built, a compiled matcher over the pattern list.
///
/// Handlers are an opaque `Copy` capability — typically a function pointer —
/// that the router hands back on resolution.
pub struct Router<H> {
    routes: Vec<(Route, H)>,
    paths: Vec<String>,
    regexes: Vec<regex::Regex>,
    regexset: Option<regex::RegexSet>,
}

impl<H> Router<H> {
    /// The registered bindings, in registration order.
    pub closed spec fn route_seq(self) -> Seq<Binding<H>> {
        self.routes@.map_values(|e: (Route, H)| (e.0.method, e.0.path@, e.1))
    }

    /// Whether `build` has completed: only then may requests be resolved, and
    /// from then on the router is read-only.
    pub closed spec fn built(self) -> bool {
        self.regexset is Some
    }

    /// Well-formedness: keys are unique, every pattern is a valid path, and
    /// after `build` the compiled matcher's pattern list is the store's
    /// pattern list, in registration order, every pattern compiled.
    pub closed spec fn wf(self) -> bool {
        &&& unique_keys(self.route_seq())
        &&& (forall|i: int|
            0 <= i < self.route_seq().len() ==> valid_path(#[trigger] self.route_seq()[i].1))
        &&& self.paths@.len() == (if self.built() {
            self.routes@.len() as int
        } else {
            0
        })
        &&& self.regexes@.len() == self.paths@.len()
        &&& (forall|i: int|
            0 <= i < self.paths@.len() ==> (#[trigger] self.paths@[i])@ == self.route_seq()[i].1)
        &&& (forall|i: int|
            0 <= i < self.regexes@.len() ==> regex_source(#[trigger] self.regexes@[i])
                == self.route_seq()[i].1 && regex_valid(self.route_seq()[i].1))
        &&& (self.regexset matches Some(rs) ==> regexset_patterns(rs) == patterns_of(
            self.route_seq(),
        ))
    }

    /// Law: a well-formed router's bindings carry pairwise-distinct
    /// (method, pattern) keys, and every registered pattern is a valid
    /// path. Exported so that callers of the store-level lemmas can
    /// discharge their premises from `wf` alone.
    pub proof fn lemma_wf_keys(self)
        requires
            self.wf(),
        ensures
            unique_keys(self.route_seq()),
            forall|i: int|
                0 <= i < self.route_seq().len() ==> valid_path(#[trigger] self.route_seq()[i].1),
    {
    }
}

impl<H: Copy> Router<H> {
    /// An empty, unbuilt router.
    pub fn new() -> (r: Router<H>)
        ensures
            r.wf(),
            !r.built(),
            r.route_seq() == Seq::<Binding<H>>::empty(),
    {
        let r = Router { routes: Vec::new(), paths: Vec::new(), regexes: Vec::new(), regexset: None };
        proof {
            assert(r.route_seq() =~= Seq::<Binding<H>>::empty());
        }
        r
    }

    /// Registers `handler` under `(method, path)`. A path that is empty or
    /// does not start with `/` is a configuration error and changes nothing;
    /// otherwise the binding is inserted, replacing any earlier binding with
    /// the same key.
    pub fn add_route(&mut self, method: Method, path: &str, handler: H) -> (r: Result<
        (),
        ConfigError,
    >)
        requires
            old(self).wf(),
            !old(self).built(),
        ensures
            final(self).wf(),
            !final(self).built(),
            r is Ok <==> valid_path(path@),
            r is Ok ==> final(self).route_seq() == insert_binding(
                old(self).route_seq(),
                method,
                path@,
                handler,
            ),
            r is Err ==> r == Err::<(), ConfigError>(ConfigError::InvalidPath) && *final(self)
                == *old(self),
    {
        if !str_starts_with_char(path, '/') {
            return Err(ConfigError::InvalidPath);
        }
        let route = Route { method, path: path.to_owned() };
        let ghost pre = self.route_seq();
        let n = self.routes.len();
        let mut k: usize = 0;
        while k < n
            invariant
                n == self.routes@.len(),
                old(self).wf(),
                !old(self).built(),
                valid_path(path@),
                pre == old(self).route_seq(),
                pre.len() == n as int,
                k <= n,
                *self == *old(self),
                route.method == method,
                route.path@ == path@,
                forall|j: int| 0 <= j < k ==> !(pre[j].0 == method && pre[j].1 == path@),
            decreases n - k,
        {
            if self.routes[k].0.method == method && self.routes[k].0.path == route.path {
                proof {
                    assert(pre[k as int] == (
                        self.routes@[k as int].0.method,
                        self.routes@[k as int].0.path@,
                        self.routes@[k as int].1,
                    ));
                    lemma_binding_index_from(pre, method, path@, 0, k as int);
                }
                let ghost entry = (route, handler);
                let ghost old_routes = self.routes@;
                self.routes.remove(k);
                self.routes.insert(k, (route, handler));
                proof {
                    assert(self.routes@ =~= old_routes.update(k as int, entry));
                    assert forall|i: int| 0 <= i < self.route_seq().len() implies self.route_seq()[i]
                        == insert_binding(pre, method, path@, handler)[i] by {
                        assert(self.route_seq()[i] == (
                            self.routes@[i].0.method,
                            self.routes@[i].0.path@,
                            self.routes@[i].1,
                        ));
                    }
                    assert(self.route_seq() =~~= insert_binding(pre, method, path@, handler));
                }
                return Ok(());
            }
            k += 1;
        }
        proof {
            lemma_binding_index_from(pre, method, path@, 0, pre.len() as int);
        }
        self.routes.push((route, handler));
        proof {
            assert(self.route_seq() =~~= insert_binding(pre, method, path@, handler));
        }
        Ok(())
    }

    /// Compiles the registered patterns into the combined matcher, in
    /// registration order. Building succeeds exactly when every pattern
    /// compiles on its own and the combined matcher accepts the pattern
    /// list; a pattern that is not valid regex syntax is a configuration
    /// error; on any error the router is left unchanged and unbuilt.
    pub fn build(&mut self) -> (r: Result<(), ConfigError>)
        requires
            old(self).wf(),
            !old(self).built(),
        ensures
            final(self).wf(),
            final(self).route_seq() == old(self).route_seq(),
            r is Ok <==> ((forall|i: int|
                0 <= i < old(self).route_seq().len() ==> regex_valid(
                    #[trigger] old(self).route_seq()[i].1,
                )) && regexset_valid(patterns_of(old(self).route_seq()))),
            r is Ok ==> final(self).built(),
            r is Err ==> *final(self) == *old(self) && !final(self).built(),
            (exists|i: int|
                0 <= i < old(self).route_seq().len() && !regex_valid(
                    #[trigger] old(self).route_seq()[i].1,
                )) <==> r == Err::<(), ConfigError>(ConfigError::InvalidPattern),
            r == Err::<(), ConfigError>(ConfigError::MatcherBuild) ==> (forall|i: int|
                0 <= i < old(self).route_seq().len() ==> regex_valid(
                    #[trigger] old(self).route_seq()[i].1,
                )),
    {
        let ghost rs = self.route_seq();
        let mut paths: Vec<String> = Vec::new();
        let mut regexes: Vec<regex::Regex> = Vec::new();
        let n = self.routes.len();
        let mut k: usize = 0;
        while k < n
            invariant
                n == self.routes@.len(),
                *self == *old(self),
                old(self).wf(),
                !old(self).built(),
                rs == old(self).route_seq(),
                rs.len() == n as int,
                k <= n,
                paths@.len() == k as int,
                regexes@.len() == k as int,
                forall|i: int| 0 <= i < k ==> (#[trigger] paths@[i])@ == rs[i].1,
                forall|i: int| 0 <= i < k ==> regex_source(#[trigger] regexes@[i]) == rs[i].1,
                forall|i: int| 0 <= i < k ==> regex_valid(#[trigger] rs[i].1),
            decreases n - k,
        {
            let p = self.routes[k].0.path.clone();
            proof {
                assert(rs[k as int].1 == p@);
            }
            match compile_regex(p.as_str()) {
                Some(re) => {
                    paths.push(p);
                    regexes.push(re);
                },
                None => {
                    proof {
                        assert(!regex_valid(rs[k as int].1));
                    }
                    return Err(ConfigError::InvalidPattern);
                },
            }
            k += 1;
        }
        proof {
            assert(paths@.map_values(|p: String| p@) =~~= patterns_of(rs));
        }
        match new_regex_set(&paths) {
            Some(set) => {
                proof {
                    assert(regexset_patterns(set) =~~= patterns_of(rs));
                }
                self.paths = paths;
                self.regexes = regexes;
                self.regexset = Some(set);
                proof {
                    assert(self.route_seq() =~~= rs);
                }
                Ok(())
            },
            None => Err(ConfigError::MatcherBuild),
        }
    }

    /// Whether some registered pattern matches the concrete path.
    pub fn matches(&self, path: &str) -> (r: bool)
        requires
            self.wf(),
            self.built(),
        ensures
            r == (exists|i: int|
                0 <= i < self.route_seq().len() && regex_match(
                    #[trigger] self.route_seq()[i].1,
                    path@,
                )),
    {
        let set = self.regexset.as_ref().unwrap();
        let r = regex_set_is_match(set, path);
        proof {
            let pats = regexset_patterns(*set);
            assert(pats == patterns_of(self.route_seq()));
            if r {
                let i = choose|i: int| 0 <= i < pats.len() && regex_match(pats[i], path@);
                assert(regex_match(self.route_seq()[i].1, path@));
            }
            if exists|i: int|
                0 <= i < self.route_seq().len() && regex_match(
                    #[trigger] self.route_seq()[i].1,
                    path@,
                ) {
                let i = choose|i: int|
                    0 <= i < self.route_seq().len() && regex_match(
                        #[trigger] self.route_seq()[i].1,
                        path@,
                    );
                assert(regex_match(pats[i], path@));
            }
        }
        r
    }

    /// What resolving `(m, path)` returns, as the specification sees it:
    /// the path is held against the pattern list; with no match the request
    /// is NotFound; otherwise the first matching pattern, in registration
    /// order, is reconstructed into a key with the request's method, a
    /// missing binding for that key is NotAllowed, and a present one returns
    /// its handler together with the pattern's named captures of the path.
    pub open spec fn spec_find(self, m: Method, path: Seq<char>) -> Result<
        (H, Map<Seq<char>, Seq<char>>),
        SylphError,
    > {
        let rs = self.route_seq();
        let pats = patterns_of(rs);
        let i = first_match_from(pats, path, 0);
        if i == pats.len() {
            Err(SylphError::NotFound)
        } else {
            let p = pats[i];
            if has_binding(rs, m, p) {
                Ok((rs[binding_index_from(rs, m, p, 0)].2, named_params(p, path)))
            } else {
                Err(SylphError::NotAllowed)
            }
        }
    }

    /// Resolves a concrete request: the handler registered for the request's
    /// method on the first pattern matching the path, together with the
    /// pattern's named captures, or the error `spec_find` prescribes.
    pub fn find_handler(&self, method: Method, path: &str) -> (r: Result<(H, Params), SylphError>)
        requires
            self.wf(),
            self.built(),
        ensures
            r matches Ok(hp) ==> (self.spec_find(method, path@) matches Ok(sp) && sp.0 == hp.0
                && sp.1 == hp.1@),
            r matches Err(e) ==> self.spec_find(method, path@) == Err::<
                (H, Map<Seq<char>, Seq<char>>),
                SylphError,
            >(e),
    {
        let ghost rs = self.route_seq();
        let ghost pats = patterns_of(rs);
        let set = self.regexset.as_ref().unwrap();
        proof {
            assert(regexset_patterns(*set) == pats);
        }
        match regex_set_first_match(set, path) {
            None => {
                proof {
                    lemma_first_match_from(pats, path@, 0, pats.len() as int);
                }
                Err(SylphError::NotFound)
            },
            Some(i) => {
                proof {
                    lemma_first_match_from(pats, path@, 0, i as int);
                }
                let n = self.routes.len();
                let mut k: usize = 0;
                while k < n
                    invariant
                        n == self.routes@.len(),
                        self.wf(),
                        self.built(),
                        rs == self.route_seq(),
                        rs.len() == n as int,
                        i < n,
                        k <= n,
                        pats == patterns_of(rs),
                        pats.len() == n as int,
                        pats[i as int] == rs[i as int].1,
                        first_match_from(pats, path@, 0) == i as int,
                        regex_match(rs[i as int].1, path@),
                        self.paths@[i as int]@ == rs[i as int].1,
                        forall|j: int|
                            0 <= j < k ==> !((#[trigger] rs[j]).0 == method && rs[j].1 == rs[
                                i as int
                            ].1),
                    decreases n - k,
                {
                    if self.routes[k].0.method == method && self.routes[k].0.path
                        == self.paths[i] {
                        proof {
                            assert(rs[k as int] == (
                                self.routes@[k as int].0.method,
                                self.routes@[k as int].0.path@,
                                self.routes@[k as int].1,
                            ));
                            lemma_binding_index_from(rs, method, rs[i as int].1, 0, k as int);
                        }
                        let h = self.routes[k].1;
                        let params = self.extract_params(i, path);
                        return Ok((h, params));
                    }
                    k += 1;
                }
                proof {
                    lemma_binding_index_from(rs, method, rs[i as int].1, 0, rs.len() as int);
                }
                Err(SylphError::NotAllowed)
            },
        }
    }

    /// Runs the compiled pattern at `i` over the path once more and collects
    /// the named captures.
    fn extract_params(&self, i: usize, path: &str) -> (ps: Params)
        requires
            self.wf(),
            self.built(),
            i < self.regexes@.len(),
            regex_match(self.route_seq()[i as int].1, path@),
        ensures
            ps@ == named_params(self.route_seq()[i as int].1, path@),
    {
        let ghost pat = self.route_seq()[i as int].1;
        let re = &self.regexes[i];
        proof {
            assert(regex_source(*re) == pat);
        }
        let names = capture_group_names(re);
        let mut ps = Params::new();
        let m = names.len();
        let mut g: usize = 0;
        proof {
            assert(regex_group_names(pat).len() == m as int);
        }
        while g < m
            invariant
                m == names@.len(),
                g <= m,
                regex_source(*re) == pat,
                regex_match(pat, path@),
                names.deep_view() == regex_group_names(pat),
                ps@ == named_params_upto(pat, path@, g as int),
            decreases m - g,
        {
            match &names[g] {
                Some(name) => {
                    proof {
                        assert(names.deep_view()[g as int] == Some(name@));
                    }
                    match capture_group_value(re, path, g) {
                        Some(v) => {
                            ps.insert(name.clone(), v);
                        },
                        None => {
                        },
                    }
                },
                None => {
                    proof {
                        assert(names.deep_view()[g as int] == Option::<Seq<char>>::None);
                    }
                },
            }
            g += 1;
        }
        proof {
            assert(ps@ == named_params(pat, path@));
        }
        ps
    }

    /// Registers a handler for `Put` on `path`; sugar over `add_route`.
    pub fn put(&mut self, path: &str, handler: H) -> (r: Result<(), ConfigError>)
        requires
            old(self).wf(),
            !old(self).built(),
        ensures
            final(self).wf(),
            !final(self).built(),
            r is Ok <==> valid_path(path@),
            r is Ok ==> final(self).route_seq() == insert_binding(
                old(self).route_seq(),
                Method::Put,
                path@,
                handler,
            ),
            r is Err ==> r == Err::<(), ConfigError>(ConfigError::InvalidPath) && *final(self)
                == *old(self),
    {
        self.add_route(Method::Put, path, handler)
    }

    /// Registers a handler for `Post` on `path`; sugar over `add_route`.
    pub fn post(&mut self, path: &str, handler: H) -> (r: Result<(), ConfigError>)
        requires
            old(self).wf(),
            !old(self).built(),
        ensures
            final(self).wf(),
            !final(self).built(),
            r is Ok <==> valid_path(path@),
            r is Ok ==> final(self).route_seq() == insert_binding(
                old(self).route_seq(),
                Method::Post,
                path@,
                handler,
            ),
            r is Err ==> r == Err::<(), ConfigError>(ConfigError::InvalidPath) && *final(self)
                == *old(self),
    {
        self.add_route(Method::Post, path, handler)
    }

    /// Registers a handler for `Patch` on `path`; sugar over `add_route`.
    pub fn patch(&mut self, path: &str, handler: H) -> (r: Result<(), ConfigError>)
        requires
            old(self).wf(),
            !old(self).built(),
        ensures
            final(self).wf(),
            !final(self).built(),
            r is Ok <==> valid_path(path@),
            r is Ok ==> final(self).route_seq() == insert_binding(
                old(self).route_seq(),
                Method::Patch,
                path@,
                handler,
            ),
            r is Err ==> r == Err::<(), ConfigError>(ConfigError::InvalidPath) && *final(self)
                == *old(self),
    {
        self.add_route(Method::Patch, path, handler)
    }

    /// Registers a handler for `Get` on `path`; sugar over `add_route`.
    pub fn get(&mut self, path: &str, handler: H) -> (r: Result<(), ConfigError>)
        requires
            old(self).wf(),
            !old(self).built(),
        ensures
            final(self).wf(),
            !final(self).built(),
            r is Ok <==> valid_path(path@),
            r is Ok ==> final(self).route_seq() == insert_binding(
                old(self).route_seq(),
                Method::Get,
                path@,
                handler,
            ),
            r is Err ==> r == Err::<(), ConfigError>(ConfigError::InvalidPath) && *final(self)
                == *old(self),
    {
        self.add_route(Method::Get, path, handler)
    }

    /// Registers a handler for `Delete` on `path`; sugar over `add_route`.
    pub fn delete(&mut self, path: &str, handler: H) -> (r: Result<(), ConfigError>)
        requires
            old(self).wf(),
            !old(self).built(),
        ensures
            final(self).wf(),
            !final(self).built(),
            r is Ok <==> valid_path(path@),
            r is Ok ==> final(self).route_seq() == insert_binding(
                old(self).route_seq(),
                Method::Delete,
                path@,
                handler,
            ),
            r is Err ==> r == Err::<(), ConfigError>(ConfigError::InvalidPath) && *final(self)
                == *old(self),
    {
        self.add_route(Method::Delete, path, handler)
    }

    /// Registers a handler for `Options` on `path`; sugar over `add_route`.
    pub fn options(&mut self, path: &str, handler: H) -> (r: Result<(), ConfigError>)
        requires
            old(self).wf(),
            !old(self).built(),
        ensures
            final(self).wf(),
            !final(self).built(),
            r is Ok <==> valid_path(path@),
            r is Ok ==> final(self).route_seq() == insert_binding(
                old(self).route_seq(),
                Method::Options,
                path@,
                handler,
            ),
            r is Err ==> r == Err::<(), ConfigError>(ConfigError::InvalidPath) && *final(self)
                == *old(self),
    {
        self.add_route(Method::Options, path, handler)
    }

    /// Registers a handler for `Head` on `path`; sugar over `add_route`.
    pub fn head(&mut self, path: &str, handler: H) -> (r: Result<(), ConfigError>)
        requires
            old(self).wf(),
            !old(self).built(),
        ensures
            final(self).wf(),
            !final(self).built(),
            r is Ok <==> valid_path(path@),
            r is Ok ==> final(self).route_seq() == insert_binding(
                old(self).route_seq(),
                Method::Head,
                path@,
                handler,
            ),
            r is Err ==> r == Err::<(), ConfigError>(ConfigError::InvalidPath) && *final(self)
                == *old(self),
    {
        self.add_route(Method::Head, path, handler)
    }

    /// Copies every route of `other` into `self`, rewriting each pattern to
    /// `root_path + pattern`. This is a structural copy: later changes to
    /// `other` do not propagate. Mounting a non-empty router under a prefix
    /// that is neither empty nor `/`-led is a configuration error and
    /// changes nothing.
    pub fn mount(&mut self, root_path: &str, other: &Router<H>) -> (r: Result<(), ConfigError>)
        requires
            old(self).wf(),
            !old(self).built(),
            other.wf(),
        ensures
            final(self).wf(),
            !final(self).built(),
            r is Ok <==> (other.route_seq().len() == 0 || root_path@.len() == 0 || root_path@[0]
                == '/'),
            r is Ok ==> final(self).route_seq() == mount_seq(
                old(self).route_seq(),
                root_path@,
                other.route_seq(),
            ),
            r is Err ==> r == Err::<(), ConfigError>(ConfigError::InvalidPath) && *final(self)
                == *old(self),
    {
        let ghost others = other.route_seq();
        if other.routes.len() == 0 {
            return Ok(());
        }
        if !(root_path.is_empty() || str_starts_with_char(root_path, '/')) {
            return Err(ConfigError::InvalidPath);
        }
        let n = other.routes.len();
        let mut k: usize = 0;
        proof {
            assert(others.skip(0) =~= others);
        }
        while k < n
            invariant
                n == other.routes@.len(),
                others == other.route_seq(),
                others.len() == n as int,
                other.wf(),
                k <= n,
                self.wf(),
                !self.built(),
                root_path@.len() == 0 || root_path@[0] == '/',
                mount_seq(old(self).route_seq(), root_path@, others) == mount_seq(
                    self.route_seq(),
                    root_path@,
                    others.skip(k as int),
                ),
            decreases n - k,
        {
            let entry_method = other.routes[k].0.method;
            let mut combined = root_path.to_owned();
            combined.append(other.routes[k].0.path.as_str());
            let handler = other.routes[k].1;
            proof {
                assert(others[k as int] == (
                    other.routes@[k as int].0.method,
                    other.routes@[k as int].0.path@,
                    other.routes@[k as int].1,
                ));
                assert(combined@ == root_path@ + others[k as int].1);
                assert(valid_path(others[k as int].1));
                if root_path@.len() == 0 {
                    assert(combined@ =~= others[k as int].1);
                }
                assert(valid_path(combined@));
            }
            let ghost pre_seq = self.route_seq();
            let res = self.add_route(entry_method, combined.as_str(), handler);
            proof {
                assert(res is Ok);
                assert(others.skip(k as int)[0] == others[k as int]);
                assert(others.skip(k as int).drop_first() =~= others.skip(k as int + 1));
                assert(mount_seq(pre_seq, root_path@, others.skip(k as int)) == mount_seq(
                    self.route_seq(),
                    root_path@,
                    others.skip(k as int + 1),
                ));
            }
            k += 1;
        }
        proof {
            assert(others.skip(n as int) =~= Seq::<Binding<H>>::empty());
        }
        Ok(())
    }
}

proof fn lemma_binding_index_props<H>(s: Seq<Binding<H>>, m: Method, p: Seq<char>, st: int)
    requires
        0 <= st <= s.len(),
    ensures
        ({
            let j = binding_index_from(s, m, p, st);
            &&& st <= j <= s.len()
            &&& (j < s.len() ==> s[j].0 == m && s[j].1 == p)
            &&& (forall|l: int| st <= l < j ==> !((#[trigger] s[l]).0 == m && s[l].1 == p))
            &&& (forall|l: int|
                st <= l < s.len() && (#[trigger] s[l]).0 == m && s[l].1 == p ==> j <= l)
        }),
    decreases s.len() - st,
{
    if st < s.len() && !(s[st].0 == m && s[st].1 == p) {
        lemma_binding_index_props(s, m, p, st + 1);
    }
}

proof fn lemma_first_match_props(pats: Seq<Seq<char>>, text: Seq<char>, st: int)
    requires
        0 <= st <= pats.len(),
    ensures
        ({
            let i = first_match_from(pats, text, st);
            &&& st <= i <= pats.len()
            &&& (i < pats.len() ==> regex_match(pats[i], text))
            &&& (forall|j: int| st <= j < i ==> !regex_match(#[trigger] pats[j], text))
            &&& (forall|j: int|
                st <= j < pats.len() && regex_match(#[trigger] pats[j], text) ==> i <= j)
        }),
    decreases pats.len() - st,
{
    if st < pats.len() && !regex_match(pats[st], text) {
        lemma_first_match_props(pats, text, st + 1);
    }
}

proof fn lemma_prefix_cancel(prefix: Seq<char>, a: Seq<char>, b: Seq<char>)
    requires
        prefix + a == prefix + b,
    ensures
        a == b,
{
    assert(a =~= (prefix + a).skip(prefix.len() as int));
    assert(b =~= (prefix + b).skip(prefix.len() as int));
}

/// Law: the binding a registration writes is the one a lookup finds.
pub proof fn lemma_insert_binding_lookup<H>(s: Seq<Binding<H>>, m: Method, p: Seq<char>, h: H)
    ensures
        binding_of(insert_binding(s, m, p, h), m, p) == Some(h),
{
    let s2 = insert_binding(s, m, p, h);
    lemma_binding_index_props(s, m, p, 0);
    if has_binding(s, m, p) {
        let j = binding_index_from(s, m, p, 0);
        lemma_binding_index_from(s2, m, p, 0, j);
    } else {
        lemma_binding_index_from(s2, m, p, 0, s.len() as int);
    }
}

/// Law: a registration touches no key but its own.
pub proof fn lemma_insert_binding_other<H>(
    s: Seq<Binding<H>>,
    m: Method,
    p: Seq<char>,
    h: H,
    m2: Method,
    p2: Seq<char>,
)
    requires
        !(m2 == m && p2 == p),
    ensures
        binding_of(insert_binding(s, m, p, h), m2, p2) == binding_of(s, m2, p2),
{
    let s2 = insert_binding(s, m, p, h);
    lemma_binding_index_props(s, m, p, 0);
    lemma_binding_index_props(s, m2, p2, 0);
    let j2 = binding_index_from(s, m2, p2, 0);
    if j2 < s.len() {
        lemma_binding_index_from(s2, m2, p2, 0, j2);
    } else {
        lemma_binding_index_from(s2, m2, p2, 0, s2.len() as int);
    }
}

/// Law: re-registering a key replaces the old binding. Registering `h1` and
/// then `h2` under one (method, pattern) key leaves the store exactly as
/// registering `h2` alone would have.
pub proof fn lemma_reregister_replaces<H>(
    s: Seq<Binding<H>>,
    m: Method,
    p: Seq<char>,
    h1: H,
    h2: H,
)
    ensures
        insert_binding(insert_binding(s, m, p, h1), m, p, h2) == insert_binding(s, m, p, h2),
{
    let s1 = insert_binding(s, m, p, h1);
    lemma_binding_index_props(s, m, p, 0);
    if has_binding(s, m, p) {
        let j = binding_index_from(s, m, p, 0);
        lemma_binding_index_from(s1, m, p, 0, j);
        assert(insert_binding(s1, m, p, h2) =~~= insert_binding(s, m, p, h2));
    } else {
        lemma_binding_index_from(s1, m, p, 0, s.len() as int);
        assert(insert_binding(s1, m, p, h2) =~~= insert_binding(s, m, p, h2));
    }
}

proof fn lemma_mount_preserves<H>(
    s: Seq<Binding<H>>,
    prefix: Seq<char>,
    others: Seq<Binding<H>>,
    m2: Method,
    p2: Seq<char>,
)
    requires
        forall|l: int|
            0 <= l < others.len() ==> !((#[trigger] others[l]).0 == m2 && prefix + others[l].1
                == p2),
    ensures
        binding_of(mount_seq(s, prefix, others), m2, p2) == binding_of(s, m2, p2),
    decreases others.len(),
{
    if others.len() > 0 {
        let o0 = others[0];
        let s1 = insert_binding(s, o0.0, prefix + o0.1, o0.2);
        lemma_insert_binding_other(s, o0.0, prefix + o0.1, o0.2, m2, p2);
        let rest = others.drop_first();
        assert forall|l: int| 0 <= l < rest.len() implies !((#[trigger] rest[l]).0 == m2 && prefix
            + rest[l].1 == p2) by {
            assert(rest[l] == others[l + 1]);
        }
        lemma_mount_preserves(s1, prefix, rest, m2, p2);
    }
}

/// Law: mounting a router under a prefix makes each of its routes resolvable
/// under the prefixed pattern, with the original handler, whatever the
/// receiving store already held.
pub proof fn lemma_mount_registers_prefixed<H>(
    s: Seq<Binding<H>>,
    prefix: Seq<char>,
    others: Seq<Binding<H>>,
    k: int,
)
    requires
        0 <= k < others.len(),
        unique_keys(others),
    ensures
        binding_of(mount_seq(s, prefix, others), others[k].0, prefix + others[k].1) == Some(
            others[k].2,
        ),
    decreases k,
{
    let o0 = others[0];
    let s1 = insert_binding(s, o0.0, prefix + o0.1, o0.2);
    let rest = others.drop_first();
    if k == 0 {
        lemma_insert_binding_lookup(s, o0.0, prefix + o0.1, o0.2);
        assert forall|l: int| 0 <= l < rest.len() implies !((#[trigger] rest[l]).0 == o0.0
            && prefix + rest[l].1 == prefix + o0.1) by {
            assert(rest[l] == others[l + 1]);
            if rest[l].0 == o0.0 && prefix + rest[l].1 == prefix + o0.1 {
                lemma_prefix_cancel(prefix, rest[l].1, o0.1);
            }
        }
        lemma_mount_preserves(s1, prefix, rest, o0.0, prefix + o0.1);
    } else {
        assert forall|i: int, j: int| 0 <= i < j < rest.len() implies !((#[trigger] rest[i]).0
            == (#[trigger] rest[j]).0 && rest[i].1 == rest[j].1) by {
            assert(rest[i] == others[i + 1]);
            assert(rest[j] == others[j + 1]);
        }
        assert(rest[k - 1] == others[k]);
        lemma_mount_registers_prefixed(s1, prefix, rest, k - 1);
    }
}

impl<H: Copy> Router<H> {
    /// Law: a registered binding is what resolution returns. If `(m, p, h)`
    /// is registered, the path matches `p`, and every registered pattern
    /// matching the path is `p` itself, then resolving `(m, path)` returns
    /// `h` together with `p`'s named captures of the path.
    pub proof fn lemma_resolve_returns_registered(self, m: Method, path: Seq<char>, k: int)
        requires
            self.wf(),
            self.built(),
            0 <= k < self.route_seq().len(),
            self.route_seq()[k].0 == m,
            regex_match(self.route_seq()[k].1, path),
            forall|j: int|
                0 <= j < self.route_seq().len() && regex_match(
                    (#[trigger] self.route_seq()[j]).1,
                    path,
                ) ==> self.route_seq()[j].1 == self.route_seq()[k].1,
        ensures
            self.spec_find(m, path) == Ok::<(H, Map<Seq<char>, Seq<char>>), SylphError>(
                (self.route_seq()[k].2, named_params(self.route_seq()[k].1, path)),
            ),
    {
        let rs = self.route_seq();
        let pats = patterns_of(rs);
        let p = rs[k].1;
        assert forall|j: int| 0 <= j < rs.len() implies #[trigger] pats[j] == rs[j].1 by {}
        lemma_first_match_props(pats, path, 0);
        let i = first_match_from(pats, path, 0);
        assert(regex_match(pats[k], path));
        assert(i <= k);
        assert(rs[i].1 == p);
        lemma_binding_index_props(rs, m, p, 0);
        let j = binding_index_from(rs, m, p, 0);
        assert(j <= k);
        assert(j < rs.len());
        if j != k {
            assert(!(rs[j].0 == rs[k].0 && rs[j].1 == rs[k].1));
            assert(false);
        }
    }

    /// Law: a path that no registered pattern matches resolves to NotFound,
    /// for every method.
    pub proof fn lemma_resolve_not_found(self, m: Method, path: Seq<char>)
        requires
            self.wf(),
            self.built(),
            forall|j: int|
                0 <= j < self.route_seq().len() ==> !regex_match(
                    (#[trigger] self.route_seq()[j]).1,
                    path,
                ),
        ensures
            self.spec_find(m, path) == Err::<(H, Map<Seq<char>, Seq<char>>), SylphError>(
                SylphError::NotFound,
            ),
    {
        let rs = self.route_seq();
        let pats = patterns_of(rs);
        assert forall|j: int| 0 <= j < rs.len() implies #[trigger] pats[j] == rs[j].1 by {}
        lemma_first_match_from(pats, path, 0, pats.len() as int);
    }

    /// Law: a path that matches only patterns registered for other methods
    /// resolves to NotAllowed. `k` names a matching registration; every
    /// pattern matching the path is `k`'s, and no binding pairs the request
    /// method with that pattern.
    pub proof fn lemma_resolve_not_allowed(self, m: Method, path: Seq<char>, k: int)
        requires
            self.wf(),
            self.built(),
            0 <= k < self.route_seq().len(),
            regex_match(self.route_seq()[k].1, path),
            forall|j: int|
                0 <= j < self.route_seq().len() && regex_match(
                    (#[trigger] self.route_seq()[j]).1,
                    path,
                ) ==> self.route_seq()[j].1 == self.route_seq()[k].1,
            forall|j: int|
                0 <= j < self.route_seq().len() ==> !((#[trigger] self.route_seq()[j]).0 == m
                    && self.route_seq()[j].1 == self.route_seq()[k].1),
        ensures
            self.spec_find(m, path) == Err::<(H, Map<Seq<char>, Seq<char>>), SylphError>(
                SylphError::NotAllowed,
            ),
    {
        let rs = self.route_seq();
        let pats = patterns_of(rs);
        let p = rs[k].1;
        assert forall|j: int| 0 <= j < rs.len() implies #[trigger] pats[j] == rs[j].1 by {}
        lemma_first_match_props(pats, path, 0);
        let i = first_match_from(pats, path, 0);
        assert(regex_match(pats[k], path));
        assert(i <= k);
        assert(rs[i].1 == p);
        lemma_binding_index_props(rs, m, p, 0);
        let j = binding_index_from(rs, m, p, 0);
        assert(j == rs.len());
    }
}

} // verus!
