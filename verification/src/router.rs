//! The route table: an ordered collection of (template, matcher, handler)
//! entries.  Registration compiles the template once; resolution scans the
//! entries in registration order and returns the first whose matcher accepts
//! the whole path.  Insertion order is semantically significant: first match
//! wins, so more specific routes should be registered before more general
//! ones.

use vstd::prelude::*;
use crate::pattern::Matcher;
use crate::pattern::tpl_match;

verus! {

/// One registered route: the template it was registered under, the matcher
/// compiled from that template, and the handler to run on a match.  The
/// handler is opaque to the router; it is only stored and handed back.
#[derive(Clone)]
pub struct Route<H> {
    pub path: String,
    pub handler: H,
    pub matcher: Matcher,
}

impl<H> Route<H> {
    /// A route is well formed when its matcher is exactly the compilation of
    /// its template.
    pub open spec fn wf(self) -> bool {
        self.matcher.tpl@ == self.path@
    }

    /// Whether this route's matcher accepts the whole path `p`.
    pub open spec fn matches(self, p: Seq<char>) -> bool {
        tpl_match(self.matcher.tpl@, p)
    }
}

/// The index of the first route in `rs`, at or after `i`, that matches `p`;
/// `None` when no route from `i` on matches.
pub open spec fn first_match_from<H>(rs: Seq<Route<H>>, p: Seq<char>, i: int) -> Option<int>
    decreases rs.len() - i,
{
    if i < 0 || i >= rs.len() {
        None
    } else if rs[i].matches(p) {
        Some(i)
    } else {
        first_match_from(rs, p, i + 1)
    }
}

/// The index of the first registered route that matches `p`.
pub open spec fn first_match<H>(rs: Seq<Route<H>>, p: Seq<char>) -> Option<int> {
    first_match_from(rs, p, 0)
}

/// What [`first_match_from`] returns, spelled out: the result is in range,
/// matches, and no earlier candidate does; a `None` means nothing from `i`
/// on matches.
pub proof fn lemma_first_match_from<H>(rs: Seq<Route<H>>, p: Seq<char>, i: int)
    requires
        0 <= i <= rs.len(),
    ensures
        match first_match_from(rs, p, i) {
            Some(m) => i <= m < rs.len() && rs[m].matches(p) && (forall|j: int|
                i <= j < m ==> !rs[j].matches(p)),
            None => forall|j: int| i <= j < rs.len() ==> !rs[j].matches(p),
        },
    decreases rs.len() - i,
{
    if i < rs.len() && !rs[i].matches(p) {
        lemma_first_match_from(rs, p, i + 1);
    }
}

/// Registration order determines resolution precedence: when two routes both
/// match a path, resolution settles on a route registered no later than
/// either of them — in particular never on the later of the two.
pub proof fn lemma_registration_order_precedence<H>(rs: Seq<Route<H>>, p: Seq<char>, i: int, j: int)
    requires
        0 <= i < j < rs.len(),
        rs[i].matches(p),
        rs[j].matches(p),
    ensures
        first_match(rs, p) matches Some(m) && m <= i && rs[m].matches(p),
{
    lemma_first_match_from(rs, p, 0);
}

/// Resolution against an empty route table finds no match, whatever the
/// path.
pub proof fn lemma_empty_table_no_match<H>(rs: Seq<Route<H>>, p: Seq<char>)
    requires
        rs.len() == 0,
    ensures
        first_match(rs, p) is None,
{
}

/// The route table.  Built once during a single-threaded setup phase, then
/// read-only: resolution never mutates an entry.
#[derive(Clone)]
pub struct Router<H> {
    pub routes: Vec<Route<H>>,
}

impl<H> Router<H> {
    /// A router is well formed when every registered route is.
    pub open spec fn wf(self) -> bool {
        forall|i: int| 0 <= i < self.routes@.len() ==> (#[trigger] self.routes@[i]).wf()
    }

    /// Creates an empty route table: no path resolves against it.
    pub fn new() -> (r: Router<H>)
        ensures
            r.routes@.len() == 0,
            r.wf(),
    {
        Router { routes: Vec::new() }
    }

    /// Compiles `path` and appends the resulting route.  Compilation is
    /// total, so registration always succeeds; the new entry comes last, and
    /// every existing entry is untouched.
    pub fn add_route(&mut self, path: String, handler: H)
        ensures
            final(self).routes@.len() == old(self).routes@.len() + 1,
            forall|i: int|
                0 <= i < old(self).routes@.len() ==> final(self).routes@[i] == old(
                    self,
                ).routes@[i],
            final(self).routes@.last().path@ == path@,
            final(self).routes@.last().handler == handler,
            final(self).routes@.last().wf(),
            old(self).wf() ==> final(self).wf(),
    {
        let matcher = Matcher::compile(path.as_str());
        let route = Route { path, handler, matcher };
        self.routes.push(route);
    }

    /// Resolves a concrete path: scans the routes in registration order and
    /// returns a reference to the first whose matcher accepts the whole
    /// path, or `None` when no route matches.  A `None` is a normal outcome,
    /// not an error.
    pub fn match_route(&self, path: String) -> (r: Option<&Route<H>>)
        ensures
            match r {
                Some(route) => first_match(self.routes@, path@) matches Some(m) && *route
                    == self.routes@[m],
                None => first_match(self.routes@, path@) is None,
            },
    {
        let n: usize = self.routes.len();
        let mut i: usize = 0;
        while i < n
            invariant
                i <= n,
                n == self.routes@.len(),
                first_match(self.routes@, path@) == first_match_from(
                    self.routes@,
                    path@,
                    i as int,
                ),
            decreases n - i,
        {
            if self.routes[i].matcher.is_match(path.as_str()) {
                return Some(&self.routes[i]);
            }
            i = i + 1;
        }
        None
    }
}

} // verus!
