//! The build-version resolver: the digit-prefix narrowing search.
//!
//! The listing API only accepts a name-prefix filter and returns a bounded
//! number of entries, so the search starts with the most specific numeric
//! prefix of the target (all but its last digit) and widens one digit at a
//! time. At each prefix it takes the greatest listed version at or below the
//! target; the first prefix that yields one ends the search. A transport or
//! parse failure at one prefix is not fatal: the search simply widens. Only
//! when the empty prefix has been tried does resolution fail, with a
//! not-found error naming the specification and the target.
//!
//! The caller owns the listing I/O: it asks [`ResolverSearch::next_prefix`]
//! for the next query, performs the listing call, and hands the outcome to
//! [`ResolverSearch::step`]. For an L-digit target the search issues at most
//! L listing calls, each with a strictly shorter prefix than the one before.

use vstd::prelude::*;

use crate::builds::{spec_prefix, BuildSpecification, format_prefix};
use crate::orchestrate::FetchError;
use crate::text::{decimal_rep, lemma_decimal_rep_nonempty, u64_to_decimal};

verus! {

/// What one listing call produced: a transport or parse failure, or the
/// numeric versions parsed out of the listed keys.
pub enum ListingOutcome {
    /// The call failed or its response could not be parsed; the search
    /// treats this as "no usable result at this prefix".
    Failed,
    /// The versions named by the listed keys.
    Listed(Vec<u64>),
}

/// The versions a listing outcome contributed; a failed call contributes none.
pub open spec fn outcome_versions(o: ListingOutcome) -> Seq<u64> {
    match o {
        ListingOutcome::Failed => Seq::empty(),
        ListingOutcome::Listed(vs) => vs@,
    }
}

/// The greatest version at or below the target among those listed, if any.
pub open spec fn best_at_or_below(vs: Seq<u64>, target: u64) -> Option<u64>
    decreases vs.len(),
{
    if vs.len() == 0 {
        None
    } else {
        let prev = best_at_or_below(vs.drop_last(), target);
        let x = vs.last();
        if x <= target && (prev is None || prev->0 < x) {
            Some(x)
        } else {
            prev
        }
    }
}

/// The versions contributed by the `i`th listing call of a search, given the
/// outcomes in call order; a call whose outcome was never recorded counts as
/// a failed one.
pub open spec fn attempt_versions(outs: Seq<ListingOutcome>, i: int) -> Seq<u64> {
    if 0 <= i < outs.len() {
        outcome_versions(outs[i])
    } else {
        Seq::empty()
    }
}

/// The result of the whole search, given the outcome of each listing call in
/// the order the calls are made: the first attempt, starting at `i`, whose
/// outcome holds a version at or below the target decides; after `attempts`
/// fruitless attempts the search has failed.
pub open spec fn search_from(
    outs: Seq<ListingOutcome>,
    target: u64,
    i: int,
    attempts: int,
) -> Option<u64>
    decreases attempts,
{
    if attempts <= 0 {
        None
    } else {
        match best_at_or_below(attempt_versions(outs, i), target) {
            Some(v) => Some(v),
            None => search_from(outs, target, i + 1, attempts - 1),
        }
    }
}

/// The result of the whole search for a target: one attempt per digit of the
/// target, the first with all but the last digit as prefix, the last with the
/// empty prefix.
pub open spec fn search_spec(outs: Seq<ListingOutcome>, target: u64) -> Option<u64> {
    search_from(outs, target, 0, decimal_rep(target as nat).len() as int)
}

/// What one step of the search decided.
pub enum SearchStep {
    /// A version at or below the target was found: the answer.
    Found(u64),
    /// Nothing usable at this prefix; a shorter prefix remains to be tried.
    Widen,
    /// Nothing usable at the empty prefix either: resolution has failed.
    Exhausted,
}

/// The state of one digit-prefix narrowing search.
pub struct ResolverSearch {
    /// The branch point being resolved.
    pub target: u64,
    /// The decimal rendering of the target.
    pub digits: String,
    /// How many listing attempts remain; the next attempt uses the first
    /// `remaining - 1` digits of the target as its prefix.
    pub remaining: usize,
}

impl ResolverSearch {
    /// The search state is consistent with its target.
    pub open spec fn wf(&self) -> bool {
        &&& self.digits@ == decimal_rep(self.target as nat)
        &&& self.remaining <= self.digits@.len()
    }

    /// How many listing calls this search may still make.
    pub open spec fn attempts_left(&self) -> int {
        self.remaining as int
    }

    /// Starts a search: for an L-digit target, L attempts remain and the
    /// first prefix tried will be the target's first L-1 digits.
    pub fn new(target: u64) -> (r: ResolverSearch)
        ensures
            r.wf(),
            r.target == target,
            r.attempts_left() == decimal_rep(target as nat).len(),
    {
        let digits = u64_to_decimal(target);
        let remaining = digits.unicode_len();
        ResolverSearch { target, digits, remaining }
    }

    /// The digit prefix of the next listing query: one digit shorter than the
    /// previous attempt's, and absent when the search is exhausted.
    pub fn next_prefix(&self) -> (r: Option<String>)
        requires
            self.wf(),
        ensures
            r is Some <==> self.attempts_left() > 0,
            r matches Some(p) ==> p@ == decimal_rep(self.target as nat).take(
                self.remaining - 1,
            ),
    {
        if self.remaining == 0 {
            None
        } else {
            let p = self.digits.as_str().substring_char(0, self.remaining - 1);
            Some(String::from_str(p))
        }
    }

    /// Consumes the outcome of the pending listing call. Returns the answer
    /// if the outcome holds a version at or below the target; otherwise one
    /// more attempt has been spent, and the search widens or is exhausted.
    pub fn step(&mut self, outcome: &ListingOutcome) -> (r: SearchStep)
        requires
            old(self).wf(),
            old(self).attempts_left() > 0,
        ensures
            final(self).wf(),
            final(self).target == old(self).target,
            final(self).digits == old(self).digits,
            final(self).attempts_left() == old(self).attempts_left() - 1,
            r is Found <==> best_at_or_below(outcome_versions(*outcome), old(self).target)
                is Some,
            r matches SearchStep::Found(v) ==> best_at_or_below(
                outcome_versions(*outcome),
                old(self).target,
            ) == Some(v),
            r is Widen <==> (best_at_or_below(outcome_versions(*outcome), old(self).target)
                is None && old(self).attempts_left() > 1),
            r is Exhausted <==> (best_at_or_below(outcome_versions(*outcome), old(self).target)
                is None && old(self).attempts_left() == 1),
    {
        let best: Option<u64> = match outcome {
            ListingOutcome::Failed => None,
            ListingOutcome::Listed(vs) => best_version_at_or_below(vs, self.target),
        };
        self.remaining = self.remaining - 1;
        match best {
            Some(v) => SearchStep::Found(v),
            None => if self.remaining == 0 {
                SearchStep::Exhausted
            } else {
                SearchStep::Widen
            },
        }
    }
}

/// The greatest version at or below the target among those listed, computed.
pub fn best_version_at_or_below(versions: &Vec<u64>, target: u64) -> (r: Option<u64>)
    ensures
        r == best_at_or_below(versions@, target),
{
    let mut r: Option<u64> = None;
    let mut i: usize = 0;
    while i < versions.len()
        invariant
            0 <= i <= versions.len(),
            r == best_at_or_below(versions@.take(i as int), target),
        decreases versions.len() - i,
    {
        let x = versions[i];
        proof {
            assert(versions@.take(i + 1).drop_last() =~= versions@.take(i as int));
            assert(versions@.take(i + 1).last() == versions@[i as int]);
        }
        r = match r {
            Some(prev) => if x <= target && prev < x {
                Some(x)
            } else {
                Some(prev)
            },
            None => if x <= target {
                Some(x)
            } else {
                None
            },
        };
        i = i + 1;
    }
    proof {
        assert(versions@.take(versions@.len() as int) =~= versions@);
    }
    r
}

/// Resolves the greatest published build version at or below a branch point,
/// judging the pre-collected outcome of each listing call in search order
/// (missing outcomes count as failed calls). Succeeds exactly when the
/// narrowing search does; otherwise the error is the not-found kind, naming
/// the specification's prefix and the branch point.
pub fn find_a_build_just_before(
    specification: &BuildSpecification,
    branch_point: u64,
    outcomes: &Vec<ListingOutcome>,
) -> (r: Result<u64, FetchError>)
    ensures
        r is Ok <==> search_spec(outcomes@, branch_point) is Some,
        r matches Ok(v) ==> search_spec(outcomes@, branch_point) == Some(v),
        r matches Err(e) ==> {
            &&& search_spec(outcomes@, branch_point) is None
            &&& e matches FetchError::NoMatchingBuild { prefix, branch_point: b }
            &&& prefix@ == spec_prefix(*specification, Seq::<char>::empty())
            &&& b == branch_point
        },
{
    let mut search = ResolverSearch::new(branch_point);
    let ghost total = decimal_rep(branch_point as nat).len() as int;
    let failed = ListingOutcome::Failed;
    let mut idx: usize = 0;
    proof {
        lemma_decimal_rep_nonempty(branch_point as nat);
    }
    while search.remaining > 0
        invariant
            search.wf(),
            search.target == branch_point,
            total == decimal_rep(branch_point as nat).len(),
            total <= usize::MAX,
            idx + search.attempts_left() == total,
            failed is Failed,
            search_spec(outcomes@, branch_point) == search_from(
                outcomes@,
                branch_point,
                idx as int,
                search.attempts_left(),
            ),
        decreases search.remaining,
    {
        let outcome: &ListingOutcome = if idx < outcomes.len() {
            &outcomes[idx]
        } else {
            &failed
        };
        proof {
            if idx < outcomes.len() {
                assert(outcome_versions(*outcome) == attempt_versions(outcomes@, idx as int));
            } else {
                assert(outcome_versions(*outcome) =~= attempt_versions(outcomes@, idx as int));
            }
        }
        let step = search.step(outcome);
        match step {
            SearchStep::Found(v) => {
                return Ok(v);
            },
            _ => (),
        }
        idx = idx + 1;
    }
    let prefix = format_prefix(specification, "");
    proof {
        reveal_strlit("");
        assert(""@ =~= Seq::<char>::empty());
    }
    Err(FetchError::NoMatchingBuild { prefix, branch_point })
}

/// The call-bound law: for an L-digit target the search consults no outcome
/// beyond the first L — it never issues more than L listing calls. Any two
/// runs whose first L listing calls turn out the same resolve the same.
pub proof fn lemma_search_call_bound(
    outs1: Seq<ListingOutcome>,
    outs2: Seq<ListingOutcome>,
    target: u64,
)
    requires
        forall|i: int|
            0 <= i < decimal_rep(target as nat).len() ==> attempt_versions(outs1, i)
                == attempt_versions(outs2, i),
    ensures
        search_spec(outs1, target) == search_spec(outs2, target),
{
    lemma_search_from_agree(outs1, outs2, target, 0, decimal_rep(target as nat).len() as int);
}

/// `search_from` only reads the attempts at indices `i` to `i + attempts - 1`.
proof fn lemma_search_from_agree(
    outs1: Seq<ListingOutcome>,
    outs2: Seq<ListingOutcome>,
    target: u64,
    i: int,
    attempts: int,
)
    requires
        forall|j: int|
            i <= j < i + attempts ==> attempt_versions(outs1, j) == attempt_versions(outs2, j),
    ensures
        search_from(outs1, target, i, attempts) == search_from(outs2, target, i, attempts),
    decreases attempts,
{
    if attempts > 0 {
        lemma_search_from_agree(outs1, outs2, target, i + 1, attempts - 1);
    }
}

/// The nearest-version law: if the listed versions contain `v`, `v` is at or
/// below the target, and nothing listed lies strictly between `v` and the
/// target, then the greatest version at or below the target is exactly `v`.
pub proof fn lemma_best_is_nearest(vs: Seq<u64>, target: u64, v: u64)
    requires
        vs.contains(v),
        v <= target,
        forall|i: int| 0 <= i < vs.len() ==> !(v < #[trigger] vs[i] && vs[i] <= target),
    ensures
        best_at_or_below(vs, target) == Some(v),
    decreases vs.len(),
{
    let last = vs.last();
    let prev = vs.drop_last();
    if vs.len() == 1 {
        assert(vs[0] == v);
    } else {
        if last == v {
            if prev.contains(v) {
                lemma_best_is_nearest(prev, target, v);
            } else {
                lemma_best_at_or_below_le(prev, target);
                if best_at_or_below(prev, target) is Some {
                    let p = best_at_or_below(prev, target)->0;
                    lemma_best_at_or_below_member(prev, target);
                    assert(vs.contains(p)) by {
                        let j = choose|j: int| 0 <= j < prev.len() && prev[j] == p;
                        assert(vs[j] == p);
                    }
                    assert(p <= v);
                }
            }
        } else {
            let j = choose|j: int| 0 <= j < vs.len() && vs[j] == v;
            assert(vs[j] == v);
            assert(j != vs.len() - 1);
            assert(prev[j] == v);
            assert(prev.contains(v));
            lemma_best_is_nearest(prev, target, v);
            assert(!(v < last && last <= target));
        }
    }
}

/// When a greatest version at or below the target exists, it is a listed
/// version and at or below the target.
pub proof fn lemma_best_at_or_below_member(vs: Seq<u64>, target: u64)
    ensures
        best_at_or_below(vs, target) matches Some(v) ==> vs.contains(v) && v <= target,
    decreases vs.len(),
{
    if vs.len() > 0 {
        lemma_best_at_or_below_member(vs.drop_last(), target);
        let b = best_at_or_below(vs, target);
        let bp = best_at_or_below(vs.drop_last(), target);
        if b is Some {
            let v = b->0;
            if bp is Some && bp->0 == v {
                let j = choose|j: int| 0 <= j < vs.drop_last().len() && vs.drop_last()[j] == v;
                assert(vs[j] == v);
            } else {
                assert(vs.last() == v);
            }
        }
    }
}

/// The greatest version at or below the target is no smaller than any other
/// listed version at or below the target.
pub proof fn lemma_best_at_or_below_le(vs: Seq<u64>, target: u64)
    ensures
        forall|i: int|
            0 <= i < vs.len() && #[trigger] vs[i] <= target ==> {
                &&& best_at_or_below(vs, target) is Some
                &&& vs[i] <= best_at_or_below(vs, target)->0
            },
    decreases vs.len(),
{
    if vs.len() > 0 {
        lemma_best_at_or_below_le(vs.drop_last(), target);
        assert forall|i: int| 0 <= i < vs.len() && #[trigger] vs[i] <= target implies {
            &&& best_at_or_below(vs, target) is Some
            &&& vs[i] <= best_at_or_below(vs, target)->0
        } by {
            if i < vs.len() - 1 {
                assert(vs.drop_last()[i] == vs[i]);
            }
        }
    }
}

/// The first-success law: if the outcome of attempt `i` holds a version at
/// or below the target and every earlier attempt holds none, the search
/// returns exactly attempt `i`'s greatest such version.
pub proof fn lemma_search_first_success(outs: Seq<ListingOutcome>, target: u64, i: int, v: u64)
    requires
        0 <= i < outs.len(),
        i < decimal_rep(target as nat).len(),
        best_at_or_below(outcome_versions(outs[i]), target) == Some(v),
        forall|j: int|
            0 <= j < i ==> best_at_or_below(outcome_versions(#[trigger] outs[j]), target)
                is None,
    ensures
        search_spec(outs, target) == Some(v),
{
    lemma_search_from_first_success(outs, target, 0, decimal_rep(target as nat).len() as int, i, v);
}

proof fn lemma_search_from_first_success(
    outs: Seq<ListingOutcome>,
    target: u64,
    start: int,
    attempts: int,
    i: int,
    v: u64,
)
    requires
        0 <= start <= i < outs.len(),
        i < start + attempts,
        best_at_or_below(outcome_versions(outs[i]), target) == Some(v),
        forall|j: int|
            start <= j < i ==> best_at_or_below(outcome_versions(#[trigger] outs[j]), target)
                is None,
    ensures
        search_from(outs, target, start, attempts) == Some(v),
    decreases attempts,
{
    if start == i {
    } else {
        lemma_search_from_first_success(outs, target, start + 1, attempts - 1, i, v);
    }
}

/// The exhaustion law: when no attempt's outcome holds any version at or
/// below the target, the search fails — so an all-empty or all-failing
/// listing ends in the not-found condition, never in a masked answer.
pub proof fn lemma_search_exhausted(outs: Seq<ListingOutcome>, target: u64)
    requires
        forall|j: int|
            0 <= j < outs.len() ==> best_at_or_below(
                outcome_versions(#[trigger] outs[j]),
                target,
            ) is None,
    ensures
        search_spec(outs, target) is None,
{
    lemma_search_from_exhausted(outs, target, 0, decimal_rep(target as nat).len() as int);
}

proof fn lemma_search_from_exhausted(outs: Seq<ListingOutcome>, target: u64, start: int, attempts: int)
    requires
        0 <= start,
        forall|j: int|
            0 <= j < outs.len() ==> best_at_or_below(
                outcome_versions(#[trigger] outs[j]),
                target,
            ) is None,
    ensures
        search_from(outs, target, start, attempts) is None,
    decreases attempts,
{
    if attempts > 0 {
        lemma_search_from_exhausted(outs, target, start + 1, attempts - 1);
    }
}

} // verus!
