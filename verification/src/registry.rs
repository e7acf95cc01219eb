//! The visited registry: the single deduplication authority of a crawl
//! session.
//!
//! A registry is a set of already-claimed URLs. Its one operation,
//! [`VisitedRegistry::try_claim`], atomically tests and inserts: it grants
//! the claim exactly when the URL was not claimed before. Concurrent callers
//! serialize on a lock around the registry, so every interleaving of claims
//! is some sequential order of `try_claim` calls; the lemmas below state what
//! every such order yields.

use vstd::prelude::*;

verus! {

/// Whether a claim of `url` against the claimed-set `s` is granted.
pub open spec fn claim_granted(s: Set<Seq<char>>, url: Seq<char>) -> bool {
    !s.contains(url)
}

/// The claimed-set after a claim of `url` against `s`.
pub open spec fn after_claim(s: Set<Seq<char>>, url: Seq<char>) -> Set<Seq<char>> {
    s.insert(url)
}

/// A shared set of already-claimed URLs. The view is the set of claimed URL
/// strings.
pub struct VisitedRegistry {
    urls: Vec<String>,
}

impl View for VisitedRegistry {
    type V = Set<Seq<char>>;

    closed spec fn view(&self) -> Set<Seq<char>> {
        self.urls.deep_view().to_set()
    }
}

impl VisitedRegistry {
    /// A fresh registry with nothing claimed.
    pub fn new() -> (r: Self)
        ensures
            r@ == Set::<Seq<char>>::empty(),
    {
        let r = VisitedRegistry { urls: Vec::new() };
        proof {
            assert(r.urls.deep_view() =~= Seq::<Seq<char>>::empty());
            assert(r@ =~= Set::<Seq<char>>::empty());
        }
        r
    }

    /// Test-and-set in one operation: returns true and marks `url` claimed
    /// exactly when it was not claimed before; returns false with no effect
    /// otherwise.
    pub fn try_claim(&mut self, url: &String) -> (granted: bool)
        ensures
            granted == claim_granted(old(self)@, url@),
            final(self)@ == after_claim(old(self)@, url@),
    {
        let n = self.urls.len();
        let mut k: usize = 0;
        while k < n
            invariant
                n == self.urls.len(),
                k <= n,
                forall|m: int| 0 <= m < k ==> self.urls.deep_view()[m] != url@,
            decreases n - k,
        {
            if self.urls[k].eq(url) {
                assert(self.urls.deep_view()[k as int] == url@);
                assert(self@.contains(url@));
                assert(old(self)@ =~= after_claim(old(self)@, url@));
                return false;
            }
            k = k + 1;
        }
        assert(!self@.contains(url@)) by {
            if self.urls.deep_view().contains(url@) {
                let m = choose|m: int|
                    0 <= m < self.urls.deep_view().len() && self.urls.deep_view()[m] == url@;
                assert(false);
            }
        }
        let ghost pre = self.urls.deep_view();
        self.urls.push(url.clone());
        proof {
            assert(self.urls.deep_view() =~= pre.push(url@));
            pre.lemma_push_to_set_commute(url@);
        }
        true
    }
}

/// Claiming the same URL twice in sequence yields true, then false: the
/// first claim of an unclaimed URL is granted, and no claim of it is ever
/// granted again.
pub proof fn lemma_claim_twice(s: Set<Seq<char>>, url: Seq<char>)
    ensures
        !s.contains(url) ==> claim_granted(s, url),
        !claim_granted(after_claim(s, url), url),
{
}

/// The number of granted claims among `n` successive claims of `url`,
/// starting from the claimed-set `s`.
pub open spec fn grants_among(s: Set<Seq<char>>, url: Seq<char>, n: nat) -> nat
    decreases n,
{
    if n == 0 {
        0
    } else {
        (if claim_granted(s, url) {
            1nat
        } else {
            0nat
        }) + grants_among(after_claim(s, url), url, (n - 1) as nat)
    }
}

/// Among any number of successive claims of one unclaimed URL, exactly one
/// is granted. Claims race through a lock, so any concurrent execution of
/// `n` claimers is one of these sequential orders: exactly one racer wins.
pub proof fn lemma_one_grant_among_racers(s: Set<Seq<char>>, url: Seq<char>, n: nat)
    requires
        n >= 1,
        !s.contains(url),
    ensures
        grants_among(s, url, n) == 1,
{
    lemma_no_grant_when_claimed(after_claim(s, url), url, (n - 1) as nat);
}

/// No claim of an already-claimed URL is ever granted.
pub proof fn lemma_no_grant_when_claimed(s: Set<Seq<char>>, url: Seq<char>, n: nat)
    requires
        s.contains(url),
    ensures
        grants_among(s, url, n) == 0,
    decreases n,
{
    if n > 0 {
        lemma_no_grant_when_claimed(after_claim(s, url), url, (n - 1) as nat);
    }
}

} // verus!
