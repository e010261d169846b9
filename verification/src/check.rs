//! The per-family change checkers: a stateful diff of freshly observed
//! addresses against the previously recorded ones.
//!
//! A checker decides whether anything reportable changed.  Its result's
//! `current` is absent exactly when nothing has to be reported; the
//! invariant throughout is that an address is only ever reported as current
//! when it was not already known from history, which is what prevents
//! redundant provider calls.

use vstd::prelude::*;
use vstd::seq_lib::*;

use crate::addr::{Ipv4Address, Ipv6Address};

verus! {

/// The outcome of one checker run: the state before this cycle, the newly
/// detected value(s) to persist (absent if unchanged), and the address to
/// report to the provider.
#[derive(Debug, Clone)]
pub struct CheckResult<P, C, E> {
    pub previous: P,
    pub current: C,
    pub external: E,
}

impl<P, C, E> CheckResult<P, C, E> {
    /// Builds a result from its three parts.
    pub fn new(previous: P, current: C, external: E) -> (r: CheckResult<P, C, E>)
        ensures
            r.previous == previous,
            r.current == current,
            r.external == external,
    {
        CheckResult { previous, current, external }
    }
}

/// The result of an IPv4 check: a single optional address per field.
pub type Ipv4CheckResult = CheckResult<
    Option<Ipv4Address>,
    Option<Ipv4Address>,
    Option<Ipv4Address>,
>;

/// The result of an IPv6 check: address lists, and a single external
/// address to report.
pub type Ipv6CheckResult = CheckResult<
    Option<Vec<Ipv6Address>>,
    Option<Vec<Ipv6Address>>,
    Option<Ipv6Address>,
>;

impl Default for Ipv4CheckResult {
    /// The all-absent result: nothing to report.
    fn default() -> (r: Self)
        ensures
            r.previous is None,
            r.current is None,
            r.external is None,
    {
        CheckResult { previous: None, current: None, external: None }
    }
}

impl Default for Ipv6CheckResult {
    /// The all-absent result: nothing to report.
    fn default() -> (r: Self)
        ensures
            r.previous is None,
            r.current is None,
            r.external is None,
    {
        CheckResult { previous: None, current: None, external: None }
    }
}

// ---------------------------------------------------------------------------
// IPv4
// ---------------------------------------------------------------------------

/// The IPv4 checker: remembers the last externally reported address and
/// compares one freshly looked-up address against it.
pub struct Ipv4Checker {
    /// The address most recently reported to the provider, if any.
    pub previous: Option<Ipv4Address>,
}

impl Ipv4Checker {
    /// Builds a checker from the stored previous address.
    pub fn new(previous: Option<Ipv4Address>) -> (r: Ipv4Checker)
        ensures
            r.previous == previous,
    {
        Ipv4Checker { previous }
    }

    /// Decides from a freshly looked-up external address: if it equals the
    /// stored previous address, nothing is reported; otherwise the new
    /// address is both persisted and reported.
    pub fn check(&self, current: Ipv4Address) -> (r: Ipv4CheckResult)
        ensures
            self.previous == Some(current) ==> r.previous is None && r.current is None
                && r.external is None,
            self.previous != Some(current) ==> r.previous == self.previous && r.current == Some(
                current,
            ) && r.external == Some(current),
    {
        match self.previous {
            Some(existing) => {
                if existing == current {
                    return Ipv4CheckResult::default();
                }
            },
            None => {},
        }
        CheckResult { previous: self.previous, current: Some(current), external: Some(current) }
    }
}

// ---------------------------------------------------------------------------
// IPv6
// ---------------------------------------------------------------------------

/// What the history store recorded for IPv6: the addresses reported the
/// time before last (`previous`, possibly absent) and the most recently
/// observed ones (`latest`).
#[derive(Debug, Clone)]
pub struct Ipv6HistorySnapshot {
    pub previous: Option<Vec<Ipv6Address>>,
    pub latest: Vec<Ipv6Address>,
}

impl Ipv6HistorySnapshot {
    /// Builds a snapshot from its two stored rows.
    pub fn new(previous: Option<Vec<Ipv6Address>>, latest: Vec<Ipv6Address>) -> (r:
        Ipv6HistorySnapshot)
        ensures
            r.previous == previous,
            r.latest == latest,
    {
        Ipv6HistorySnapshot { previous, latest }
    }

    /// Whether an address is known: recorded as latest or as previous.
    pub open spec fn spec_known(self, a: Ipv6Address) -> bool {
        self.latest@.contains(a) || (self.previous matches Some(p) && p@.contains(a))
    }
}

/// The discovered addresses that history does not know: genuinely new.
pub open spec fn spec_new_addrs(h: Ipv6HistorySnapshot, ds: Seq<Ipv6Address>) -> Seq<
    Ipv6Address,
> {
    ds.filter(|a: Ipv6Address| !h.spec_known(a))
}

/// The discovered addresses that history already knows: retained.
pub open spec fn spec_retained_addrs(h: Ipv6HistorySnapshot, ds: Seq<Ipv6Address>) -> Seq<
    Ipv6Address,
> {
    ds.filter(|a: Ipv6Address| h.spec_known(a))
}

/// The diff outcome of one IPv6 run, before the external address is
/// resolved: what to persist as previous and current.
#[derive(Debug, Clone)]
pub struct Ipv6Evaluation {
    pub previous: Option<Vec<Ipv6Address>>,
    pub current: Option<Vec<Ipv6Address>>,
}

/// How the address to report externally is to be determined.
#[derive(Debug, Clone, Copy, PartialEq, Eq, Structural)]
pub enum ExternalPlan {
    /// Nothing changed, so nothing is reported and no lookup happens.
    NoReport,
    /// Exactly one new address: report it directly, with no lookup.
    UseSingle(Ipv6Address),
    /// Several new addresses: only an external-facing lookup can tell which
    /// one outbound traffic uses.
    NeedsLookup,
}

impl Ipv6Evaluation {
    /// Which external address the provider update should carry.  A single
    /// new address is used directly; only the ambiguous multi-address case
    /// asks for a lookup.
    pub fn external_plan(&self) -> (r: ExternalPlan)
        ensures
            r == match self.current {
                None => ExternalPlan::NoReport,
                Some(v) => if v@.len() == 1 {
                    ExternalPlan::UseSingle(v@[0])
                } else {
                    ExternalPlan::NeedsLookup
                },
            },
    {
        match &self.current {
            None => ExternalPlan::NoReport,
            Some(v) => {
                if v.len() == 1 {
                    ExternalPlan::UseSingle(v[0])
                } else {
                    ExternalPlan::NeedsLookup
                }
            },
        }
    }

    /// Assembles the final result.  `looked_up` is consulted only when the
    /// plan demanded a lookup; otherwise it is ignored.
    pub fn into_result(self, looked_up: Option<Ipv6Address>) -> (r: Ipv6CheckResult)
        ensures
            r.previous == self.previous,
            r.current == self.current,
            r.external == match self.current {
                None => None::<Ipv6Address>,
                Some(v) => if v@.len() == 1 {
                    Some(v@[0])
                } else {
                    looked_up
                },
            },
    {
        let external = match &self.current {
            None => None,
            Some(v) => {
                if v.len() == 1 {
                    Some(v[0])
                } else {
                    looked_up
                }
            },
        };
        CheckResult { previous: self.previous, current: self.current, external }
    }
}

/// The IPv6 checker: diffs the discovered interface addresses against the
/// history snapshot.
pub struct Ipv6Checker {
    /// What the history store recorded, absent on the first run.
    pub history: Option<Ipv6HistorySnapshot>,
}

impl Ipv6Checker {
    /// Builds a checker from the stored history.
    pub fn new(history: Option<Ipv6HistorySnapshot>) -> (r: Ipv6Checker)
        ensures
            r.history == history,
    {
        Ipv6Checker { history }
    }

    /// Diffs the discovered (non-link-local) interface addresses against
    /// history.  With no history, every discovered address is new.  With
    /// history, the discovered addresses split into the genuinely new ones
    /// (reported, in discovery order) and the retained ones; the next
    /// cycle's previous becomes the retained set, or falls back to the old
    /// latest set when every known address vanished.
    pub fn evaluate(&self, discovered: Vec<Ipv6Address>) -> (r: Ipv6Evaluation)
        requires
            discovered@.len() >= 1,
        ensures
            match self.history {
                None => r.previous is None && r.current == Some(discovered),
                Some(h) => {
                    let new = spec_new_addrs(h, discovered@);
                    let retained = spec_retained_addrs(h, discovered@);
                    &&& match r.current {
                        Some(v) => new.len() > 0 && v@ == new,
                        None => new.len() == 0,
                    }
                    &&& match r.previous {
                        Some(v) => v@ == if retained.len() > 0 {
                            retained
                        } else {
                            h.latest@
                        },
                        None => false,
                    }
                },
            },
    {
        let h = match &self.history {
            None => {
                return Ipv6Evaluation { previous: None, current: Some(discovered) };
            },
            Some(h) => h,
        };
        let mut fresh: Vec<Ipv6Address> = Vec::new();
        let mut retained: Vec<Ipv6Address> = Vec::new();
        let mut i: usize = 0;
        proof {
            assert(discovered@.take(0) =~= Seq::<Ipv6Address>::empty());
            reveal(Seq::filter);
        }
        while i < discovered.len()
            invariant
                i <= discovered@.len(),
                self.history == Some(*h),
                fresh@ =~= spec_new_addrs(*h, discovered@.take(i as int)),
                retained@ =~= spec_retained_addrs(*h, discovered@.take(i as int)),
            decreases discovered@.len() - i,
        {
            let a = discovered[i];
            let known = is_known(h, &a);
            proof {
                reveal(Seq::filter);
                assert(discovered@.take(i as int + 1).drop_last() =~= discovered@.take(
                    i as int,
                ));
                assert(discovered@.take(i as int + 1).last() == a);
            }
            if known {
                retained.push(a);
            } else {
                fresh.push(a);
            }
            i = i + 1;
        }
        proof {
            assert(discovered@.take(discovered@.len() as int) =~= discovered@);
        }
        let previous = if retained.len() > 0 {
            Some(retained)
        } else {
            Some(copy_addrs(&h.latest))
        };
        let current = if fresh.len() > 0 {
            Some(fresh)
        } else {
            None
        };
        Ipv6Evaluation { previous, current }
    }
}

/// A copy of an address vector.
fn copy_addrs(v: &Vec<Ipv6Address>) -> (r: Vec<Ipv6Address>)
    ensures
        r@ =~= v@,
{
    let mut out: Vec<Ipv6Address> = Vec::new();
    let mut i: usize = 0;
    while i < v.len()
        invariant
            i <= v@.len(),
            out@ =~= v@.subrange(0, i as int),
        decreases v@.len() - i,
    {
        out.push(v[i]);
        i = i + 1;
    }
    out
}

/// Whether a vector of addresses holds a given address.
fn contains_addr(v: &Vec<Ipv6Address>, a: &Ipv6Address) -> (r: bool)
    ensures
        r == v@.contains(*a),
{
    let mut i: usize = 0;
    while i < v.len()
        invariant
            i <= v@.len(),
            forall|j: int| 0 <= j < i ==> v@[j] != *a,
        decreases v@.len() - i,
    {
        if v[i] == *a {
            return true;
        }
        i = i + 1;
    }
    false
}

/// Whether history knows an address.
fn is_known(h: &Ipv6HistorySnapshot, a: &Ipv6Address) -> (r: bool)
    ensures
        r == h.spec_known(*a),
{
    if contains_addr(&h.latest, a) {
        return true;
    }
    match &h.previous {
        Some(p) => contains_addr(p, a),
        None => false,
    }
}

/// No address reported as current was already known: every element of the
/// new set differs from the whole known set, so a report is never redundant.
pub proof fn lemma_no_redundant_report(h: Ipv6HistorySnapshot, ds: Seq<Ipv6Address>, i: int)
    requires
        0 <= i < spec_new_addrs(h, ds).len(),
    ensures
        !h.spec_known(spec_new_addrs(h, ds)[i]),
{
    broadcast use Seq::lemma_filter_pred;

}

} // verus!

