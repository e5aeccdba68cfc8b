use vstd::prelude::*;
use vstd::seq_lib::*;
use vstd::string::StringExecFns;

use crate::errors::EsError;

verus! {

/// The ascending sequence `0, 1, ..., n - 1` of node indices.
pub open spec fn index_sequence(n: nat) -> Seq<usize> {
    Seq::new(n, |i: int| i as usize)
}

/// `order` holds exactly the node indices below `n`, as a multiset: it is
/// a permutation of `0 .. n`.
pub open spec fn is_permutation_of(order: Seq<usize>, n: nat) -> bool {
    order.to_multiset() == index_sequence(n).to_multiset()
}

/// The indices below `n` are pairwise distinct.
proof fn lemma_index_sequence_no_duplicates(n: usize)
    ensures
        index_sequence(n as nat).no_duplicates(),
{
    let idx = index_sequence(n as nat);
    assert forall|i: int, j: int|
        0 <= i < idx.len() && 0 <= j < idx.len() && i != j implies idx[i] != idx[j] by {
        assert(idx[i] == i as usize);
        assert(idx[j] == j as usize);
    }
}

/// What a permutation of `0 .. n` gives: its length is `n`, it holds
/// exactly the indices below `n`, and every entry lies below `n`.
pub proof fn lemma_permutation_properties(order: Seq<usize>, n: nat)
    requires
        is_permutation_of(order, n),
    ensures
        order.len() == n,
        forall|j: usize| order.contains(j) <==> j < n,
        forall|i: int| 0 <= i < order.len() ==> (#[trigger] order[i]) < n,
{
    broadcast use group_to_multiset_ensures;

    let idx = index_sequence(n);
    assert(idx.len() == n);
    assert(order.to_multiset().len() == idx.to_multiset().len());
    assert forall|j: usize| order.contains(j) <==> j < n by {
        if j < n {
            assert(idx[j as int] == j);
            assert(idx.contains(j));
            assert(idx.to_multiset().count(j) > 0);
            assert(order.to_multiset().count(j) > 0);
        }
        if order.contains(j) {
            assert(order.to_multiset().count(j) > 0);
            assert(idx.to_multiset().count(j) > 0);
            assert(idx.contains(j));
            let w = choose|w: int| 0 <= w < idx.len() && idx[w] == j;
            assert(idx[w] == w as usize);
            assert(j < n);
        }
    }
    assert forall|i: int| 0 <= i < order.len() implies (#[trigger] order[i]) < n by {
        assert(order.contains(order[i]));
    }
}

/// After an exhausted failover pass the attempted nodes are exactly the
/// cluster's nodes, each attempted exactly once.
pub proof fn lemma_exhausted_pass_tried_each_node_once(order: Seq<usize>, n: usize)
    requires
        is_permutation_of(order, n as nat),
    ensures
        order.len() == n,
        forall|j: usize| j < n ==> order.to_multiset().count(j) == 1,
        order.no_duplicates(),
{
    broadcast use group_to_multiset_ensures;

    lemma_permutation_properties(order, n as nat);
    let idx = index_sequence(n as nat);
    lemma_index_sequence_no_duplicates(n);
    idx.lemma_multiset_has_no_duplicates();
    assert forall|j: usize| j < n implies order.to_multiset().count(j) == 1 by {
        assert(idx[j as int] == j);
        assert(idx.contains(j));
        assert(idx.to_multiset().count(j) > 0);
        assert(idx.to_multiset().count(j) == 1);
    }
    assert forall|x: usize| order.to_multiset().contains(x) implies order.to_multiset().count(x)
        == 1 by {
        assert(idx.to_multiset().count(x) > 0);
        assert(idx.contains(x));
        assert(idx.to_multiset().count(x) == 1);
    }
    order.lemma_multiset_has_no_duplicates_conv();
}

/// The position in `order` of the first node whose attempt succeeds, where
/// `healthy[j]` says whether an attempt on node `j` succeeds.
pub open spec fn first_success_index(order: Seq<usize>, healthy: Seq<bool>) -> Option<int>
    decreases order.len(),
{
    if order.len() == 0 {
        None
    } else if healthy[order[0] as int] {
        Some(0int)
    } else {
        match first_success_index(order.drop_first(), healthy) {
            Some(k) => Some(k + 1),
            None => None,
        }
    }
}

/// A failover pass either returns the first success in its shuffled order
/// — the node there is healthy and every node before it in the order is
/// not — or finds no success anywhere in the order.
pub proof fn lemma_first_success_index(order: Seq<usize>, healthy: Seq<bool>)
    ensures
        match first_success_index(order, healthy) {
            Some(k) => 0 <= k < order.len() && healthy[order[k] as int] && forall|j: int|
                0 <= j < k ==> !healthy[(#[trigger] order[j]) as int],
            None => forall|j: int|
                0 <= j < order.len() ==> !healthy[(#[trigger] order[j]) as int],
        },
    decreases order.len(),
{
    if order.len() > 0 && !healthy[order[0] as int] {
        let dropped = order.drop_first();
        lemma_first_success_index(dropped, healthy);
        match first_success_index(dropped, healthy) {
            Some(k) => {
                assert(first_success_index(order, healthy) == Some(k + 1));
                assert(dropped[k] == order[k + 1]);
                assert forall|j: int| 0 <= j < k + 1 implies !healthy[(#[trigger] order[j]) as int] by {
                    if j > 0 {
                        assert(dropped[j - 1] == order[j]);
                        assert(!healthy[dropped[j - 1] as int]);
                    }
                }
            },
            None => {
                assert forall|j: int|
                    0 <= j < order.len() implies !healthy[(#[trigger] order[j]) as int] by {
                    if j > 0 {
                        assert(dropped[j - 1] == order[j]);
                        assert(!healthy[dropped[j - 1] as int]);
                    }
                }
            },
        }
    }
}

/// `first_success_index` is determined by where the failures stop: if the
/// first `k` nodes of the order fail and the node at `k` (when there is
/// one) succeeds, the first success stands at `k`.
proof fn lemma_first_success_index_is(order: Seq<usize>, healthy: Seq<bool>, k: int)
    requires
        0 <= k <= order.len(),
        forall|j: int| 0 <= j < k ==> !healthy[(#[trigger] order[j]) as int],
        k < order.len() ==> healthy[order[k] as int],
    ensures
        first_success_index(order, healthy) == if k < order.len() {
            Some(k)
        } else {
            None::<int>
        },
    decreases order.len(),
{
    if order.len() == 0 {
    } else if healthy[order[0] as int] {
        assert(k == 0);
    } else {
        assert(k > 0) by {
            assert(!healthy[order[0] as int]);
        }
        assert forall|j: int| 0 <= j < k - 1 implies !healthy[(#[trigger] order.drop_first()[j])
            as int] by {
            assert(order.drop_first()[j] == order[j + 1]);
        }
        if k < order.len() {
            assert(order.drop_first()[k - 1] == order[k]);
        }
        lemma_first_success_index_is(order.drop_first(), healthy, k - 1);
    }
}

/// If exactly one node is healthy, every failover pass succeeds, and on
/// that node, wherever the shuffle placed it in the order.
pub proof fn lemma_single_healthy_node_always_succeeds(
    order: Seq<usize>,
    healthy: Seq<bool>,
    h: usize,
)
    requires
        is_permutation_of(order, healthy.len()),
        h < healthy.len(),
        healthy[h as int],
        forall|j: int| 0 <= j < healthy.len() && j != h ==> !healthy[j],
    ensures
        first_success_index(order, healthy) matches Some(k) && order[k] == h,
{
    lemma_permutation_properties(order, healthy.len());
    assert(order.contains(h));
    let w = choose|w: int| 0 <= w < order.len() && order[w] == h;
    lemma_first_success_index(order, healthy);
    match first_success_index(order, healthy) {
        Some(k) => {
            assert(healthy[order[k] as int]);
            assert(order[k] < healthy.len());
            assert(order[k] == h);
        },
        None => {
            assert(!healthy[(order[w]) as int]);
            assert(false);
        },
    }
}

/// Relies on `rand::rngs::StdRng::from_entropy` and
/// `rand::seq::SliceRandom::shuffle`: the shuffle reorders the slice in
/// place by element swaps, so the multiset of elements is unchanged. The
/// ordering that comes out depends on fresh per-call randomness, so
/// nothing more is stated of it.
#[verifier::external_body]
fn shuffle_indices(v: &mut Vec<usize>)
    ensures
        final(v)@.to_multiset() == old(v)@.to_multiset(),
{
    let mut rng: rand::rngs::StdRng = rand::SeedableRng::from_entropy();
    rand::seq::SliceRandom::shuffle(v.as_mut_slice(), &mut rng);
}

/// The node-failover executor's decision state for one logical operation:
/// a freshly shuffled ordering of a cluster's node indices, how many of
/// them have been attempted so far, and the error of the last failed
/// attempt.
///
/// The caller performing the wire calls asks `next_node` which node to
/// try, reports each failed attempt through `record_failure`, stops at the
/// first success, and takes the aggregate error from `failure` once every
/// node has been attempted.
#[derive(Debug)]
pub struct FailoverExecutor {
    order: Vec<usize>,
    pos: usize,
    last_error: Option<EsError>,
}

impl FailoverExecutor {
    /// The shuffled ordering of node indices for this pass.
    pub closed spec fn order(&self) -> Seq<usize> {
        self.order@
    }

    /// How many nodes have been attempted (and failed) so far.
    pub closed spec fn attempts_made(&self) -> nat {
        self.pos as nat
    }

    /// How many nodes the cluster has.
    pub closed spec fn node_count(&self) -> nat {
        self.order@.len()
    }

    /// The error of the last failed attempt.
    pub closed spec fn last_failure(&self) -> Option<EsError> {
        self.last_error
    }

    pub open spec fn wf(&self) -> bool {
        &&& is_permutation_of(self.order(), self.node_count())
        &&& self.attempts_made() <= self.node_count()
        &&& (self.attempts_made() > 0 ==> self.last_failure() is Some)
    }

    /// Starts a failover pass over `node_count` nodes: a freshly shuffled
    /// ordering of the indices `0 .. node_count`, none attempted yet.
    pub fn new(node_count: usize) -> (ex: Self)
        ensures
            ex.wf(),
            ex.node_count() == node_count,
            ex.attempts_made() == 0,
            ex.last_failure() is None,
    {
        let mut order: Vec<usize> = Vec::new();
        let mut i: usize = 0;
        while i < node_count
            invariant
                i <= node_count,
                order@ == index_sequence(i as nat),
            decreases node_count - i,
        {
            order.push(i);
            i = i + 1;
            proof {
                assert(order@ =~= index_sequence(i as nat));
            }
        }
        shuffle_indices(&mut order);
        proof {
            broadcast use group_to_multiset_ensures;

            let idx = index_sequence(node_count as nat);
            assert(order@.to_multiset() == idx.to_multiset());
            assert(order@.to_multiset().len() == idx.to_multiset().len());
            assert(order@.len() == node_count);
        }
        FailoverExecutor { order, pos: 0, last_error: None }
    }

    /// The node to try next: the first not-yet-attempted index in the
    /// shuffled order, or `None` when every node has been attempted.
    pub fn next_node(&self) -> (r: Option<usize>)
        requires
            self.wf(),
        ensures
            r == if self.attempts_made() < self.node_count() {
                Some(self.order()[self.attempts_made() as int])
            } else {
                None::<usize>
            },
            r matches Some(node) ==> node < self.node_count(),
    {
        if self.pos < self.order.len() {
            proof {
                lemma_permutation_properties(self.order@, self.order@.len());
            }
            Some(self.order[self.pos])
        } else {
            None
        }
    }

    /// Records that the node `next_node` handed out failed with `err` and
    /// moves on to the next node of the shuffled order.
    pub fn record_failure(&mut self, err: EsError)
        requires
            old(self).wf(),
            old(self).attempts_made() < old(self).node_count(),
        ensures
            final(self).wf(),
            final(self).order() == old(self).order(),
            final(self).attempts_made() == old(self).attempts_made() + 1,
            final(self).last_failure() == Some(err),
    {
        let n: usize = self.order.len();
        assert(self.pos < n);
        self.pos = self.pos + 1;
        self.last_error = Some(err);
    }

    /// Whether every node has been attempted without success.
    pub fn exhausted(&self) -> (r: bool)
        ensures
            r == (self.attempts_made() == self.node_count()),
    {
        self.pos == self.order.len()
    }

    /// The aggregate error of an exhausted pass: a `TransportError` whose
    /// text carries the last attempted node's failure.
    pub fn failure(&self) -> (e: EsError)
        requires
            self.wf(),
            self.attempts_made() == self.node_count(),
            self.node_count() > 0,
        ensures
            e matches EsError::TransportError(m) && m@ == "all nodes failed; last error: "@
                + self.last_failure().unwrap().spec_describe(),
    {
        match &self.last_error {
            Some(prev) => EsError::TransportError(
                String::from_str("all nodes failed; last error: ").concat(
                    prev.describe().as_str(),
                ),
            ),
            None => {
                proof {
                    assert(false);
                }
                EsError::TransportError(String::from_str("all nodes failed"))
            },
        }
    }

    /// Drives a whole failover pass against a table of per-node outcomes,
    /// `outcomes[j]` standing for what an attempt on node `j` returns.
    /// Nodes are attempted in the shuffled order; the pass stops at the
    /// first success and returns that node, or returns `None` once every
    /// node has been attempted exactly once.
    pub fn run(&mut self, outcomes: &Vec<Result<(), EsError>>) -> (r: Option<usize>)
        requires
            old(self).wf(),
            old(self).attempts_made() == 0,
            outcomes@.len() == old(self).node_count(),
        ensures
            final(self).wf(),
            final(self).order() == old(self).order(),
            r == match first_success_index(old(self).order(), health_of(outcomes@)) {
                Some(k) => Some(old(self).order()[k]),
                None => None::<usize>,
            },
            r is None ==> final(self).attempts_made() == final(self).node_count(),
            r is None && old(self).node_count() > 0 ==> (outcomes@[old(self).order()[
                old(self).node_count() - 1] as int] matches Err(e) && final(self).last_failure()
                == Some(e)),
            r matches Some(node) ==> node < outcomes@.len() && outcomes@[node as int] is Ok,
    {
        let ghost order = self.order();
        let ghost healthy = health_of(outcomes@);
        loop
            invariant
                self.wf(),
                self.order() == order,
                order == old(self).order(),
                outcomes@.len() == self.node_count(),
                healthy == health_of(outcomes@),
                self.attempts_made() <= self.node_count(),
                forall|j: int|
                    0 <= j < self.attempts_made() ==> !healthy[(#[trigger] order[j]) as int],
                self.attempts_made() > 0 ==> (outcomes@[order[self.attempts_made() - 1] as int]
                    matches Err(e) && self.last_failure() == Some(e)),
            decreases self.node_count() - self.attempts_made(),
        {
            match self.next_node() {
                None => {
                    proof {
                        lemma_first_success_index_is(order, healthy, order.len() as int);
                    }
                    return None;
                },
                Some(node) => {
                    match &outcomes[node] {
                        Ok(_) => {
                            proof {
                                lemma_first_success_index_is(
                                    order,
                                    healthy,
                                    self.attempts_made() as int,
                                );
                            }
                            return Some(node);
                        },
                        Err(e) => {
                            self.record_failure(e.clone());
                        },
                    }
                },
            }
        }
    }
}

/// Which nodes an outcome table reports as healthy.
pub open spec fn health_of(outcomes: Seq<Result<(), EsError>>) -> Seq<bool> {
    outcomes.map_values(|o: Result<(), EsError>| o is Ok)
}

} // verus!
