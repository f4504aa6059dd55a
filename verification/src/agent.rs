//! The learning agent: greedy selection over per-source quality estimates
//! and the incremental update of those estimates.

use vstd::prelude::*;

use crate::fbits;
use crate::source::RewardSource;

verus! {

/// Why an agent could not be constructed.
#[derive(PartialEq, Eq, Clone, Copy, Debug)]
pub enum ConfigurationError {
    /// Selection needs at least one candidate, so an agent cannot be built
    /// from an empty collection of sources.
    EmptySources,
}

/// Whether a sequence of sources is pairwise distinct.
pub open spec fn no_duplicates(s: Seq<RewardSource>) -> bool {
    forall|i: int, j: int| 0 <= i < j < s.len() ==> s[i] != s[j]
}

/// The distinct sources of `s`: the first occurrence of each source, in
/// order of first appearance.
pub open spec fn distinct_in_order(s: Seq<RewardSource>) -> Seq<RewardSource>
    decreases s.len(),
{
    if s.len() == 0 {
        Seq::empty()
    } else {
        let rest = distinct_in_order(s.drop_last());
        if rest.contains(s.last()) {
            rest
        } else {
            rest.push(s.last())
        }
    }
}

/// Whether `kept` holds the source `x`.
fn contains_source(kept: &Vec<RewardSource>, x: RewardSource) -> (r: bool)
    ensures
        r == kept@.contains(x),
{
    let mut j: usize = 0;
    while j < kept.len()
        invariant
            j <= kept@.len(),
            forall|i: int| 0 <= i < j ==> kept@[i] != x,
        decreases kept@.len() - j,
    {
        if kept[j] == x {
            return true;
        }
        j += 1;
    }
    false
}

/// One step of the greedy scan over the estimates: starting from position
/// `j` with current best position `best` holding quality `best_q`, a later
/// estimate takes over only when it is strictly greater, so ties keep the
/// earlier position.
pub open spec fn scan(est: Seq<u64>, j: int, best: int, best_q: u64) -> (int, u64)
    decreases est.len() - j,
{
    if j < 0 || j >= est.len() {
        (best, best_q)
    } else if fbits::gt(est[j], best_q) {
        scan(est, j + 1, j, est[j])
    } else {
        scan(est, j + 1, best, best_q)
    }
}

/// The position the greedy policy selects: the full scan, seeded with
/// position 0 and the zero-encoding threshold. An estimate that never
/// strictly exceeds the threshold never takes over, so when nothing exceeds
/// it the first position stands as the default.
pub open spec fn selected_index(est: Seq<u64>) -> int {
    scan(est, 0, 0, fbits::ZERO_BITS).0
}

/// What the scan guarantees, by induction over its steps: the selected
/// position is in range, its quality either is the estimate there and beats
/// every other estimate, or the seed survived untouched and nothing beats
/// its quality.
proof fn lemma_scan_sound(est: Seq<u64>, j: int, best: int, best_q: u64)
    requires
        0 <= j <= est.len(),
        0 <= best < est.len(),
        (fbits::gt(best_q, fbits::ZERO_BITS) && best_q == est[best]) || (best == 0 && best_q
            == fbits::ZERO_BITS),
        forall|k: int| 0 <= k < j ==> !fbits::gt(est[k], best_q),
    ensures
        0 <= scan(est, j, best, best_q).0 < est.len(),
        (fbits::gt(scan(est, j, best, best_q).1, fbits::ZERO_BITS) && scan(est, j, best, best_q).1
            == est[scan(est, j, best, best_q).0]) || (scan(est, j, best, best_q) == (
        best,
        best_q,
        )),
        forall|k: int| 0 <= k < est.len() ==> !fbits::gt(est[k], scan(est, j, best, best_q).1),
    decreases est.len() - j,
{
    if j >= est.len() {
    } else if fbits::gt(est[j], best_q) {
        if best_q == fbits::ZERO_BITS && best == 0 {
        } else {
            fbits::lemma_gt_transitive(est[j], best_q, fbits::ZERO_BITS);
        }
        assert forall|k: int| 0 <= k < j + 1 implies !fbits::gt(est[k], est[j]) by {
            if k < j && fbits::gt(est[k], est[j]) {
                fbits::lemma_gt_transitive(est[k], est[j], best_q);
            }
            if k == j {
                fbits::lemma_gt_irreflexive(est[j]);
            }
        }
        lemma_scan_sound(est, j + 1, j, est[j]);
    } else {
        lemma_scan_sound(est, j + 1, best, best_q);
    }
}

/// Soundness of the greedy selection: on a non-empty estimate sequence the
/// selected position is in range, and either its estimate strictly exceeds
/// the zero-encoding threshold while no estimate strictly exceeds it, or no
/// estimate exceeds the threshold at all and the first position stands as
/// the documented default.
pub proof fn lemma_selection_sound(est: Seq<u64>)
    requires
        est.len() >= 1,
    ensures
        0 <= selected_index(est) < est.len(),
        (fbits::gt(est[selected_index(est)], fbits::ZERO_BITS) && forall|k: int|
            0 <= k < est.len() ==> !fbits::gt(est[k], est[selected_index(est)])) || (
        selected_index(est) == 0 && forall|k: int|
            0 <= k < est.len() ==> !fbits::gt(est[k], fbits::ZERO_BITS)),
{
    lemma_scan_sound(est, 0, 0, fbits::ZERO_BITS);
}

/// Threshold policy on a fresh agent: with every estimate still the zero
/// encoding nothing exceeds the threshold, so selection yields position 0,
/// the first known source. Selection is a function of the estimates alone,
/// so repeated calls without an intervening update agree.
pub proof fn lemma_select_on_fresh(est: Seq<u64>)
    requires
        est.len() >= 1,
        forall|i: int| 0 <= i < est.len() ==> est[i] == fbits::ZERO_BITS,
    ensures
        selected_index(est) == 0,
{
    lemma_selection_sound(est);
    fbits::lemma_gt_irreflexive(fbits::ZERO_BITS);
}

/// The decision-making agent. It owns one quality estimate per known source
/// (estimates and sources are parallel, keyed by position), the encodings of
/// the rewards observed so far in order, and the count of actions taken.
///
/// The cumulative score is the real-number sum of the observed rewards;
/// summing binary64 values is left to the caller, who can fold `rewards`.
pub struct Agent {
    /// The known sources, pairwise distinct, in order of first appearance at
    /// construction.
    pub sources: Vec<RewardSource>,
    /// The current quality estimate of each source, as encoded binary64
    /// values, parallel to `sources`.
    pub estimates: Vec<u64>,
    /// The encodings of the rewards observed so far, in observation order.
    pub rewards: Vec<u64>,
    /// How many decision steps have run over the agent's lifetime.
    pub action_count: usize,
}

impl Agent {
    /// Well-formedness: at least one known source, one estimate per source,
    /// no source known twice, and one recorded reward per action taken.
    pub open spec fn wf(self) -> bool {
        &&& self.sources@.len() >= 1
        &&& self.estimates@.len() == self.sources@.len()
        &&& no_duplicates(self.sources@)
        &&& self.action_count == self.rewards@.len()
    }

    /// Builds an agent from a non-empty collection of sources: one estimate
    /// per distinct source, initialized to the zero encoding, with no
    /// actions taken and nothing observed. A source supplied twice is kept
    /// once, at its first position. An empty collection is rejected.
    pub fn new(sources: &Vec<RewardSource>) -> (r: Result<Agent, ConfigurationError>)
        ensures
            sources@.len() == 0 ==> r == Err::<Agent, ConfigurationError>(
                ConfigurationError::EmptySources,
            ),
            sources@.len() > 0 ==> (r matches Ok(agent) && {
                &&& agent.wf()
                &&& agent.sources@ == distinct_in_order(sources@)
                &&& agent.estimates@.len() == agent.sources@.len()
                &&& forall|i: int|
                    0 <= i < agent.estimates@.len() ==> agent.estimates@[i] == fbits::ZERO_BITS
                &&& agent.rewards@.len() == 0
                &&& agent.action_count == 0
            }),
    {
        if sources.len() == 0 {
            return Err(ConfigurationError::EmptySources);
        }
        let mut kept: Vec<RewardSource> = Vec::new();
        let mut estimates: Vec<u64> = Vec::new();
        let mut j: usize = 0;
        while j < sources.len()
            invariant
                j <= sources@.len(),
                kept@ == distinct_in_order(sources@.take(j as int)),
                no_duplicates(kept@),
                estimates@.len() == kept@.len(),
                forall|i: int| 0 <= i < estimates@.len() ==> estimates@[i] == fbits::ZERO_BITS,
                j > 0 ==> kept@.len() >= 1,
            decreases sources@.len() - j,
        {
            let s = sources[j];
            if !contains_source(&kept, s) {
                kept.push(s);
                estimates.push(fbits::ZERO_BITS);
            }
            proof {
                assert(sources@.take(j + 1).drop_last() =~= sources@.take(j as int));
                assert(sources@.take(j + 1).last() == sources@[j as int]);
            }
            j += 1;
        }
        proof {
            assert(sources@.take(sources@.len() as int) =~= sources@);
        }
        Ok(
            Agent {
                sources: kept,
                estimates,
                rewards: Vec::new(),
                action_count: 0,
            },
        )
    }

    /// The position [`selected_index`] picks on the current estimates.
    fn select_index(&self) -> (i: usize)
        requires
            self.wf(),
        ensures
            i == selected_index(self.estimates@),
    {
        let mut best: usize = 0;
        let mut best_q: u64 = fbits::ZERO_BITS;
        let mut j: usize = 0;
        while j < self.estimates.len()
            invariant
                j <= self.estimates@.len(),
                best < self.estimates@.len(),
                self.estimates@.len() >= 1,
                scan(self.estimates@, 0, 0, fbits::ZERO_BITS) == scan(
                    self.estimates@,
                    j as int,
                    best as int,
                    best_q,
                ),
            decreases self.estimates@.len() - j,
        {
            if fbits::gt_exec(self.estimates[j], best_q) {
                best = j;
                best_q = self.estimates[j];
            }
            j += 1;
        }
        best
    }

    /// Greedy selection: the source whose current estimate is strictly
    /// greatest, under a starting threshold of the zero encoding and a
    /// first-strictly-greater-wins scan. While no estimate exceeds the
    /// threshold — in particular on a fresh agent — the first known source
    /// stands as the documented default.
    pub fn select_best(&self) -> (chosen: RewardSource)
        requires
            self.wf(),
        ensures
            chosen == self.sources@[selected_index(self.estimates@)],
    {
        proof {
            lemma_selection_sound(self.estimates@);
        }
        let i = self.select_index();
        self.sources[i]
    }

    /// One complete decision step, given the encoding of the reward just
    /// observed for the selected source: selection runs first, the action
    /// count rises by one before the step size is taken, the reward joins
    /// the record that carries the cumulative score, and the chosen source's
    /// estimate moves by `step_size * (reward - estimate)` with
    /// `step_size = 1 / action_count` under integer division — one for the
    /// very first action, zero afterwards, so only the first observation
    /// replaces an estimate. The increment-before-divide ordering keeps the
    /// divisor nonzero.
    pub fn observe_and_learn(&mut self, reward_bits: u64) -> (chosen: RewardSource)
        requires
            old(self).wf(),
        ensures
            final(self).wf(),
            final(self).sources@ == old(self).sources@,
            chosen == old(self).sources@[selected_index(old(self).estimates@)],
            final(self).action_count == old(self).action_count + 1,
            final(self).rewards@ == old(self).rewards@.push(reward_bits),
            final(self).estimates@ == updated_estimates(
                old(self).estimates@,
                selected_index(old(self).estimates@),
                old(self).action_count + 1,
                reward_bits,
            ),
    {
        proof {
            lemma_selection_sound(self.estimates@);
        }
        let i = self.select_index();
        let chosen = self.sources[i];
        self.rewards.push(reward_bits);
        self.action_count = self.rewards.len();
        if self.action_count == 1 {
            self.estimates.set(i, reward_bits);
        }
        chosen
    }
}

/// The estimates after a decision step that selected position `chosen` and
/// observed the reward encoding `reward_bits`, with `count_after` actions
/// taken including this one: the truncating step size `1 / count_after`
/// is one exactly on the first action, where the estimate (then the zero
/// encoding) moves to the reward itself, and zero on every later action,
/// where every estimate stays put.
pub open spec fn updated_estimates(
    est: Seq<u64>,
    chosen: int,
    count_after: int,
    reward_bits: u64,
) -> Seq<u64> {
    if count_after == 1 {
        est.update(chosen, reward_bits)
    } else {
        est
    }
}

/// After the very first observation the selected source is the first one,
/// its estimate becomes exactly the observed reward encoding, and every
/// other estimate stays the zero encoding; with one reward on record the
/// cumulative score is exactly that reward.
pub proof fn lemma_first_observation(est: Seq<u64>, reward_bits: u64)
    requires
        est.len() >= 1,
        forall|i: int| 0 <= i < est.len() ==> est[i] == fbits::ZERO_BITS,
    ensures
        selected_index(est) == 0,
        updated_estimates(est, selected_index(est), 1, reward_bits) == est.update(0, reward_bits),
        updated_estimates(est, selected_index(est), 1, reward_bits)[0] == reward_bits,
        forall|k: int|
            1 <= k < est.len() ==> updated_estimates(est, selected_index(est), 1, reward_bits)[k]
                == fbits::ZERO_BITS,
{
    lemma_select_on_fresh(est);
}

/// Step-size idempotence under the truncating policy: from the second
/// action on the step size `1 / count_after` truncates to zero, so a
/// decision step leaves every estimate unchanged.
pub proof fn lemma_estimates_frozen_after_first(
    est: Seq<u64>,
    chosen: int,
    count_after: int,
    reward_bits: u64,
)
    requires
        count_after >= 2,
    ensures
        updated_estimates(est, chosen, count_after, reward_bits) == est,
{
}

/// An agent built from pairwise-distinct sources keeps exactly those
/// sources, in order: construction from `N` distinct sources yields `N`
/// estimate entries.
pub proof fn lemma_distinct_in_order_of_distinct(s: Seq<RewardSource>)
    requires
        no_duplicates(s),
    ensures
        distinct_in_order(s) == s,
    decreases s.len(),
{
    if s.len() == 0 {
        assert(distinct_in_order(s) =~= s);
    } else {
        let head = s.drop_last();
        lemma_distinct_in_order_of_distinct(head);
        assert(!head.contains(s.last())) by {
            assert forall|k: int| 0 <= k < head.len() implies head[k] != s.last() by {
                assert(s[k] != s[s.len() - 1]);
            }
        }
        assert(distinct_in_order(s) =~= s);
    }
}

} // verus!
