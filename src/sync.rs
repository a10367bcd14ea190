//! Deciding what to do with each release of a batch, and the per-release
//! sequence of outside work: fetch metadata, publish a branch, reset the
//! working copy to its baseline, open a pull request.
//!
//! The sequence is a state machine: `BatchRun::next_action` names the work to
//! do, and `BatchRun::advance` takes whether it succeeded. A failure only ever
//! ends the release it belongs to.

use crate::dist::Release;
use crate::trunk::ReducedTrunkToml;
use crate::version::{compare_by_semver, version_cmp};
use std::cmp::Ordering;
use vstd::prelude::*;

verus! {

/// What a release calls for.
#[derive(Debug, Clone, Copy, PartialEq, Eq, Structural)]
pub enum Decision {
    /// The registry has no entry for the distribution.
    New,
    /// The registry's entry is older than the release.
    Update,
    /// The registry's entry is as new as the release, or newer.
    Skip,
}

impl ReducedTrunkToml {
    /// The entry is for the distribution `dist`, by its name or its alias.
    pub open spec fn matches_dist(self, dist: Seq<char>) -> bool {
        self.extension.name@ == dist || (self.extension.extension_name matches Some(a) && a@
            == dist)
    }

    /// Whether this entry is for `release`'s distribution.
    pub fn matches(&self, release: &Release) -> (r: bool)
        ensures
            r == self.matches_dist(release.dist@),
    {
        if self.extension.name == release.dist {
            return true;
        }
        match &self.extension.extension_name {
            Some(alias) => *alias == release.dist,
            None => false,
        }
    }
}

/// The first entry of `entries` for `dist`.
pub open spec fn first_match(entries: Seq<ReducedTrunkToml>, dist: Seq<char>) -> Option<
    ReducedTrunkToml,
>
    decreases entries.len(),
{
    if entries.len() == 0 {
        None
    } else if entries[0].matches_dist(dist) {
        Some(entries[0])
    } else {
        first_match(entries.drop_first(), dist)
    }
}

/// The decision for a release of version `version`, given the registry's
/// entry for its distribution, if any.
pub open spec fn decision_of(entry: Option<ReducedTrunkToml>, version: Seq<char>) -> Decision {
    match entry {
        None => Decision::New,
        Some(e) => if version_cmp(version, e.extension.version@) == Ordering::Greater {
            Decision::Update
        } else {
            Decision::Skip
        },
    }
}

pub open spec fn decision_for(entries: Seq<ReducedTrunkToml>, release: Release) -> Decision {
    decision_of(first_match(entries, release.dist@), release.version@)
}

/// The first of `entries` that is for `release`'s distribution.
pub fn find_entry<'a>(entries: &'a Vec<ReducedTrunkToml>, release: &Release) -> (r: Option<
    &'a ReducedTrunkToml,
>)
    ensures
        match r {
            Some(e) => first_match(entries@, release.dist@) == Some(*e),
            None => first_match(entries@, release.dist@) is None,
        },
{
    let mut i: usize = 0;
    assert(entries@.skip(0) =~= entries@);
    while i < entries.len()
        invariant
            i <= entries@.len(),
            first_match(entries@, release.dist@) == first_match(entries@.skip(i as int), release.dist@),
        decreases entries@.len() - i,
    {
        assert(entries@.skip(i as int)[0] == entries@[i as int]);
        if entries[i].matches(release) {
            return Some(&entries[i]);
        }
        assert(entries@.skip(i as int).drop_first() =~= entries@.skip(i + 1));
        i = i + 1;
    }
    None
}

/// Decides a release against the registry's entry for its distribution.
pub fn reconcile(version: &String, entry: Option<&ReducedTrunkToml>) -> (r: Decision)
    ensures
        r == decision_of(
            match entry {
                Some(e) => Some(*e),
                None => None,
            },
            version@,
        ),
{
    match entry {
        None => Decision::New,
        Some(e) => {
            match compare_by_semver(version.as_str(), e.extension.version.as_str()) {
                Ordering::Greater => Decision::Update,
                _ => Decision::Skip,
            }
        },
    }
}

/// Decides a release against the registry's entries.
pub fn decide(entries: &Vec<ReducedTrunkToml>, release: &Release) -> (r: Decision)
    ensures
        r == decision_for(entries@, *release),
{
    let entry = find_entry(entries, release);
    reconcile(&release.version, entry)
}

/// One release of a batch, by its position in the feed, and its decision.
#[derive(Debug, Clone, Copy, PartialEq, Eq, Structural)]
pub struct BatchItem {
    pub index: usize,
    pub decision: Decision,
}

/// Decides every release of the feed (given most recent first), listing them
/// oldest first, so that older releases of a distribution go before newer ones.
pub fn plan_batch(releases: &Vec<Release>, entries: &Vec<ReducedTrunkToml>) -> (r: Vec<BatchItem>)
    ensures
        r@.len() == releases@.len(),
        forall|k: int|
            0 <= k < r@.len() ==> {
                let i = releases@.len() - 1 - k;
                &&& (#[trigger] r@[k]).index == i
                &&& r@[k].decision == decision_for(entries@, releases@[i])
            },
{
    let mut plan: Vec<BatchItem> = Vec::new();
    let n = releases.len();
    let mut i: usize = n;
    while i > 0
        invariant
            i <= n,
            n == releases@.len(),
            plan@.len() == n - i,
            forall|k: int|
                0 <= k < plan@.len() ==> {
                    let j = n - 1 - k;
                    &&& (#[trigger] plan@[k]).index == j
                    &&& plan@[k].decision == decision_for(entries@, releases@[j])
                },
        decreases i,
    {
        i = i - 1;
        let decision = decide(entries, &releases[i]);
        let ghost before = plan@;
        plan.push(BatchItem { index: i, decision });
        assert(forall|k: int| 0 <= k < before.len() ==> plan@[k] == before[k]);
        assert(plan@[n - 1 - i] == BatchItem { index: i, decision });
    }
    plan
}

/// The step of a release that is under way.
#[derive(Debug, Clone, Copy, PartialEq, Eq, Structural)]
pub enum Stage {
    /// Fetching the release's metadata document.
    Metadata,
    /// Writing the manifest, committing it on a new branch and pushing it.
    Publish,
    /// Resetting the working copy to the baseline.
    Reset,
    /// Opening the pull request.
    PullRequest,
}

/// What became of a release.
#[derive(Debug, Clone, Copy, PartialEq, Eq, Structural)]
pub enum Outcome {
    /// Not handled yet.
    Pending,
    /// The registry is up to date for it.
    Skipped,
    /// Its branch was pushed and its pull request opened.
    Published,
    /// It failed at the given step.
    Failed(Stage),
}

/// The outside work to do next, for the release at the given feed position.
#[derive(Debug, Clone, Copy, PartialEq, Eq, Structural)]
pub enum Action {
    FetchMetadata(usize),
    Publish(usize),
    ResetToBaseline(usize),
    OpenPullRequest(usize),
    Done,
}

/// The progress of a batch.
pub struct BatchRun {
    pub plan: Vec<BatchItem>,
    /// Position in `plan` of the release under way; `plan.len()` when done.
    pub pos: usize,
    pub stage: Stage,
    /// Whether the release under way had its branch pushed.
    pub pushed: bool,
    /// One outcome per item of `plan`.
    pub outcomes: Vec<Outcome>,
}

/// The abstract state of a batch.
pub struct RunModel {
    pub plan: Seq<BatchItem>,
    pub pos: int,
    pub stage: Stage,
    pub pushed: bool,
    pub outcomes: Seq<Outcome>,
}

/// The first position at or after `from` whose release is not skipped, or
/// the plan's length if there is none.
pub open spec fn next_pending(plan: Seq<BatchItem>, from: int) -> int
    decreases plan.len() - from,
{
    if from >= plan.len() {
        plan.len() as int
    } else if plan[from].decision != Decision::Skip {
        from
    } else {
        next_pending(plan, from + 1)
    }
}

pub open spec fn initial_outcome(item: BatchItem) -> Outcome {
    if item.decision == Decision::Skip {
        Outcome::Skipped
    } else {
        Outcome::Pending
    }
}

/// The state before any work: skipped releases are settled, the first other
/// release starts with its metadata.
pub open spec fn initial_model(plan: Seq<BatchItem>) -> RunModel {
    RunModel {
        plan,
        pos: next_pending(plan, 0),
        stage: Stage::Metadata,
        pushed: false,
        outcomes: plan.map_values(|item: BatchItem| initial_outcome(item)),
    }
}

/// Settles the release under way with `o` and moves to the next one.
pub open spec fn finish_item(m: RunModel, o: Outcome) -> RunModel {
    RunModel {
        plan: m.plan,
        pos: next_pending(m.plan, m.pos + 1),
        stage: Stage::Metadata,
        pushed: false,
        outcomes: m.outcomes.update(m.pos, o),
    }
}

/// The state after the current work, which succeeded when `ok` holds.
pub open spec fn step_model(m: RunModel, ok: bool) -> RunModel {
    if m.pos >= m.plan.len() {
        m
    } else {
        match m.stage {
            Stage::Metadata => if ok {
                RunModel { stage: Stage::Publish, ..m }
            } else {
                finish_item(m, Outcome::Failed(Stage::Metadata))
            },
            Stage::Publish => RunModel {
                stage: Stage::Reset,
                pushed: ok,
                outcomes: if ok {
                    m.outcomes
                } else {
                    m.outcomes.update(m.pos, Outcome::Failed(Stage::Publish))
                },
                ..m
            },
            Stage::Reset => if !m.pushed {
                RunModel { pos: next_pending(m.plan, m.pos + 1), stage: Stage::Metadata, ..m }
            } else if ok {
                RunModel { stage: Stage::PullRequest, ..m }
            } else {
                finish_item(m, Outcome::Failed(Stage::Reset))
            },
            Stage::PullRequest => finish_item(
                m,
                if ok {
                    Outcome::Published
                } else {
                    Outcome::Failed(Stage::PullRequest)
                },
            ),
        }
    }
}

pub open spec fn action_of(m: RunModel) -> Action {
    if m.pos < 0 || m.pos >= m.plan.len() {
        Action::Done
    } else {
        let i = m.plan[m.pos].index;
        match m.stage {
            Stage::Metadata => Action::FetchMetadata(i),
            Stage::Publish => Action::Publish(i),
            Stage::Reset => Action::ResetToBaseline(i),
            Stage::PullRequest => Action::OpenPullRequest(i),
        }
    }
}

/// A state the batch can be in: the outcomes line up with the plan, and the
/// release under way is one that is not skipped.
pub open spec fn model_wf(m: RunModel) -> bool {
    &&& m.outcomes.len() == m.plan.len()
    &&& 0 <= m.pos <= m.plan.len()
    &&& m.pos < m.plan.len() ==> m.plan[m.pos].decision != Decision::Skip
    &&& m.plan.len() < usize::MAX
    &&& m.pos < m.plan.len() ==> m.outcomes[m.pos] == if m.stage == Stage::Reset && !m.pushed {
        Outcome::Failed(Stage::Publish)
    } else {
        Outcome::Pending
    }
    &&& forall|k: int| 0 <= k < m.pos ==> #[trigger] m.outcomes[k] != Outcome::Pending
    &&& forall|k: int|
        m.pos < k < m.plan.len() ==> #[trigger] m.outcomes[k] == initial_outcome(m.plan[k])
}

proof fn lemma_next_pending(plan: Seq<BatchItem>, from: int)
    requires
        0 <= from,
    ensures
        from <= next_pending(plan, from) || from > plan.len(),
        next_pending(plan, from) <= plan.len(),
        next_pending(plan, from) < plan.len() ==> plan[next_pending(plan, from)].decision
            != Decision::Skip,
        forall|j: int| from <= j < next_pending(plan, from) ==> (#[trigger] plan[j]).decision
            == Decision::Skip,
    decreases plan.len() - from,
{
    if from < plan.len() && plan[from].decision == Decision::Skip {
        lemma_next_pending(plan, from + 1);
    }
}

/// Stepping keeps the state one the batch can be in.
pub proof fn lemma_step_wf(m: RunModel, ok: bool)
    requires
        model_wf(m),
    ensures
        model_wf(step_model(m, ok)),
{
    lemma_next_pending(m.plan, m.pos + 1);
    let n = step_model(m, ok);
    if m.pos < m.plan.len() && n.pos != m.pos {
        assert forall|k: int| 0 <= k < n.pos implies #[trigger] n.outcomes[k] != Outcome::Pending by {
            if m.pos < k {
                assert(m.plan[k].decision == Decision::Skip);
            }
        }
    }
}

/// How much work is left: four steps for each release from the current one
/// on, less the steps the current one has taken.
pub open spec fn remaining_work(m: RunModel) -> int {
    4 * (m.plan.len() - m.pos) - match m.stage {
        Stage::Metadata => 0int,
        Stage::Publish => 1,
        Stage::Reset => 2,
        Stage::PullRequest => 3,
    }
}

/// Every step, whatever its result, takes the batch closer to its end, so a
/// batch always finishes.
pub proof fn lemma_step_progress(m: RunModel, ok: bool)
    requires
        model_wf(m),
        m.pos < m.plan.len(),
    ensures
        0 <= remaining_work(step_model(m, ok)) < remaining_work(m),
{
    lemma_next_pending(m.plan, m.pos + 1);
}

/// When the batch is done, every release has an outcome: none is left
/// pending, whichever releases failed.
pub proof fn lemma_done_all_settled(m: RunModel)
    requires
        model_wf(m),
        action_of(m) == Action::Done,
    ensures
        forall|k: int| 0 <= k < m.outcomes.len() ==> #[trigger] m.outcomes[k] != Outcome::Pending,
{
}

/// A release whose four steps all succeed is published, and settling it
/// changes no other release's outcome.
pub proof fn lemma_success_publishes(m: RunModel)
    requires
        model_wf(m),
        m.pos < m.plan.len(),
        m.stage == Stage::Metadata,
    ensures
        ({
            let done = step_model(step_model(step_model(step_model(m, true), true), true), true);
            &&& done.outcomes[m.pos] == Outcome::Published
            &&& done.pos == next_pending(m.plan, m.pos + 1)
            &&& forall|k: int|
                0 <= k < m.outcomes.len() && k != m.pos ==> #[trigger] done.outcomes[k]
                    == m.outcomes[k]
        }),
{
}

/// A release's step, failed or not, settles no other release: the outcomes
/// of all other releases stay as they were. A failure ends only the release
/// it belongs to: the working copy is then reset if the release had started
/// to write, and the batch goes on with the next release that is not skipped.
/// A release that reached the publishing step is always followed by a reset.
pub proof fn lemma_failure_isolated(m: RunModel, ok: bool)
    requires
        model_wf(m),
        m.pos < m.plan.len(),
    ensures
        forall|k: int|
            0 <= k < m.outcomes.len() && k != m.pos ==> #[trigger] step_model(m, ok).outcomes[k]
                == m.outcomes[k],
        !ok ==> step_model(m, ok).pos == next_pending(m.plan, m.pos + 1) || (step_model(
            m,
            ok,
        ).pos == m.pos && step_model(m, ok).stage == Stage::Reset),
        !ok ==> step_model(m, ok).outcomes[m.pos] is Failed,
        m.stage == Stage::Publish ==> step_model(m, ok).stage == Stage::Reset && step_model(
            m,
            ok,
        ).pos == m.pos,
        step_model(m, ok).pos > m.pos || step_model(m, ok).stage != m.stage,
{
    lemma_next_pending(m.plan, m.pos + 1);
}

impl BatchRun {
    pub open spec fn model(&self) -> RunModel {
        RunModel {
            plan: self.plan@,
            pos: self.pos as int,
            stage: self.stage,
            pushed: self.pushed,
            outcomes: self.outcomes@,
        }
    }

    pub open spec fn wf(&self) -> bool {
        model_wf(self.model())
    }

    fn next_pending(plan: &Vec<BatchItem>, from: usize) -> (r: usize)
        requires
            plan@.len() < usize::MAX,
            from <= plan@.len(),
        ensures
            r as int == next_pending(plan@, from as int),
    {
        let mut k = from;
        while k < plan.len()
            invariant
                from <= k <= plan@.len(),
                next_pending(plan@, from as int) == next_pending(plan@, k as int),
            decreases plan@.len() - k,
        {
            if plan[k].decision != Decision::Skip {
                return k;
            }
            k = k + 1;
        }
        k
    }

    /// Starts a batch over `plan`.
    pub fn new(plan: Vec<BatchItem>) -> (r: Self)
        requires
            plan@.len() < usize::MAX,
        ensures
            r.model() == initial_model(plan@),
            r.wf(),
    {
        let mut outcomes: Vec<Outcome> = Vec::new();
        let mut i: usize = 0;
        while i < plan.len()
            invariant
                i <= plan@.len(),
                outcomes@ == plan@.take(i as int).map_values(|item: BatchItem| initial_outcome(item)),
            decreases plan@.len() - i,
        {
            let o = if plan[i].decision == Decision::Skip {
                Outcome::Skipped
            } else {
                Outcome::Pending
            };
            outcomes.push(o);
            assert(outcomes@ =~= plan@.take(i + 1).map_values(
                |item: BatchItem| initial_outcome(item),
            ));
            i = i + 1;
        }
        assert(plan@.take(i as int) =~= plan@);
        let pos = Self::next_pending(&plan, 0);
        proof {
            lemma_next_pending(plan@, 0);
        }
        BatchRun { plan, pos, stage: Stage::Metadata, pushed: false, outcomes }
    }

    /// The outside work to do next.
    pub fn next_action(&self) -> (r: Action)
        requires
            self.wf(),
        ensures
            r == action_of(self.model()),
    {
        if self.pos >= self.plan.len() {
            return Action::Done;
        }
        let i = self.plan[self.pos].index;
        match self.stage {
            Stage::Metadata => Action::FetchMetadata(i),
            Stage::Publish => Action::Publish(i),
            Stage::Reset => Action::ResetToBaseline(i),
            Stage::PullRequest => Action::OpenPullRequest(i),
        }
    }

    fn finish(&mut self, o: Outcome)
        requires
            old(self).wf(),
            old(self).pos < old(self).plan@.len(),
        ensures
            final(self).model() == finish_item(old(self).model(), o),
    {
        self.outcomes.set(self.pos, o);
        self.pos = Self::next_pending(&self.plan, self.pos + 1);
        self.stage = Stage::Metadata;
        self.pushed = false;
    }

    /// Records how the work named by `next_action` went.
    pub fn advance(&mut self, ok: bool)
        requires
            old(self).wf(),
        ensures
            final(self).model() == step_model(old(self).model(), ok),
            final(self).wf(),
    {
        proof {
            lemma_step_wf(self.model(), ok);
        }
        if self.pos >= self.plan.len() {
            return;
        }
        match self.stage {
            Stage::Metadata => {
                if ok {
                    self.stage = Stage::Publish;
                } else {
                    self.finish(Outcome::Failed(Stage::Metadata));
                }
            },
            Stage::Publish => {
                self.stage = Stage::Reset;
                self.pushed = ok;
                if !ok {
                    self.outcomes.set(self.pos, Outcome::Failed(Stage::Publish));
                }
            },
            Stage::Reset => {
                if !self.pushed {
                    self.pos = Self::next_pending(&self.plan, self.pos + 1);
                    self.stage = Stage::Metadata;
                } else if ok {
                    self.stage = Stage::PullRequest;
                } else {
                    self.finish(Outcome::Failed(Stage::Reset));
                }
            },
            Stage::PullRequest => {
                if ok {
                    self.finish(Outcome::Published);
                } else {
                    self.finish(Outcome::Failed(Stage::PullRequest));
                }
            },
        }
    }
}

} // verus!
