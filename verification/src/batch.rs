//! The batch: many requirements named at once, under a ceiling on the
//! resolutions in flight, with the output in the order of the input.
//!
//! The batch does no work itself. It says which position may start next,
//! takes each outcome as it arrives, in whatever order, and hands out the
//! list once every position is settled.

use vstd::prelude::*;
use vstd::pervasive::unreached;
use crate::name::PackageName;
use crate::requirement::Requirement;
use crate::requirement::RequirementsTxtRequirement;
use crate::requirement::ResolveError;
use crate::requirement::UnnamedRequirement;
use crate::requirement::VersionOrUrl;

verus! {

/// The most resolutions that are in flight at any one time.
pub const CONCURRENCY: usize = 50;

/// The requirements of a project, some of them still without a name.
#[derive(Debug)]
pub struct NamedRequirementsResolver {
    requirements: Vec<RequirementsTxtRequirement>,
    reporter: bool,
}

/// A batch under way.
#[derive(Debug)]
pub struct Batch {
    requirements: Vec<RequirementsTxtRequirement>,
    names: Vec<Option<PackageName>>,
    running: Vec<bool>,
    next: usize,
    in_flight: usize,
    failure: Option<ResolveError>,
    reporter: bool,
}

/// The state of a batch.
pub struct BatchView {
    /// The input, in its order.
    pub requirements: Seq<RequirementsTxtRequirement>,
    /// The name found so far for each position.
    pub names: Seq<Option<PackageName>>,
    /// Which positions are being resolved right now.
    pub running: Seq<bool>,
    /// The first position that was not looked at yet.
    pub next: int,
    /// The count kept of the positions being resolved.
    pub in_flight: int,
    /// The first failure that was reported.
    pub failure: Option<ResolveError>,
    /// Whether builds report their progress.
    pub reporter: bool,
}

/// How many positions are being resolved.
pub open spec fn count_running(running: Seq<bool>) -> int
    decreases running.len(),
{
    if running.len() == 0 {
        0
    } else {
        count_running(running.drop_last()) + if running.last() {
            1int
        } else {
            0int
        }
    }
}

/// The first position at or after `from` that holds an unnamed requirement;
/// the length of the list where there is none.
pub open spec fn next_unnamed(requirements: Seq<RequirementsTxtRequirement>, from: int) -> int
    decreases requirements.len() - from,
{
    if from < 0 || from >= requirements.len() {
        requirements.len() as int
    } else if requirements[from] is Unnamed {
        from
    } else {
        next_unnamed(requirements, from + 1)
    }
}

/// The batch as it starts: nothing named yet, nothing running.
pub open spec fn started(requirements: Seq<RequirementsTxtRequirement>, reporter: bool) -> BatchView {
    BatchView {
        requirements,
        names: Seq::new(requirements.len(), |i: int| None::<PackageName>),
        running: Seq::new(requirements.len(), |i: int| false),
        next: 0,
        in_flight: 0,
        failure: None,
        reporter,
    }
}

/// Whether a resolution may start now: nothing has failed, the ceiling is
/// not reached, and an unnamed requirement is still waiting.
pub open spec fn may_dispatch(batch: BatchView) -> bool {
    &&& batch.failure.is_none()
    &&& batch.in_flight < CONCURRENCY
    &&& next_unnamed(batch.requirements, batch.next) < batch.requirements.len()
}

/// The batch after the next waiting position has started.
pub open spec fn dispatched(batch: BatchView) -> BatchView {
    let at = next_unnamed(batch.requirements, batch.next);
    BatchView {
        running: batch.running.update(at, true),
        next: at + 1,
        in_flight: batch.in_flight + 1,
        ..batch
    }
}

/// Whether an outcome for `index` is expected.
pub open spec fn is_running(batch: BatchView, index: int) -> bool {
    0 <= index < batch.running.len() && batch.running[index]
}

/// The batch after the resolution at `index` has come back: a name is
/// stored in its position; of the failures the first one reported is kept.
/// An outcome for a position that is not running changes nothing.
pub open spec fn completed(
    batch: BatchView,
    index: int,
    outcome: Result<PackageName, ResolveError>,
) -> BatchView {
    if !is_running(batch, index) {
        batch
    } else {
        match outcome {
            Ok(name) => BatchView {
                names: batch.names.update(index, Some(name)),
                running: batch.running.update(index, false),
                in_flight: batch.in_flight - 1,
                ..batch
            },
            Err(error) => BatchView {
                running: batch.running.update(index, false),
                in_flight: batch.in_flight - 1,
                failure: if batch.failure.is_some() {
                    batch.failure
                } else {
                    Some(error)
                },
                ..batch
            },
        }
    }
}

/// Whether every unnamed requirement has its name.
pub open spec fn all_named(batch: BatchView) -> bool {
    forall|i: int|
        0 <= i < batch.requirements.len() && (#[trigger] batch.requirements[i]) is Unnamed
            ==> batch.names[i].is_some()
}

/// What stands in the output for one position of the input: a named
/// requirement itself, unchanged; for an unnamed one its name, with extras
/// and marker copied over and the literal locator as its pin.
pub open spec fn placed(
    requirement: RequirementsTxtRequirement,
    name: Option<PackageName>,
    output: Requirement,
) -> bool {
    match requirement {
        RequirementsTxtRequirement::Pep508(named) => output == named,
        RequirementsTxtRequirement::Unnamed(unnamed) => {
            &&& name.is_some()
            &&& output.name == name.unwrap()
            &&& output.extras == unnamed.extras
            &&& output.marker == unnamed.marker
            &&& output.version_or_url == Some(VersionOrUrl::Url(unnamed.url))
        },
    }
}

/// Changing one position changes the count by that position alone.
pub proof fn lemma_count_update(running: Seq<bool>, index: int, value: bool)
    requires
        0 <= index < running.len(),
    ensures
        count_running(running.update(index, value)) + (if running[index] {
            1int
        } else {
            0int
        }) == count_running(running) + (if value {
            1int
        } else {
            0int
        }),
    decreases running.len(),
{
    let after = running.update(index, value);
    if index == running.len() - 1 {
        assert(after.drop_last() =~= running.drop_last());
    } else {
        assert(after.drop_last() =~= running.drop_last().update(index, value));
        lemma_count_update(running.drop_last(), index, value);
    }
}

/// No more positions run than there are.
pub proof fn lemma_count_bounds(running: Seq<bool>)
    ensures
        0 <= count_running(running) <= running.len(),
    decreases running.len(),
{
    if running.len() > 0 {
        lemma_count_bounds(running.drop_last());
    }
}

/// The first unnamed position lies between `from` and the end, and no
/// position before it, from `from` on, holds an unnamed requirement.
pub proof fn lemma_next_unnamed(requirements: Seq<RequirementsTxtRequirement>, from: int)
    requires
        0 <= from <= requirements.len(),
    ensures
        from <= next_unnamed(requirements, from) <= requirements.len(),
        next_unnamed(requirements, from) < requirements.len() ==> requirements[next_unnamed(
            requirements,
            from,
        )] is Unnamed,
    decreases requirements.len() - from,
{
    if from < requirements.len() && !(requirements[from] is Unnamed) {
        lemma_next_unnamed(requirements, from + 1);
    }
}

impl BatchView {
    /// What holds of a batch at all times: one entry per position, the
    /// count of running positions is exact and never above the ceiling,
    /// and only unnamed requirements that were looked at run.
    pub open spec fn wf(self) -> bool {
        &&& self.names.len() == self.requirements.len()
        &&& self.running.len() == self.requirements.len()
        &&& 0 <= self.next <= self.requirements.len()
        &&& self.in_flight == count_running(self.running)
        &&& 0 <= self.in_flight <= CONCURRENCY
        &&& forall|i: int|
            0 <= i < self.requirements.len() && #[trigger] self.running[i]
                ==> self.requirements[i] is Unnamed && i < self.next
    }
}

impl NamedRequirementsResolver {
    /// The requirements held, in their order.
    pub closed spec fn requirements(&self) -> Seq<RequirementsTxtRequirement> {
        self.requirements@
    }

    /// Whether builds report their progress.
    pub closed spec fn has_reporter(&self) -> bool {
        self.reporter
    }

    /// A resolver for the given requirements, without a reporter.
    pub fn new(requirements: Vec<RequirementsTxtRequirement>) -> (r: Self)
        ensures
            r.requirements() == requirements@,
            !r.has_reporter(),
    {
        NamedRequirementsResolver { requirements, reporter: false }
    }

    /// The same resolver, whose builds report their progress.
    #[must_use]
    pub fn with_reporter(self) -> (r: Self)
        ensures
            r.requirements() == self.requirements(),
            r.has_reporter(),
    {
        NamedRequirementsResolver { requirements: self.requirements, reporter: true }
    }

    /// Starts the batch over the requirements: nothing is named yet and
    /// nothing runs.
    pub fn resolve(self) -> (batch: Batch)
        ensures
            batch@ == started(self.requirements(), self.has_reporter()),
            batch@.wf(),
    {
        let n: usize = self.requirements.len();
        let mut names: Vec<Option<PackageName>> = Vec::new();
        let mut running: Vec<bool> = Vec::new();
        let mut i: usize = 0;
        while i < n
            invariant
                i <= n,
                names@.len() == i,
                running@.len() == i,
                forall|j: int| 0 <= j < i ==> names@[j].is_none(),
                forall|j: int| 0 <= j < i ==> !running@[j],
                count_running(running@) == 0,
            decreases n - i,
        {
            names.push(None);
            proof {
                assert(running@.push(false).drop_last() =~= running@);
            }
            running.push(false);
            i += 1;
        }
        let batch = Batch {
            requirements: self.requirements,
            names,
            running,
            next: 0,
            in_flight: 0,
            failure: None,
            reporter: self.reporter,
        };
        proof {
            let start = started(self.requirements(), self.has_reporter());
            assert(batch@.names =~= start.names);
            assert(batch@.running =~= start.running);
        }
        batch
    }
}

impl View for Batch {
    type V = BatchView;

    closed spec fn view(&self) -> BatchView {
        BatchView {
            requirements: self.requirements@,
            names: self.names@,
            running: self.running@,
            next: self.next as int,
            in_flight: self.in_flight as int,
            failure: self.failure,
            reporter: self.reporter,
        }
    }
}

impl Batch {
    /// How many requirements the batch holds.
    pub fn len(&self) -> (r: usize)
        ensures
            r == self@.requirements.len(),
    {
        self.requirements.len()
    }

    /// How many resolutions are in flight: never more than the ceiling.
    pub fn in_flight(&self) -> (r: usize)
        requires
            self@.wf(),
        ensures
            r == count_running(self@.running),
            r <= CONCURRENCY,
    {
        self.in_flight
    }

    /// Whether a failure was reported.
    pub fn has_failed(&self) -> (r: bool)
        ensures
            r == self@.failure.is_some(),
    {
        self.failure.is_some()
    }

    /// Whether builds report their progress.
    pub fn has_reporter(&self) -> (r: bool)
        ensures
            r == self@.reporter,
    {
        self.reporter
    }

    /// The unnamed requirement at a position, if there is one.
    pub fn unnamed(&self, index: usize) -> (r: Option<&UnnamedRequirement>)
        ensures
            match r {
                Some(unnamed) => index < self@.requirements.len() && self@.requirements[index as int]
                    == RequirementsTxtRequirement::Unnamed(*unnamed),
                None => index >= self@.requirements.len() || self@.requirements[index as int] is Pep508,
            },
    {
        if index >= self.requirements.len() {
            return None;
        }
        match &self.requirements[index] {
            RequirementsTxtRequirement::Unnamed(unnamed) => Some(unnamed),
            RequirementsTxtRequirement::Pep508(_) => None,
        }
    }

    /// Starts the next resolution, if one may start: the position of the
    /// first unnamed requirement not yet looked at. Named requirements are
    /// passed by. Nothing starts after a failure or at the ceiling.
    pub fn dispatch(&mut self) -> (r: Option<usize>)
        requires
            old(self)@.wf(),
        ensures
            final(self)@.wf(),
            r.is_some() == may_dispatch(old(self)@),
            r.is_none() ==> final(self)@ == old(self)@,
            r.is_some() ==> {
                &&& r.unwrap() as int == next_unnamed(old(self)@.requirements, old(self)@.next)
                &&& final(self)@ == dispatched(old(self)@)
                &&& old(self)@.next <= r.unwrap() < old(self)@.requirements.len()
                &&& old(self)@.requirements[r.unwrap() as int] is Unnamed
                &&& !old(self)@.running[r.unwrap() as int]
            },
    {
        if self.failure.is_some() || self.in_flight >= CONCURRENCY {
            return None;
        }
        let n: usize = self.requirements.len();
        let mut at: usize = self.next;
        proof {
            lemma_next_unnamed(self@.requirements, self@.next);
        }
        while at < n && !self.requirements[at].is_unnamed()
            invariant
                *self == *old(self),
                self@.wf(),
                n == self@.requirements.len(),
                self.next <= at <= n,
                next_unnamed(self@.requirements, self@.next) == next_unnamed(
                    self@.requirements,
                    at as int,
                ),
            decreases n - at,
        {
            at += 1;
        }
        if at >= n {
            return None;
        }
        proof {
            lemma_count_update(self@.running, at as int, true);
        }
        self.running.set(at, true);
        self.next = at + 1;
        self.in_flight = self.in_flight + 1;
        assert(self@ == dispatched(old(self)@));
        Some(at)
    }

    /// Takes the outcome of the resolution at `index`. A name is stored in
    /// its position and nowhere else; of the failures the first one
    /// reported is kept. An outcome for a position that is not running is
    /// dropped.
    pub fn complete(&mut self, index: usize, outcome: Result<PackageName, ResolveError>)
        requires
            old(self)@.wf(),
        ensures
            final(self)@.wf(),
            final(self)@ == completed(old(self)@, index as int, outcome),
    {
        if index >= self.running.len() || !self.running[index] {
            return ;
        }
        proof {
            lemma_count_update(self@.running, index as int, false);
            lemma_count_bounds(self@.running.update(index as int, false));
        }
        self.running.set(index, false);
        self.in_flight = self.in_flight - 1;
        match outcome {
            Ok(name) => {
                self.names.set(index, Some(name));
            },
            Err(error) => {
                if self.failure.is_none() {
                    self.failure = Some(error);
                }
            },
        }
    }

    /// Whether the batch can end: a failure was reported, or every
    /// unnamed requirement has its name.
    pub fn is_settled(&self) -> (r: bool)
        requires
            self@.wf(),
        ensures
            r == (self@.failure.is_some() || all_named(self@)),
    {
        if self.failure.is_some() {
            return true;
        }
        let n: usize = self.requirements.len();
        let mut i: usize = 0;
        while i < n
            invariant
                self@.wf(),
                self@.failure.is_none(),
                i <= n,
                n == self@.requirements.len(),
                forall|j: int|
                    0 <= j < i && (#[trigger] self@.requirements[j]) is Unnamed
                        ==> self@.names[j].is_some(),
            decreases n - i,
        {
            if self.requirements[i].is_unnamed() && self.names[i].is_none() {
                assert(self@.requirements[i as int] is Unnamed && self@.names[i as int].is_none());
                return false;
            }
            i += 1;
        }
        true
    }

    /// Ends the batch. After a failure the batch fails as a whole with the
    /// first failure reported, and no list is given. Else, once every
    /// unnamed requirement has its name, the list comes out in the order of
    /// the input. While names are still missing there is no result yet.
    pub fn finish(self) -> (r: Option<Result<Vec<Requirement>, ResolveError>>)
        requires
            self@.wf(),
        ensures
            match self@.failure {
                Some(error) => r == Some(Err::<Vec<Requirement>, ResolveError>(error)),
                None => if all_named(self@) {
                    &&& r.is_some()
                    &&& r.unwrap().is_ok()
                    &&& r.unwrap().unwrap()@.len() == self@.requirements.len()
                    &&& forall|i: int|
                        0 <= i < self@.requirements.len() ==> placed(
                            self@.requirements[i],
                            self@.names[i],
                            #[trigger] r.unwrap().unwrap()@[i],
                        )
                } else {
                    r.is_none()
                },
            },
    {
        let ghost view = self@;
        let Batch { requirements, names, running: _, next: _, in_flight: _, failure, reporter: _ } = self;
        if let Some(error) = failure {
            return Some(Err(error));
        }
        let n: usize = requirements.len();
        let mut i: usize = 0;
        while i < n
            invariant
                view == self@,
                view.failure.is_none(),
                i <= n,
                n == requirements@.len(),
                names@.len() == n,
                requirements@ == view.requirements,
                names@ == view.names,
                forall|j: int|
                    0 <= j < i && (#[trigger] requirements@[j]) is Unnamed ==> names@[j].is_some(),
            decreases n - i,
        {
            if requirements[i].is_unnamed() && names[i].is_none() {
                assert(view.requirements[i as int] is Unnamed && view.names[i as int].is_none());
                return None;
            }
            i += 1;
        }
        assert(all_named(view));
        let mut requirements = requirements;
        let mut names = names;
        let mut reversed: Vec<Requirement> = Vec::new();
        while requirements.len() > 0
            invariant
                view == self@,
                view.failure.is_none(),
                all_named(view),
                view.requirements.len() == n,
                view.names.len() == n,
                requirements@.len() <= n,
                names@.len() == requirements@.len(),
                requirements@ == view.requirements.subrange(0, requirements@.len() as int),
                names@ == view.names.subrange(0, requirements@.len() as int),
                reversed@.len() == n - requirements@.len(),
                forall|k: int|
                    0 <= k < reversed@.len() ==> placed(
                        view.requirements[n - 1 - k],
                        view.names[n - 1 - k],
                        #[trigger] reversed@[k],
                    ),
            decreases requirements@.len(),
        {
            let ghost m = requirements@.len() - 1;
            let requirement = requirements.pop().unwrap();
            let name = names.pop().unwrap();
            assert(requirement == view.requirements[m]);
            assert(name == view.names[m]);
            let output = match requirement {
                RequirementsTxtRequirement::Pep508(named) => named,
                RequirementsTxtRequirement::Unnamed(unnamed) => match name {
                    Some(found) => unnamed.named(found),
                    None => {
                        proof {
                            assert(view.requirements[m] is Unnamed);
                            assert(false);
                        }
                        unreached()
                    },
                },
            };
            reversed.push(output);
            assert(requirements@ =~= view.requirements.subrange(0, m));
            assert(names@ =~= view.names.subrange(0, m));
        }
        let ghost outputs = reversed@;
        let mut list: Vec<Requirement> = Vec::new();
        while reversed.len() > 0
            invariant
                view == self@,
                view.failure.is_none(),
                all_named(view),
                view.requirements.len() == n,
                forall|k: int|
                    0 <= k < n ==> placed(
                        view.requirements[n - 1 - k],
                        view.names[n - 1 - k],
                        #[trigger] outputs[k],
                    ),
                outputs.len() == n,
                reversed@.len() <= n,
                reversed@ == outputs.subrange(0, reversed@.len() as int),
                list@.len() == n - reversed@.len(),
                forall|i: int| 0 <= i < list@.len() ==> #[trigger] list@[i] == outputs[n - 1 - i],
            decreases reversed@.len(),
        {
            let ghost m = reversed@.len() - 1;
            let output = reversed.pop().unwrap();
            assert(output == outputs[m]);
            list.push(output);
            assert(reversed@ =~= outputs.subrange(0, m));
        }
        Some(Ok(list))
    }
}

/// Two outcomes that arrive for two running positions, at most one of them
/// a failure, give the same batch in either order of arrival: the order of
/// completion never shows.
pub proof fn lemma_completion_order(
    batch: BatchView,
    first: int,
    first_outcome: Result<PackageName, ResolveError>,
    second: int,
    second_outcome: Result<PackageName, ResolveError>,
)
    requires
        batch.wf(),
        first != second,
        is_running(batch, first),
        is_running(batch, second),
        first_outcome.is_ok() || second_outcome.is_ok(),
    ensures
        completed(completed(batch, first, first_outcome), second, second_outcome) == completed(
            completed(batch, second, second_outcome),
            first,
            first_outcome,
        ),
{
    let a = completed(completed(batch, first, first_outcome), second, second_outcome);
    let b = completed(completed(batch, second, second_outcome), first, first_outcome);
    assert(a.names =~= b.names);
    assert(a.running =~= b.running);
}

/// Starting and completing keep the batch well formed, so the count of
/// running positions stays under the ceiling at every moment.
pub proof fn lemma_ceiling_holds(batch: BatchView, index: int, outcome: Result<PackageName, ResolveError>)
    requires
        batch.wf(),
    ensures
        may_dispatch(batch) ==> dispatched(batch).wf(),
        completed(batch, index, outcome).wf(),
        count_running(batch.running) <= CONCURRENCY,
{
    if may_dispatch(batch) {
        lemma_next_unnamed(batch.requirements, batch.next);
        lemma_count_update(batch.running, next_unnamed(batch.requirements, batch.next), true);
    }
    if is_running(batch, index) {
        lemma_count_update(batch.running, index, false);
        lemma_count_bounds(batch.running.update(index, false));
    }
}

} // verus!
