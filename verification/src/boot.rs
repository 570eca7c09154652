//! The startup sequence the splash draws, one named stage at a time.
//!
//! A stage that fails is reported and skipped: its tick turns rose, the failure is kept in
//! [`Failures`] for a later surface, and the next stage starts. The decisions of that sequence live
//! here; the window events, the waiting and each stage's own work belong to the shell.
use vstd::prelude::*;
use vstd::string::*;

use crate::text::{chars_of, eq_str, split_chars, trim, trim_bounds, split_char, string_of, slice_to_vec_range};

verus! {

broadcast use vstd::string::group_string_axioms;

/// One stage of the sequence, as the splash draws it.
#[derive(Debug, Clone, Copy)]
pub struct Stage {
    /// Stable, and what a forced failure names.
    pub id: &'static str,
    /// What is loading, in the words the splash shows.
    pub name: &'static str,
}

/// Where a stage is in its life.
#[derive(Debug, Clone, Copy, PartialEq, Eq, Structural)]
pub enum State {
    /// Not started.
    Pending,
    /// The one stage running now.
    Running,
    /// Up.
    Done,
    /// Reported and skipped.
    Failed,
}

/// What the splash is told, once per state change.
#[derive(Debug)]
pub struct Progress {
    /// Which tick, counted from zero.
    pub index: usize,
    /// How many ticks there are.
    pub total: usize,
    /// The stage this is about.
    pub stage: Stage,
    /// Where it is now.
    pub state: State,
    /// Why it failed, where it did.
    pub detail: Option<String>,
}

/// A subsystem that did not start, kept so something can say so afterwards.
#[derive(Debug)]
pub struct Failure {
    pub id: &'static str,
    pub name: &'static str,
    pub detail: String,
}

/// The subsystems this launch skipped, in the order they failed. Empty on an ordinary launch.
#[derive(Debug)]
pub struct Failures {
    list: Vec<Failure>,
}

/// The number of stages.
pub const STAGE_COUNT: usize = 5;

/// Every stage, in the order they run.
pub open spec fn spec_stages() -> Seq<(Seq<char>, Seq<char>)> {
    seq![
        ("profile"@, "the profile"@),
        ("settings"@, "the settings"@),
        ("desk"@, "the desk"@),
        ("log"@, "the session log"@),
        ("runtime"@, "the runtime"@),
    ]
}

/// The view of a stage: its id and its name.
pub open spec fn stage_view(s: Stage) -> (Seq<char>, Seq<char>) {
    (s.id@, s.name@)
}

/// Every stage, in the order they run.
pub fn stages() -> (r: Vec<Stage>)
    ensures
        r@.len() == STAGE_COUNT,
        forall|i: int| 0 <= i < r@.len() ==> #[trigger] stage_view(r@[i]) == spec_stages()[i],
{
    let mut r: Vec<Stage> = Vec::new();
    r.push(Stage { id: "profile", name: "the profile" });
    r.push(Stage { id: "settings", name: "the settings" });
    r.push(Stage { id: "desk", name: "the desk" });
    r.push(Stage { id: "log", name: "the session log" });
    r.push(Stage { id: "runtime", name: "the runtime" });
    r
}

/// The stage at `index` in the sequence.
pub fn stage_at(index: usize) -> (r: Stage)
    requires
        index < STAGE_COUNT,
    ensures
        stage_view(r) == spec_stages()[index as int],
{
    let all = stages();
    all[index]
}

/// Every stage names itself: neither its id nor its name is empty.
pub proof fn lemma_every_stage_is_named()
    ensures
        spec_stages().len() > 0,
        forall|i: int|
            0 <= i < spec_stages().len() ==> spec_stages()[i].0.len() > 0 && spec_stages()[i].1.len()
                > 0,
{
    reveal_strlit("profile");
    reveal_strlit("the profile");
    reveal_strlit("settings");
    reveal_strlit("the settings");
    reveal_strlit("desk");
    reveal_strlit("the desk");
    reveal_strlit("log");
    reveal_strlit("the session log");
    reveal_strlit("runtime");
    reveal_strlit("the runtime");
}

/// No two stages share an id, so a failure or a forced stage names exactly one tick.
pub proof fn lemma_stage_ids_are_unique()
    ensures
        forall|i: int, j: int|
            0 <= i < j < spec_stages().len() ==> spec_stages()[i].0 != spec_stages()[j].0,
{
    reveal_strlit("profile");
    reveal_strlit("settings");
    reveal_strlit("desk");
    reveal_strlit("log");
    reveal_strlit("runtime");
    let s = spec_stages();
    assert(s[0].0.len() == 7 && s[1].0.len() == 8 && s[2].0.len() == 4 && s[3].0.len() == 3
        && s[4].0.len() == 7);
    assert(s[0].0[0] != s[4].0[0]);
}

impl Failure {
    /// A copy of this failure with equal fields.
    pub fn duplicate(&self) -> (r: Failure)
        ensures
            r == *self,
    {
        Failure { id: self.id, name: self.name, detail: self.detail.clone() }
    }
}

impl Failures {
    /// What has been kept, oldest first.
    pub closed spec fn view(&self) -> Seq<Failure> {
        self.list@
    }

    /// Nothing skipped yet.
    pub fn new() -> (r: Failures)
        ensures
            r.view() == Seq::<Failure>::empty(),
    {
        Failures { list: Vec::new() }
    }

    /// Everything skipped so far, oldest first.
    pub fn read(&self) -> (r: Vec<Failure>)
        ensures
            r@ == self.view(),
    {
        let mut out: Vec<Failure> = Vec::new();
        let mut i: usize = 0;
        while i < self.list.len()
            invariant
                i <= self.list@.len(),
                out@ == self.list@.take(i as int),
            decreases self.list@.len() - i,
        {
            out.push(self.list[i].duplicate());
            i = i + 1;
            assert(out@ =~= self.list@.take(i as int));
        }
        assert(self.list@.take(self.list@.len() as int) =~= self.list@);
        out
    }

    /// Keep a failure after everything kept before it.
    pub fn record(&mut self, failure: Failure)
        ensures
            final(self).view() == old(self).view().push(failure),
    {
        self.list.push(failure);
    }

    /// Settle a stage whose work has ended: on success it is done and nothing is kept; on an
    /// error it is failed, the error is kept with the stage's id and name, and the splash is told
    /// why.
    pub fn settle(&mut self, index: usize, outcome: Result<(), String>) -> (r: Progress)
        requires
            index < STAGE_COUNT,
        ensures
            r.index == index,
            r.total == STAGE_COUNT,
            stage_view(r.stage) == spec_stages()[index as int],
            match outcome {
                Ok(()) => {
                    &&& r.state == State::Done
                    &&& r.detail is None
                    &&& final(self).view() == old(self).view()
                },
                Err(detail) => {
                    &&& r.state == State::Failed
                    &&& r.detail == Some(detail)
                    &&& final(self).view() == old(self).view().push(
                        Failure { id: r.stage.id, name: r.stage.name, detail },
                    )
                },
            },
    {
        let stage = stage_at(index);
        match outcome {
            Ok(()) => Progress { index, total: STAGE_COUNT, stage, state: State::Done, detail: None },
            Err(detail) => {
                let kept = detail.clone();
                self.record(Failure { id: stage.id, name: stage.name, detail: kept });
                Progress {
                    index,
                    total: STAGE_COUNT,
                    stage,
                    state: State::Failed,
                    detail: Some(detail),
                }
            },
        }
    }
}

impl Default for Failures {
    fn default() -> (r: Failures)
        ensures
            r.view() == Seq::<Failure>::empty(),
    {
        Failures::new()
    }
}

impl Progress {
    /// The report that a stage has started.
    pub fn running(index: usize) -> (r: Progress)
        requires
            index < STAGE_COUNT,
        ensures
            r.index == index,
            r.total == STAGE_COUNT,
            stage_view(r.stage) == spec_stages()[index as int],
            r.state == State::Running,
            r.detail is None,
    {
        Progress { index, total: STAGE_COUNT, stage: stage_at(index), state: State::Running, detail: None }
    }
}

/// What a report says: its tick, its stage, its state and its detail.
pub open spec fn report_view(p: Progress) -> (int, (Seq<char>, Seq<char>), State, Option<Seq<char>>) {
    (
        p.index as int,
        stage_view(p.stage),
        p.state,
        match p.detail {
            Some(d) => Some(d@),
            None => None,
        },
    )
}

/// What the splash is told over a whole launch whose stages' work ended as `outcomes` (an error's
/// text where a stage failed): for each stage in order, that it runs, then that it is done or that
/// it failed and why.
pub open spec fn launch_reports(outcomes: Seq<Result<(), Seq<char>>>, n: int) -> Seq<
    (int, (Seq<char>, Seq<char>), State, Option<Seq<char>>),
>
    decreases n,
{
    if n <= 0 {
        Seq::empty()
    } else {
        let i = n - 1;
        launch_reports(outcomes, i).push((i, spec_stages()[i], State::Running, None)).push(
            match outcomes[i] {
                Ok(()) => (i, spec_stages()[i], State::Done, None),
                Err(d) => (i, spec_stages()[i], State::Failed, Some(d)),
            },
        )
    }
}

/// The failures a launch keeps: each failed stage's id, name and error, in order.
pub open spec fn launch_failures(outcomes: Seq<Result<(), Seq<char>>>, n: int) -> Seq<(Seq<char>, Seq<char>, Seq<char>)>
    decreases n,
{
    if n <= 0 {
        Seq::empty()
    } else {
        let i = n - 1;
        match outcomes[i] {
            Ok(()) => launch_failures(outcomes, i),
            Err(d) => launch_failures(outcomes, i).push((spec_stages()[i].0, spec_stages()[i].1, d)),
        }
    }
}

/// The view of an outcome.
pub open spec fn outcomes_view(v: Seq<Result<(), String>>) -> Seq<Result<(), Seq<char>>> {
    v.map_values(|o: Result<(), String>| match o {
        Ok(()) => Ok(()),
        Err(d) => Err(d@),
    })
}

/// The view of kept failures.
pub open spec fn failures_view(v: Seq<Failure>) -> Seq<(Seq<char>, Seq<char>, Seq<char>)> {
    v.map_values(|f: Failure| (f.id@, f.name@, f.detail@))
}

/// A whole launch, given how each stage's work ended: every stage runs, in order, and is reported
/// running and then done or failed; every failure is kept; nothing stops the launch, so the desk
/// opens after the last stage whatever failed.
pub fn launch(outcomes: Vec<Result<(), String>>) -> (r: (Vec<Progress>, Failures))
    requires
        outcomes@.len() == STAGE_COUNT,
    ensures
        r.0@.map_values(|p: Progress| report_view(p)) == launch_reports(outcomes_view(outcomes@), STAGE_COUNT as int),
        failures_view(r.1.view()) == launch_failures(outcomes_view(outcomes@), STAGE_COUNT as int),
{
    let ghost ov = outcomes_view(outcomes@);
    let mut reports: Vec<Progress> = Vec::new();
    let mut failures = Failures::new();
    let mut rest = outcomes;
    let mut i: usize = 0;
    assert(rest@ =~= outcomes@.skip(0));
    proof {
        assert(reports@.map_values(|p: Progress| report_view(p)) =~= launch_reports(ov, 0));
        assert(failures_view(failures.view()) =~= launch_failures(ov, 0));
    }
    while i < STAGE_COUNT
        invariant
            i <= STAGE_COUNT,
            ov == outcomes_view(outcomes@),
            outcomes@.len() == STAGE_COUNT,
            rest@ == outcomes@.skip(i as int),
            reports@.map_values(|p: Progress| report_view(p)) == launch_reports(ov, i as int),
            failures_view(failures.view()) == launch_failures(ov, i as int),
        decreases STAGE_COUNT - i,
    {
        let outcome = rest.remove(0);
        assert(rest@ =~= outcomes@.skip(i + 1));
        assert(ov[i as int] == match outcome {
            Ok(()) => Ok::<(), Seq<char>>(()),
            Err(d) => Err(d@),
        });
        let ghost before = reports@.map_values(|p: Progress| report_view(p));
        let ghost fbefore = failures.view();
        let started = Progress::running(i);
        let ghost sv = report_view(started);
        reports.push(started);
        let settled = failures.settle(i, outcome);
        let ghost tv = report_view(settled);
        reports.push(settled);
        assert(reports@.map_values(|p: Progress| report_view(p)) =~= before.push(sv).push(tv));
        assert(failures_view(failures.view()) =~= launch_failures(ov, i + 1));
        i = i + 1;
    }
    (reports, failures)
}

/// Whether a comma-separated list of stage ids names `id`, each entry compared with its
/// surrounding whitespace removed.
pub open spec fn spec_names_stage(list: Seq<char>, id: Seq<char>) -> bool {
    exists|i: int|
        0 <= i < split_char(list, ',').len() && #[trigger] trim(split_char(list, ',')[i]) == id
}

/// Whether a forced-failure list (a debug build's `DEMIDO_BOOT_FAIL`) names the stage `id`.
pub fn is_forced(list: &str, id: &str) -> (r: bool)
    ensures
        r == spec_names_stage(list@, id@),
{
    let cs = chars_of(list);
    let pieces = split_chars(cs.as_slice(), ',');
    proof {
        assert(pieces.deep_view() == split_char(list@, ','));
    }
    let mut i: usize = 0;
    while i < pieces.len()
        invariant
            i <= pieces@.len(),
            pieces.deep_view() == split_char(list@, ','),
            forall|j: int| 0 <= j < i ==> #[trigger] trim(split_char(list@, ',')[j]) != id@,
        decreases pieces@.len() - i,
    {
        let piece = &pieces[i];
        let (lo, hi) = trim_bounds(piece.as_slice());
        let part = slice_to_vec_range(piece.as_slice(), lo, hi);
        let name = string_of(part.as_slice());
        proof {
            assert(pieces.deep_view()[i as int] == pieces@[i as int]@);
            assert(part@ =~= piece@.subrange(lo as int, hi as int));
        }
        if eq_str(name.as_str(), id) {
            return true;
        }
        i = i + 1;
    }
    false
}


/// What the window's driver asks for to prove the channel to the backend is live: the app's
/// version, and whether the window is being driven for evidence.
#[derive(Debug, Clone, Copy)]
pub struct BootReport {
    version: &'static str,
    driven: bool,
}

impl BootReport {
    /// The version the report gives.
    pub closed spec fn spec_version(self) -> Seq<char> {
        self.version@
    }

    /// Whether the report says the window is driven.
    pub closed spec fn spec_driven(self) -> bool {
        self.driven
    }

    /// The report for this build.
    pub fn new(version: &'static str, driven: bool) -> (r: Self)
        ensures
            r.spec_version() == version@,
            r.spec_driven() == driven,
    {
        BootReport { version, driven }
    }

    /// The app's version.
    pub fn version(&self) -> (r: &'static str)
        ensures
            r@ == self.spec_version(),
    {
        self.version
    }

    /// Whether the window is being driven for evidence.
    pub fn driven(&self) -> (r: bool)
        ensures
            r == self.spec_driven(),
    {
        self.driven
    }
}

} // verus!
