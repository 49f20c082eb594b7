//! The targets the agent was configured with, each with its repository, and
//! the start-up that brings every one of them to rest.

use crate::config::{Recipe, RecipeView};
use crate::repository::{
    is_deploying, pending, well_formed, Action, ActionView, Fault, Input, Outcome, Repository,
    RepositoryView, Setup, Stage,
};
use crate::target::{repository_name, repository_name_of, Target, TargetView};
use vstd::prelude::*;

verus! {

/// Mathematical model of one entry of the registry.
pub struct EntryView {
    pub target: TargetView,
    pub repository: RepositoryView,
}

/// Whether no target occurs twice among `entries`.
pub open spec fn distinct_targets(entries: Seq<EntryView>) -> bool {
    forall|i: int, j: int|
        0 <= i < j < entries.len() ==> (#[trigger] entries[i]).target != (
        #[trigger] entries[j]).target
}

/// Whether every repository among `entries` is consistent.
pub open spec fn all_well_formed(entries: Seq<EntryView>) -> bool {
    forall|i: int| 0 <= i < entries.len() ==> well_formed((#[trigger] entries[i]).repository)
}

/// Whether no deployment is under way among `entries`.
pub open spec fn at_rest(entries: Seq<EntryView>) -> bool {
    forall|j: int| 0 <= j < entries.len() ==> !is_deploying((#[trigger] entries[j]).repository)
}

/// Whether `target` is configured.
pub open spec fn is_configured(entries: Seq<EntryView>, target: TargetView) -> bool {
    exists|i: int| 0 <= i < entries.len() && (#[trigger] entries[i]).target == target
}

/// The registry after `repository` was entered for `target`: in the place of
/// the repository that `target` had, or at the end where it had none.
pub open spec fn with_entry(
    entries: Seq<EntryView>,
    target: TargetView,
    repository: RepositoryView,
) -> Seq<EntryView> {
    if is_configured(entries, target) {
        let i = choose|i: int| 0 <= i < entries.len() && (#[trigger] entries[i]).target == target;
        entries.update(i, EntryView { target, repository })
    } else {
        entries.push(EntryView { target, repository })
    }
}

/// The target that a recipe configures: the repository named in its address,
/// at its branch.
pub open spec fn target_of_recipe(recipe: RecipeView) -> TargetView {
    TargetView {
        repository_name: repository_name_of(recipe.repository_url),
        branch_name: recipe.branch,
    }
}

/// The registry that a list of recipes configures: one fresh repository for
/// each recipe, a later recipe taking the place of an earlier one for the
/// same target.
pub open spec fn registry_of(recipes: Seq<RecipeView>) -> Seq<EntryView>
    decreases recipes.len(),
{
    if recipes.len() == 0 {
        Seq::empty()
    } else {
        with_entry(
            registry_of(recipes.drop_last()),
            target_of_recipe(recipes.last()),
            RepositoryView::fresh(recipes.last()),
        )
    }
}

/// What start-up asks of the caller.
#[derive(Debug, PartialEq, Eq)]
pub enum Startup {
    /// Carry out this action for the target at this place, and report.
    Perform(usize, Action),
    /// Every target is cloned, checked out and idle.
    Ready,
    /// The initialisation of the target at this place was given up for
    /// this fault, and with it the start-up.
    Failed(usize, Fault),
}

/// Mathematical model of [`Startup`].
pub enum StartupView {
    Perform(int, ActionView),
    Ready,
    Failed(int, Fault),
}

impl View for Startup {
    type V = StartupView;

    open spec fn view(&self) -> StartupView {
        match *self {
            Startup::Perform(index, action) => StartupView::Perform(index as int, action@),
            Startup::Ready => StartupView::Ready,
            Startup::Failed(index, fault) => StartupView::Failed(index as int, fault),
        }
    }
}

/// The first target from `from` on whose initialisation was given up, with
/// the fault it was given up for.
pub open spec fn first_abandoned(entries: Seq<EntryView>, from: int) -> Option<(int, Fault)>
    decreases entries.len() - from,
{
    if 0 <= from < entries.len() {
        match entries[from].repository.stage {
            Stage::Initializing(Setup::Abandoned(fault)) => Some((from, fault)),
            _ => first_abandoned(entries, from + 1),
        }
    } else {
        None
    }
}

/// The first target from `from` on that is not idle.
pub open spec fn first_unready(entries: Seq<EntryView>, from: int) -> Option<int>
    decreases entries.len() - from,
{
    if 0 <= from < entries.len() {
        if entries[from].repository.stage != Stage::Idle {
            Some(from)
        } else {
            first_unready(entries, from + 1)
        }
    } else {
        None
    }
}

/// The start-up goes on with the first target that is not idle. A created
/// target is cloned, or given up where its address is refused; a target
/// that was given up ends the start-up; any other is waited for. There is
/// nothing left to do once every target is idle.
pub open spec fn proceeded(entries: Seq<EntryView>) -> (Seq<EntryView>, StartupView) {
    match first_unready(entries, 0) {
        None => (entries, StartupView::Ready),
        Some(index) => match entries[index].repository.stage {
            Stage::Initializing(Setup::Created) => {
                let (after, action) = reacted(entries, index, Input::Initialize);
                match action {
                    ActionView::Abort(fault) => (after, StartupView::Failed(index, fault)),
                    _ => (after, StartupView::Perform(index, action)),
                }
            },
            Stage::Initializing(Setup::Abandoned(fault)) => (
                entries,
                StartupView::Failed(index, fault),
            ),
            _ => (entries, StartupView::Perform(index, pending(entries[index].repository))),
        },
    }
}

/// One step of the start-up. Once a target was given up, nothing is handed
/// out any more and nothing changes. Else a report goes to the target at
/// `at`: its next action is handed out, a fault ends the start-up, and
/// when it has come to rest the next target is taken up.
pub open spec fn started(entries: Seq<EntryView>, at: int, report: Option<Outcome>) -> (
    Seq<EntryView>,
    StartupView,
) {
    match first_abandoned(entries, 0) {
        Some((index, fault)) => (entries, StartupView::Failed(index, fault)),
        None => match report {
            Some(outcome) => {
                let (after, action) = reacted(entries, at, Input::Report(outcome));
                match action {
                    ActionView::Abort(fault) => (after, StartupView::Failed(at, fault)),
                    ActionView::Done | ActionView::Nothing => proceeded(after),
                    _ => (after, StartupView::Perform(at, action)),
                }
            },
            None => proceeded(entries),
        },
    }
}

struct Entry {
    target: Target,
    repository: Repository,
}

impl View for Entry {
    type V = EntryView;

    closed spec fn view(&self) -> EntryView {
        EntryView { target: self.target@, repository: self.repository@ }
    }
}

/// The registry: every configured target with the one repository that
/// belongs to it.
pub struct Repos {
    entries: Vec<Entry>,
}

impl View for Repos {
    type V = Seq<EntryView>;

    closed spec fn view(&self) -> Seq<EntryView> {
        Seq::new(self.entries@.len(), |i: int| self.entries@[i]@)
    }
}

impl Repos {
    #[verifier::type_invariant]
    spec fn kept(&self) -> bool {
        distinct_targets(self@) && all_well_formed(self@)
    }

    /// A registry without targets.
    pub fn new() -> (repos: Repos)
        ensures
            repos@ == Seq::<EntryView>::empty(),
    {
        let repos = Repos { entries: Vec::new() };
        assert(repos@ =~= Seq::<EntryView>::empty());
        repos
    }

    /// The number of configured targets.
    pub fn len(&self) -> (n: usize)
        ensures
            n == self@.len(),
            distinct_targets(self@),
            all_well_formed(self@),
    {
        proof {
            use_type_invariant(self);
        }
        self.entries.len()
    }

    /// The target at `index`, if there is one.
    pub fn target(&self, index: usize) -> (target: Option<&Target>)
        ensures
            target is Some <==> index < self@.len(),
            target matches Some(found) ==> found@ == self@[index as int].target,
    {
        if index < self.entries.len() {
            Some(&self.entries[index].target)
        } else {
            None
        }
    }

    /// The repository of the target at `index`, if there is one.
    pub fn repository(&self, index: usize) -> (repository: Option<&Repository>)
        ensures
            repository is Some <==> index < self@.len(),
            repository matches Some(found) ==> found@ == self@[index as int].repository,
    {
        if index < self.entries.len() {
            Some(&self.entries[index].repository)
        } else {
            None
        }
    }

    /// Where `target` stands in the registry. Targets are the same only if
    /// both their names are, character for character.
    pub fn position(&self, target: &Target) -> (found: Option<usize>)
        ensures
            found is Some <==> is_configured(self@, target@),
            found matches Some(i) ==> i < self@.len() && self@[i as int].target == target@,
            distinct_targets(self@),
            all_well_formed(self@),
    {
        proof {
            use_type_invariant(self);
        }
        let mut i: usize = 0;
        while i < self.entries.len()
            invariant
                i <= self.entries.len(),
                self@.len() == self.entries@.len(),
                distinct_targets(self@),
                all_well_formed(self@),
                forall|j: int| 0 <= j < i ==> (#[trigger] self@[j]).target != target@,
            decreases self.entries.len() - i,
        {
            if self.entries[i].target.matches(target) {
                assert(self@[i as int].target == target@);
                return Some(i);
            }
            i = i + 1;
        }
        None
    }

    /// Enters `repository` for `target`. A target that is configured
    /// already keeps its place and gets the new repository.
    pub fn insert(&mut self, target: Target, repository: Repository)
        ensures
            final(self)@ == with_entry(old(self)@, target@, repository@),
            distinct_targets(final(self)@),
            all_well_formed(final(self)@),
    {
        proof {
            use_type_invariant(&*self);
            use_type_invariant(&repository);
        }
        let ghost before = self@;
        let found = self.position(&target);
        let ghost entry = EntryView { target: target@, repository: repository@ };
        let mut entries: Vec<Entry> = Vec::new();
        core::mem::swap(&mut self.entries, &mut entries);
        assert(Seq::new(entries@.len(), |i: int| entries@[i]@) =~= before);
        match found {
            Some(i) => {
                proof {
                    let chosen = choose|k: int|
                        0 <= k < before.len() && (#[trigger] before[k]).target == target@;
                    assert(chosen == i);
                }
                entries[i] = Entry { target, repository };
                assert(Seq::new(entries@.len(), |i: int| entries@[i]@) =~= before.update(
                    i as int,
                    entry,
                ));
            },
            None => {
                entries.push(Entry { target, repository });
                assert(Seq::new(entries@.len(), |i: int| entries@[i]@) =~= before.push(entry));
            },
        }
        core::mem::swap(&mut self.entries, &mut entries);
    }

    /// Brings `call` to the target at `index`, if there is one.
    fn react(&mut self, index: usize, call: Call<'_>) -> (action: Action)
        ensures
            final(self)@ == reacted(old(self)@, index as int, call@).0,
            action@ == reacted(old(self)@, index as int, call@).1,
            distinct_targets(final(self)@),
            all_well_formed(final(self)@),
    {
        proof {
            use_type_invariant(&*self);
        }
        if index >= self.entries.len() {
            return Action::Nothing;
        }
        let ghost before = self@;
        let mut entries: Vec<Entry> = Vec::new();
        core::mem::swap(&mut self.entries, &mut entries);
        assert(Seq::new(entries@.len(), |i: int| entries@[i]@) =~= before);
        let action = match call {
            Call::Initialize => entries[index].repository.initialize(),
            Call::Webhook(current_dir) => entries[index].repository.deploy(current_dir),
            Call::Report(outcome) => entries[index].repository.advance(outcome),
        };
        assert(Seq::new(entries@.len(), |i: int| entries@[i]@) =~= reacted(
            before,
            index as int,
            call@,
        ).0);
        core::mem::swap(&mut self.entries, &mut entries);
        action
    }

    /// The first target whose initialisation was given up, with the fault.
    fn abandoned(&self) -> (found: Option<(usize, Fault)>)
        ensures
            found is Some <==> first_abandoned(self@, 0) is Some,
            found matches Some((index, fault)) ==> first_abandoned(self@, 0) == Some(
                (index as int, fault),
            ),
    {
        let mut i: usize = 0;
        while i < self.entries.len()
            invariant
                i <= self.entries.len(),
                self@.len() == self.entries@.len(),
                first_abandoned(self@, 0) == first_abandoned(self@, i as int),
            decreases self.entries.len() - i,
        {
            let stage = self.entries[i].repository.stage();
            if let Stage::Initializing(Setup::Abandoned(fault)) = stage {
                return Some((i, fault));
            }
            i = i + 1;
        }
        None
    }

    /// The first target that is not idle, with the stage it is in.
    fn unready(&self) -> (found: Option<(usize, Stage)>)
        ensures
            found is Some <==> first_unready(self@, 0) is Some,
            found matches Some((index, stage)) ==> first_unready(self@, 0) == Some(index as int)
                && index < self@.len() && stage == self@[index as int].repository.stage,
    {
        let mut i: usize = 0;
        while i < self.entries.len()
            invariant
                i <= self.entries.len(),
                self@.len() == self.entries@.len(),
                first_unready(self@, 0) == first_unready(self@, i as int),
            decreases self.entries.len() - i,
        {
            let stage = self.entries[i].repository.stage();
            if stage != Stage::Idle {
                return Some((i, stage));
            }
            i = i + 1;
        }
        None
    }

    /// Takes up the first target that is not idle.
    fn proceed(&mut self) -> (next: Startup)
        ensures
            final(self)@ == proceeded(old(self)@).0,
            next@ == proceeded(old(self)@).1,
            distinct_targets(final(self)@),
            all_well_formed(final(self)@),
    {
        proof {
            use_type_invariant(&*self);
        }
        match self.unready() {
            None => Startup::Ready,
            Some((index, Stage::Initializing(Setup::Created))) => {
                match self.react(index, Call::Initialize) {
                    Action::Abort(fault) => Startup::Failed(index, fault),
                    action => Startup::Perform(index, action),
                }
            },
            Some((index, Stage::Initializing(Setup::Abandoned(fault)))) => Startup::Failed(
                index,
                fault,
            ),
            Some((index, _)) => Startup::Perform(index, self.entries[index].repository.pending()),
        }
    }

    /// One step of the start-up. `report` is the outcome of the action that
    /// was handed out last, for the target at `at`; without a report the
    /// start-up begins, or goes on where it stands. Targets are initialised
    /// one after the other, in the order of the registry. The first fault
    /// ends the start-up for good: nothing is handed out after it.
    pub fn start_up(&mut self, at: usize, report: Option<Outcome>) -> (next: Startup)
        ensures
            final(self)@ == started(old(self)@, at as int, report).0,
            next@ == started(old(self)@, at as int, report).1,
            distinct_targets(final(self)@),
            all_well_formed(final(self)@),
    {
        proof {
            use_type_invariant(&*self);
        }
        if let Some((index, fault)) = self.abandoned() {
            return Startup::Failed(index, fault);
        }
        match report {
            Some(outcome) => match self.react(at, Call::Report(outcome)) {
                Action::Abort(fault) => Startup::Failed(at, fault),
                Action::Done | Action::Nothing => self.proceed(),
                action => Startup::Perform(at, action),
            },
            None => self.proceed(),
        }
    }

    /// Starts the initialisation of the target at `index`. Without such a
    /// target nothing happens.
    pub fn initialize(&mut self, index: usize) -> (action: Action)
        ensures
            final(self)@ == reacted(old(self)@, index as int, Input::Initialize).0,
            action@ == reacted(old(self)@, index as int, Input::Initialize).1,
            distinct_targets(final(self)@),
            all_well_formed(final(self)@),
    {
        self.react(index, Call::Initialize)
    }

    /// Starts a deployment of the target at `index`. Without such a target
    /// nothing happens.
    pub fn deploy(&mut self, index: usize, current_dir: &str) -> (action: Action)
        ensures
            final(self)@ == reacted(old(self)@, index as int, Input::Webhook(current_dir@)).0,
            action@ == reacted(old(self)@, index as int, Input::Webhook(current_dir@)).1,
            distinct_targets(final(self)@),
            all_well_formed(final(self)@),
    {
        self.react(index, Call::Webhook(current_dir))
    }

    /// Reports the outcome of the action that the target at `index` handed
    /// out last. Without such a target nothing happens.
    pub fn advance(&mut self, index: usize, outcome: Outcome) -> (action: Action)
        ensures
            final(self)@ == reacted(old(self)@, index as int, Input::Report(outcome)).0,
            action@ == reacted(old(self)@, index as int, Input::Report(outcome)).1,
            distinct_targets(final(self)@),
            all_well_formed(final(self)@),
    {
        self.react(index, Call::Report(outcome))
    }
}

/// The registry and the action after `input` was brought to the target at
/// `index`: only that target's repository changes, and nothing does where
/// `index` is none.
pub open spec fn reacted(entries: Seq<EntryView>, index: int, input: Input) -> (
    Seq<EntryView>,
    ActionView,
) {
    if 0 <= index < entries.len() {
        (
            entries.update(
                index,
                EntryView {
                    target: entries[index].target,
                    repository: entries[index].repository.react(input).0,
                },
            ),
            entries[index].repository.react(input).1,
        )
    } else {
        (entries, ActionView::Nothing)
    }
}

enum Call<'a> {
    Initialize,
    Webhook(&'a str),
    Report(Outcome),
}

impl View for Call<'_> {
    type V = Input;

    closed spec fn view(&self) -> Input {
        match *self {
            Call::Initialize => Input::Initialize,
            Call::Webhook(current_dir) => Input::Webhook(current_dir@),
            Call::Report(outcome) => Input::Report(outcome),
        }
    }
}

/// What becomes of a webhook for `target`: for a configured target, its
/// place and the first action of its deployment; for any other, nothing.
pub open spec fn handled(entries: Seq<EntryView>, target: TargetView, current_dir: Seq<char>) -> (
    Seq<EntryView>,
    Option<(int, ActionView)>,
) {
    if is_configured(entries, target) {
        let i = choose|i: int| 0 <= i < entries.len() && (#[trigger] entries[i]).target == target;
        (
            reacted(entries, i, Input::Webhook(current_dir)).0,
            Some((i, reacted(entries, i, Input::Webhook(current_dir)).1)),
        )
    } else {
        (entries, None)
    }
}

/// Dispatches a webhook for `target`. The deployment of the repository that
/// belongs to exactly this target is started. A webhook for a target that is
/// not configured is dropped: no repository changes.
pub fn handle_target(target: Target, repos: &mut Repos, current_dir: &str) -> (started: Option<
    (usize, Action),
>)
    ensures
        final(repos)@ == handled(old(repos)@, target@, current_dir@).0,
        started is Some <==> is_configured(old(repos)@, target@),
        started matches Some((index, action)) ==> handled(old(repos)@, target@, current_dir@).1
            == Some((index as int, action@)) && index < old(repos)@.len() && old(
            repos,
        )@[index as int].target == target@,
        !is_configured(old(repos)@, target@) ==> final(repos)@ == old(repos)@,
        distinct_targets(final(repos)@),
        all_well_formed(final(repos)@),
{
    let ghost before = repos@;
    match repos.position(&target) {
        Some(index) => {
            proof {
                let chosen = choose|k: int|
                    0 <= k < before.len() && (#[trigger] before[k]).target == target@;
                assert(chosen == index);
            }
            let action = repos.deploy(index, current_dir);
            Some((index, action))
        },
        None => None,
    }
}

/// Sets up the registry for a list of recipes: each recipe gets a fresh
/// repository under the target it configures, in the order of the list.
pub fn initialize_repos(recipes: Vec<Recipe>) -> (repos: Repos)
    ensures
        repos@ == registry_of(Seq::new(recipes@.len(), |i: int| recipes@[i]@)),
        distinct_targets(repos@),
        all_well_formed(repos@),
{
    let ghost all = Seq::new(recipes@.len(), |i: int| recipes@[i]@);
    let mut repos = Repos::new();
    let mut i: usize = 0;
    while i < recipes.len()
        invariant
            i <= recipes.len(),
            all == Seq::new(recipes@.len(), |i: int| recipes@[i]@),
            repos@ == registry_of(all.take(i as int)),
            distinct_targets(repos@),
            all_well_formed(repos@),
        decreases recipes.len() - i,
    {
        let recipe = recipes[i].clone();
        let target = Target {
            repository_name: repository_name(recipe.repository_url.as_str()),
            branch_name: recipe.branch.clone(),
        };
        proof {
            assert(all.take(i + 1).drop_last() =~= all.take(i as int));
            assert(all.take(i + 1).last() == recipes@[i as int]@);
        }
        repos.insert(target, Repository::new(recipe));
        i = i + 1;
    }
    assert(all.take(recipes@.len() as int) =~= all);
    repos
}

/// Where no target from `from` on is found unready, every one of them is
/// idle.
pub proof fn lemma_none_unready(entries: Seq<EntryView>, from: int)
    requires
        0 <= from,
        first_unready(entries, from) is None,
    ensures
        forall|i: int|
            from <= i < entries.len() ==> (#[trigger] entries[i]).repository.stage == Stage::Idle,
    decreases entries.len() - from,
{
    if from < entries.len() {
        lemma_none_unready(entries, from + 1);
    }
}

/// A target that was given up is found, whichever place it has.
pub proof fn lemma_abandoned_is_found(entries: Seq<EntryView>, from: int, index: int)
    requires
        0 <= from <= index < entries.len(),
        entries[index].repository.stage matches Stage::Initializing(Setup::Abandoned(_)),
    ensures
        first_abandoned(entries, from) is Some,
    decreases index - from,
{
    if from < index {
        if !(entries[from].repository.stage matches Stage::Initializing(Setup::Abandoned(_))) {
            lemma_abandoned_is_found(entries, from + 1, index);
        }
    }
}

/// Start-up says `Ready` only when every target is idle, and then it has
/// changed nothing but by the report it was given.
pub proof fn lemma_ready_means_all_idle(
    entries: Seq<EntryView>,
    at: int,
    report: Option<Outcome>,
)
    requires
        started(entries, at, report).1 == StartupView::Ready,
    ensures
        forall|i: int|
            0 <= i < started(entries, at, report).0.len() ==> (#[trigger] started(
                entries,
                at,
                report,
            ).0[i]).repository.stage == Stage::Idle,
{
    lemma_none_unready(started(entries, at, report).0, 0);
}

/// A failed start-up is failed for good. Where no deployment is under way,
/// a step of the start-up starts none; and once a step has said `Failed`,
/// the target it names is given up, every later step says `Failed` again
/// and changes nothing: no action is handed out any more, so that no later
/// target is cloned.
pub proof fn lemma_failure_ends_the_start_up(
    entries: Seq<EntryView>,
    at: int,
    report: Option<Outcome>,
    later_at: int,
    later_report: Option<Outcome>,
)
    requires
        at_rest(entries),
    ensures
        at_rest(started(entries, at, report).0),
        started(entries, at, report).1 matches StartupView::Failed(index, fault) ==> {
            let after = started(entries, at, report).0;
            &&& 0 <= index < after.len()
            &&& after[index].repository.stage == Stage::Initializing(Setup::Abandoned(fault))
            &&& started(after, later_at, later_report).0 == after
            &&& started(after, later_at, later_report).1 is Failed
        },
{
    let after = started(entries, at, report).0;
    assert(at_rest(after)) by {
        assert forall|j: int| 0 <= j < after.len() implies !is_deploying(
            (#[trigger] after[j]).repository,
        ) by {
            assert(!is_deploying(entries[j].repository));
        }
    }
    if let StartupView::Failed(index, fault) = started(entries, at, report).1 {
        if let Some(found) = first_abandoned(entries, 0) {
            lemma_first_abandoned(entries, 0);
        } else {
            if report is Some && 0 <= at < entries.len() {
                assert(!is_deploying(entries[at].repository));
            }
            let middle = if report is Some {
                reacted(entries, at, Input::Report(report->0)).0
            } else {
                entries
            };
            if first_unready(middle, 0) is Some {
                lemma_first_unready(middle, 0);
            }
        }
        lemma_abandoned_is_found(after, 0, index);
    }
}

/// What is found given up is given up, and lies in the registry.
pub proof fn lemma_first_abandoned(entries: Seq<EntryView>, from: int)
    requires
        0 <= from,
    ensures
        first_abandoned(entries, from) matches Some((index, fault)) ==> from <= index
            < entries.len() && entries[index].repository.stage == Stage::Initializing(
            Setup::Abandoned(fault),
        ),
    decreases entries.len() - from,
{
    if from < entries.len() {
        lemma_first_abandoned(entries, from + 1);
    }
}

/// What is found unready is not idle, lies in the registry, and is the
/// first such: every target before it is idle.
pub proof fn lemma_first_unready(entries: Seq<EntryView>, from: int)
    requires
        0 <= from,
    ensures
        first_unready(entries, from) matches Some(index) ==> from <= index < entries.len()
            && entries[index].repository.stage != Stage::Idle && forall|i: int|
            from <= i < index ==> (#[trigger] entries[i]).repository.stage == Stage::Idle,
    decreases entries.len() - from,
{
    if from < entries.len() {
        lemma_first_unready(entries, from + 1);
    }
}

/// Start-up keeps the configuration: no target is added, removed or moved.
pub proof fn lemma_start_up_keeps_targets(
    entries: Seq<EntryView>,
    at: int,
    report: Option<Outcome>,
)
    ensures
        started(entries, at, report).0.len() == entries.len(),
        forall|i: int|
            0 <= i < entries.len() ==> (#[trigger] started(entries, at, report).0[i]).target
                == entries[i].target,
{
    let middle = if report is Some {
        reacted(entries, at, Input::Report(report->0)).0
    } else {
        entries
    };
    if first_unready(middle, 0) is Some {
        lemma_first_unready(middle, 0);
    }
    if first_unready(entries, 0) is Some {
        lemma_first_unready(entries, 0);
    }
}

} // verus!
