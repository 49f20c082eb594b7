//! What whole runs of the deployment state machine do: which actions come
//! out, in which order, and what they leave behind in the world.

use crate::config::{ModeView, RecipeView};
use crate::repository::{
    is_deploying, is_initializing, is_work, pending, static_files_path, well_formed, ActionView,
    Fault, Input, Outcome, RepositoryView, Stage, Work,
};
use vstd::prelude::*;

verus! {

/// What exists outside the library on behalf of one target.
pub struct World {
    /// The processes that were started for the target and not ended since.
    pub live: Set<u32>,
    /// How many static-file servers were started for the target.
    pub servers: nat,
}

/// The world before anything was done.
pub open spec fn empty_world() -> World {
    World { live: Set::empty(), servers: 0 }
}

/// The world after the caller carried out `action` and saw `outcome`: a kill
/// that succeeded takes its process away, a spawn that succeeded adds the
/// process it reports, and serving starts one more server.
pub open spec fn effect(world: World, action: ActionView, outcome: Outcome) -> World {
    match action {
        ActionView::Kill { process } => if outcome.success {
            World { live: world.live.remove(process), ..world }
        } else {
            world
        },
        ActionView::Spawn { .. } => match outcome.process {
            Some(process) if outcome.success => World {
                live: world.live.insert(process),
                ..world
            },
            _ => world,
        },
        ActionView::Serve { .. } => World { servers: world.servers + 1, ..world },
        _ => world,
    }
}

/// The processes a target knows of.
pub open spec fn supervised(s: RepositoryView) -> Set<u32> {
    match s.process {
        Some(process) => set![process],
        None => Set::empty(),
    }
}

/// The world holds what the target believes it holds: its process and no
/// other, and a server exactly if the target counts as serving.
pub open spec fn coherent(s: RepositoryView, world: World) -> bool {
    &&& world.live == supervised(s)
    &&& world.servers == if s.serving { 1nat } else { 0nat }
}

/// A fresh target is consistent, and coherent with the empty world.
pub proof fn lemma_fresh_is_well_formed(recipe: RecipeView)
    requires
        recipe.steps().len() <= usize::MAX,
    ensures
        well_formed(RepositoryView::fresh(recipe)),
        coherent(RepositoryView::fresh(recipe), empty_world()),
        is_initializing(RepositoryView::fresh(recipe)),
{
}

/// Starting the initialisation keeps a target consistent, never touches its
/// recipe, and leaves it waiting on exactly the action that came out.
pub proof fn lemma_initialize_step(s: RepositoryView)
    requires
        well_formed(s),
    ensures
        well_formed(s.initialize().0),
        s.initialize().0.recipe == s.recipe,
        s.initialize().0.process == s.process,
        s.initialize().0.serving == s.serving,
        is_work(s.initialize().1) ==> pending(s.initialize().0) == s.initialize().1,
        s.initialize().1 == ActionView::Nothing ==> s.initialize().0 == s,
{
}

/// Starting a deployment keeps a target consistent, never touches its
/// recipe, and leaves it waiting on exactly the action that came out.
pub proof fn lemma_deploy_step(s: RepositoryView, current_dir: Seq<char>)
    requires
        well_formed(s),
    ensures
        well_formed(s.deploy(current_dir).0),
        s.deploy(current_dir).0.recipe == s.recipe,
        s.deploy(current_dir).0.process == s.process,
        s.deploy(current_dir).0.serving == s.serving,
        is_work(s.deploy(current_dir).1) ==> pending(s.deploy(current_dir).0) == s.deploy(
            current_dir,
        ).1,
        s.deploy(current_dir).1 == ActionView::Nothing ==> s.deploy(current_dir).0 == s,
{
}

/// A report keeps a target consistent, never touches its recipe, and leaves
/// it either waiting on exactly the action that came out or not deploying.
pub proof fn lemma_advance_preserves(s: RepositoryView, outcome: Outcome)
    requires
        well_formed(s),
    ensures
        well_formed(s.advance(outcome).0),
        s.advance(outcome).0.recipe == s.recipe,
        is_work(s.advance(outcome).1) ==> pending(s.advance(outcome).0) == s.advance(outcome).1,
        !is_work(s.advance(outcome).1) ==> !is_deploying(s.advance(outcome).0),
        s.advance(outcome).1 == ActionView::Nothing ==> s.advance(outcome).0 == s,
{
}

/// A report keeps a target coherent with the world: what the caller did
/// for the pending action is what the target takes note of.
pub proof fn lemma_advance_step(s: RepositoryView, world: World, outcome: Outcome)
    requires
        well_formed(s),
        coherent(s, world),
    ensures
        well_formed(s.advance(outcome).0),
        coherent(s.advance(outcome).0, effect(world, pending(s), outcome)),
        s.advance(outcome).0.recipe == s.recipe,
{
    lemma_advance_preserves(s, outcome);
    let next = s.advance(outcome).0;
    let after = effect(world, pending(s), outcome);
    assert(after.live =~= supervised(next));
}

/// The world after one input: only a report stands for work that was done.
pub open spec fn world_after(s: RepositoryView, world: World, input: Input) -> World {
    match input {
        Input::Report(outcome) => effect(world, pending(s), outcome),
        _ => world,
    }
}

/// The target and the world after a series of inputs.
pub open spec fn run(s: RepositoryView, world: World, inputs: Seq<Input>) -> (
    RepositoryView,
    World,
)
    decreases inputs.len(),
{
    if inputs.len() == 0 {
        (s, world)
    } else {
        run(
            s.react(inputs.first()).0,
            world_after(s, world, inputs.first()),
            inputs.drop_first(),
        )
    }
}

/// Whatever is brought to a target, in whatever order: it stays consistent
/// and keeps its recipe, and with it its mode; at most one process lives
/// for it and at most one server was started for it; and whenever it asks
/// for a new process, none lives.
pub proof fn lemma_at_most_one_instance(s: RepositoryView, world: World, inputs: Seq<Input>)
    requires
        well_formed(s),
        coherent(s, world),
    ensures
        well_formed(run(s, world, inputs).0),
        coherent(run(s, world, inputs).0, run(s, world, inputs).1),
        run(s, world, inputs).0.recipe == s.recipe,
        run(s, world, inputs).1.live.finite(),
        run(s, world, inputs).1.live.len() <= 1,
        run(s, world, inputs).1.servers <= 1,
        run(s, world, inputs).0.process is Some ==> run(s, world, inputs).1.live.len() == 1,
        run(s, world, inputs).0.serving ==> run(s, world, inputs).1.servers == 1,
        pending(run(s, world, inputs).0) is Spawn ==> run(s, world, inputs).1.live.is_empty(),
        pending(run(s, world, inputs).0) is Serve ==> run(s, world, inputs).1.servers == 0,
    decreases inputs.len(),
{
    if inputs.len() == 0 {
    } else {
        let input = inputs.first();
        match input {
            Input::Initialize => lemma_initialize_step(s),
            Input::Webhook(current_dir) => lemma_deploy_step(s, current_dir),
            Input::Report(outcome) => lemma_advance_step(s, world, outcome),
        }
        lemma_at_most_one_instance(
            s.react(input).0,
            world_after(s, world, input),
            inputs.drop_first(),
        );
    }
}

/// The target and the actions that come out when one report after another
/// is brought to it.
pub open spec fn drive(s: RepositoryView, outcomes: Seq<Outcome>) -> (
    RepositoryView,
    Seq<ActionView>,
)
    decreases outcomes.len(),
{
    if outcomes.len() == 0 {
        (s, Seq::empty())
    } else {
        let (next, action) = s.advance(outcomes.first());
        let (last, rest) = drive(next, outcomes.drop_first());
        (last, seq![action] + rest)
    }
}

/// The world after the same reports.
pub open spec fn drive_world(s: RepositoryView, world: World, outcomes: Seq<Outcome>) -> World
    decreases outcomes.len(),
{
    if outcomes.len() == 0 {
        world
    } else {
        drive_world(
            s.advance(outcomes.first()).0,
            effect(world, pending(s), outcomes.first()),
            outcomes.drop_first(),
        )
    }
}

/// Reports brought in two batches do what they do when brought in one.
pub proof fn lemma_drive_split(
    s: RepositoryView,
    world: World,
    first: Seq<Outcome>,
    second: Seq<Outcome>,
)
    ensures
        drive(s, first + second).0 == drive(drive(s, first).0, second).0,
        drive(s, first + second).1 == drive(s, first).1 + drive(drive(s, first).0, second).1,
        drive_world(s, world, first + second) == drive_world(
            drive(s, first).0,
            drive_world(s, world, first),
            second,
        ),
    decreases first.len(),
{
    if first.len() == 0 {
        assert(first + second =~= second);
        assert(drive(s, first).1 + drive(s, second).1 =~= drive(s, second).1);
    } else {
        let next = s.advance(first.first()).0;
        let action = s.advance(first.first()).1;
        let after = effect(world, pending(s), first.first());
        assert((first + second).drop_first() =~= first.drop_first() + second);
        assert((first + second).first() == first.first());
        lemma_drive_split(next, after, first.drop_first(), second);
        assert(seq![action] + (drive(next, first.drop_first()).1 + drive(
            drive(s, first).0,
            second,
        ).1) =~= (seq![action] + drive(next, first.drop_first()).1) + drive(
            drive(s, first).0,
            second,
        ).1);
    }
}

/// How many build steps a deploying target has asked for so far.
pub open spec fn steps_issued(s: RepositoryView) -> int {
    match s.stage {
        Stage::Deploying(Work::Building(i)) => i + 1,
        _ => 0,
    }
}

/// The build steps of a target from step `from` on, as actions, in the order
/// of the recipe and in the working copy of the deployment under way.
pub open spec fn builds_from(s: RepositoryView, from: int) -> Seq<ActionView> {
    Seq::new(
        (s.recipe.steps().len() - from) as nat,
        |j: int|
            ActionView::Build { command: s.recipe.steps()[from + j], dir: s.context_dir },
    )
}

/// While build steps are left, each report brings out the next
/// step of the recipe, whatever the report says: after the pull and after
/// each step, however it ended, the step that follows it in the recipe comes
/// out, and nothing of the target changes but its stage.
pub proof fn lemma_builds_in_order(s: RepositoryView, outcomes: Seq<Outcome>)
    requires
        well_formed(s),
        s.stage == Stage::Deploying(Work::Pulling) || s.stage matches Stage::Deploying(
            Work::Building(_),
        ),
        steps_issued(s) + outcomes.len() <= s.recipe.steps().len(),
    ensures
        drive(s, outcomes).1 == builds_from(s, steps_issued(s)).take(outcomes.len() as int),
        outcomes.len() > 0 ==> drive(s, outcomes).0 == s.at(
            Stage::Deploying(Work::Building((steps_issued(s) + outcomes.len() - 1) as usize)),
        ),
        outcomes.len() == 0 ==> drive(s, outcomes).0 == s,
    decreases outcomes.len(),
{
    let issued = steps_issued(s);
    let expected = builds_from(s, issued).take(outcomes.len() as int);
    if outcomes.len() == 0 {
        assert(drive(s, outcomes).1 =~= expected);
    } else {
        let next = s.advance(outcomes.first()).0;
        assert(next == s.at(Stage::Deploying(Work::Building(issued as usize))));
        lemma_builds_in_order(next, outcomes.drop_first());
        assert(drive(s, outcomes).1 =~= expected);
    }
}

/// Reports keep a target consistent and coherent with the world.
pub proof fn lemma_drive_coherent(s: RepositoryView, world: World, outcomes: Seq<Outcome>)
    requires
        well_formed(s),
        coherent(s, world),
    ensures
        well_formed(drive(s, outcomes).0),
        coherent(drive(s, outcomes).0, drive_world(s, world, outcomes)),
        drive(s, outcomes).0.recipe == s.recipe,
        drive(s, outcomes).1.len() == outcomes.len(),
    decreases outcomes.len(),
{
    if outcomes.len() > 0 {
        lemma_advance_step(s, world, outcomes.first());
        lemma_drive_coherent(
            s.advance(outcomes.first()).0,
            effect(world, pending(s), outcomes.first()),
            outcomes.drop_first(),
        );
    }
}

/// One report brings out one action.
pub proof fn lemma_drive_one(s: RepositoryView, outcome: Outcome)
    ensures
        drive(s, seq![outcome]).0 == s.advance(outcome).0,
        drive(s, seq![outcome]).1 == seq![s.advance(outcome).1],
{
    let outcomes = seq![outcome];
    assert(outcomes.first() == outcome);
    assert(outcomes.drop_first().len() == 0);
    assert(drive(s.advance(outcome).0, outcomes.drop_first()).1 =~= Seq::<ActionView>::empty());
    assert(seq![s.advance(outcome).1] + Seq::<ActionView>::empty() =~= seq![s.advance(outcome).1]);
}

/// The actions that close a deployment once the build steps are through,
/// where ending and starting processes succeeds. In host mode the server is
/// started unless it already was. In run mode the previous process, if
/// there is one, is ended before the new one is started.
pub open spec fn closing(s: RepositoryView) -> Seq<ActionView> {
    match s.recipe.mode() {
        ModeView::Host(host) => if s.serving {
            seq![ActionView::Done]
        } else {
            seq![
                ActionView::Serve {
                    port: host.port,
                    directory: static_files_path(s.context_dir, host.path),
                },
                ActionView::Done,
            ]
        },
        ModeView::Run(command) => match s.process {
            Some(process) => seq![
                ActionView::Kill { process },
                ActionView::Spawn { command, dir: s.path },
                ActionView::Done,
            ],
            None => seq![ActionView::Spawn { command, dir: s.path }, ActionView::Done],
        },
        ModeView::Unset => seq![ActionView::Abort(Fault::MissingMode)],
    }
}

/// All the actions of one deployment of an idle target, in order: the pull,
/// every build step of the recipe, and what closes the deployment.
pub open spec fn cycle(s: RepositoryView, current_dir: Seq<char>) -> Seq<ActionView> {
    let begun = s.deploy(current_dir).0;
    seq![s.deploy(current_dir).1] + builds_from(begun, 0) + closing(begun)
}

/// Whether, among the reports of one deployment, those on ending the
/// previous process and on starting the new one tell of success. Reports on
/// the pull and on build steps may say anything.
pub open spec fn supervision_succeeds(s: RepositoryView, outcomes: Seq<Outcome>) -> bool {
    match s.recipe.mode() {
        ModeView::Run(_) => {
            &&& outcomes.len() >= 2
            &&& outcomes.last().success
            &&& outcomes.last().process is Some
            &&& s.process is Some ==> outcomes[outcomes.len() - 2].success
        },
        _ => true,
    }
}

/// Through the build steps. The reports on the pull and on every build
/// step bring out all build steps of the recipe, in order, and then the
/// first of the actions that put the target to work.
pub proof fn lemma_through_the_builds(s: RepositoryView, outcomes: Seq<Outcome>)
    requires
        well_formed(s),
        s.stage == Stage::Deploying(Work::Pulling),
        outcomes.len() == s.recipe.steps().len() + 1,
    ensures
        drive(s, outcomes).0 == s.settle().0,
        drive(s, outcomes).1 == builds_from(s, 0).push(s.settle().1),
{
    let building = outcomes.drop_last();
    let last = seq![outcomes.last()];
    assert(outcomes =~= building + last);
    lemma_builds_in_order(s, building);
    lemma_drive_split(s, empty_world(), building, last);
    let built = drive(s, building).0;
    assert(built.advance(outcomes.last()) == s.settle());
    lemma_drive_one(built, outcomes.last());
    assert(builds_from(s, 0).take(building.len() as int) =~= builds_from(s, 0));
    assert(builds_from(s, 0) + seq![s.settle().1] =~= builds_from(s, 0).push(s.settle().1));
}

/// Whether the reports that follow the build steps tell of success in
/// ending the previous process and in starting the new one.
pub open spec fn closing_succeeds(s: RepositoryView, outcomes: Seq<Outcome>) -> bool {
    s.recipe.mode() is Run ==> {
        &&& outcomes.len() >= 1
        &&& outcomes.last().success
        &&& outcomes.last().process is Some
        &&& s.process is Some ==> outcomes.len() >= 2 && outcomes[outcomes.len() - 2].success
    }
}

/// Putting the target to work. Once the build steps are through, the
/// actions of `closing` come out, in order, and leave the target idle: in
/// host mode serving, in run mode with the process that was started last.
pub proof fn lemma_closing(s: RepositoryView, outcomes: Seq<Outcome>)
    requires
        well_formed(s),
        outcomes.len() + 1 == closing(s).len(),
        closing_succeeds(s, outcomes),
    ensures
        seq![s.settle().1] + drive(s.settle().0, outcomes).1 == closing(s),
        drive(s.settle().0, outcomes).0.stage == Stage::Idle,
        s.recipe.mode() is Host ==> drive(s.settle().0, outcomes).0.serving,
        s.recipe.mode() is Run ==> drive(s.settle().0, outcomes).0.process
            == outcomes.last().process,
{
    let settled = s.settle().0;
    let first = seq![s.settle().1];
    if outcomes.len() == 0 {
        assert(first + drive(settled, outcomes).1 =~= closing(s));
    } else if outcomes.len() == 1 {
        assert(outcomes =~= seq![outcomes.last()]);
        lemma_drive_one(settled, outcomes.last());
        assert(first + drive(settled, outcomes).1 =~= closing(s));
    } else {
        let kill = seq![outcomes.first()];
        let spawn = seq![outcomes.last()];
        assert(outcomes =~= kill + spawn);
        lemma_drive_one(settled, outcomes.first());
        lemma_drive_split(settled, empty_world(), kill, spawn);
        lemma_drive_one(settled.advance(outcomes.first()).0, outcomes.last());
        assert(first + drive(settled, outcomes).1 =~= closing(s));
    }
}

/// One whole deployment. An idle target that is triggered, and then gets a
/// report for each action but the last, hands out exactly the actions of
/// `cycle`, in that order, however the pull and the build steps ended. It is
/// idle again afterwards. In host mode it then counts as serving and exactly
/// one server was started for it, also where one had been started before. In
/// run mode it knows the new process, and that process alone lives.
pub proof fn lemma_deployment_cycle(
    s: RepositoryView,
    world: World,
    current_dir: Seq<char>,
    outcomes: Seq<Outcome>,
)
    requires
        well_formed(s),
        coherent(s, world),
        s.stage == Stage::Idle,
        outcomes.len() + 1 == cycle(s, current_dir).len(),
        supervision_succeeds(s, outcomes),
    ensures
        seq![s.deploy(current_dir).1] + drive(s.deploy(current_dir).0, outcomes).1 == cycle(
            s,
            current_dir,
        ),
        drive(s.deploy(current_dir).0, outcomes).0.stage == Stage::Idle,
        well_formed(drive(s.deploy(current_dir).0, outcomes).0),
        coherent(
            drive(s.deploy(current_dir).0, outcomes).0,
            drive_world(s.deploy(current_dir).0, world, outcomes),
        ),
        s.recipe.mode() is Host ==> drive(s.deploy(current_dir).0, outcomes).0.serving
            && drive_world(s.deploy(current_dir).0, world, outcomes).servers == 1,
        s.recipe.mode() is Run ==> drive(s.deploy(current_dir).0, outcomes).0.process
            == outcomes.last().process && drive_world(
            s.deploy(current_dir).0,
            world,
            outcomes,
        ).live == set![outcomes.last().process->0],
{
    let begun = s.deploy(current_dir).0;
    let steps = s.recipe.steps().len() as int;
    lemma_deploy_step(s, current_dir);
    lemma_drive_coherent(begun, world, outcomes);

    let head = outcomes.take(steps + 1);
    let tail = outcomes.skip(steps + 1);
    assert(outcomes =~= head + tail);
    lemma_through_the_builds(begun, head);
    lemma_drive_split(begun, world, head, tail);
    if tail.len() > 0 {
        assert(tail.last() == outcomes.last());
    }
    if tail.len() > 1 {
        assert(tail[tail.len() - 2] == outcomes[outcomes.len() - 2]);
    }
    lemma_closing(begun, tail);
    assert(seq![s.deploy(current_dir).1] + (builds_from(begun, 0).push(begun.settle().1) + drive(
        begun.settle().0,
        tail,
    ).1) =~= seq![s.deploy(current_dir).1] + builds_from(begun, 0) + (seq![begun.settle().1]
        + drive(begun.settle().0, tail).1));
}

/// One trigger and the reports that follow it.
pub struct Round {
    /// The directory the agent runs in when the webhook comes in.
    pub current_dir: Seq<char>,
    /// The reports on the actions of the deployment, in order.
    pub outcomes: Seq<Outcome>,
}

/// Whether `round` carries one report for each action of the deployment but
/// the last, and ending and starting processes succeeds in it.
pub open spec fn round_fits(s: RepositoryView, round: Round) -> bool {
    &&& round.outcomes.len() + 1 == cycle(s, round.current_dir).len()
    &&& supervision_succeeds(s, round.outcomes)
}

/// The target and the world after one round.
pub open spec fn after_round(s: RepositoryView, world: World, round: Round) -> (
    RepositoryView,
    World,
) {
    let begun = s.deploy(round.current_dir).0;
    (drive(begun, round.outcomes).0, drive_world(begun, world, round.outcomes))
}

/// The target and the world after a series of rounds.
pub open spec fn after_rounds(s: RepositoryView, world: World, rounds: Seq<Round>) -> (
    RepositoryView,
    World,
)
    decreases rounds.len(),
{
    if rounds.len() == 0 {
        (s, world)
    } else {
        let (before, world_before) = after_rounds(s, world, rounds.drop_last());
        after_round(before, world_before, rounds.last())
    }
}

/// Whether each round of the series fits the target as the rounds before it
/// left it.
pub open spec fn rounds_fit(s: RepositoryView, world: World, rounds: Seq<Round>) -> bool
    decreases rounds.len(),
{
    rounds.len() > 0 ==> rounds_fit(s, world, rounds.drop_last()) && round_fits(
        after_rounds(s, world, rounds.drop_last()).0,
        rounds.last(),
    )
}

/// Any number of triggers in succession. After one or more whole
/// deployments of an idle target, it is idle again. In host mode exactly one
/// server was started for it, however many deployments there were. In run
/// mode exactly one process lives for it: the one that the last deployment
/// started.
pub proof fn lemma_consecutive_triggers(s: RepositoryView, world: World, rounds: Seq<Round>)
    requires
        well_formed(s),
        coherent(s, world),
        s.stage == Stage::Idle,
        rounds_fit(s, world, rounds),
    ensures
        well_formed(after_rounds(s, world, rounds).0),
        coherent(after_rounds(s, world, rounds).0, after_rounds(s, world, rounds).1),
        after_rounds(s, world, rounds).0.stage == Stage::Idle,
        after_rounds(s, world, rounds).0.recipe == s.recipe,
        rounds.len() > 0 && s.recipe.mode() is Host ==> after_rounds(s, world, rounds).0.serving
            && after_rounds(s, world, rounds).1.servers == 1,
        rounds.len() > 0 && s.recipe.mode() is Run ==> after_rounds(s, world, rounds).0.process
            == rounds.last().outcomes.last().process && after_rounds(s, world, rounds).1.live
            == set![rounds.last().outcomes.last().process->0] && after_rounds(
            s,
            world,
            rounds,
        ).1.live.len() == 1,
    decreases rounds.len(),
{
    if rounds.len() > 0 {
        lemma_consecutive_triggers(s, world, rounds.drop_last());
        let (before, world_before) = after_rounds(s, world, rounds.drop_last());
        let round = rounds.last();
        lemma_deployment_cycle(before, world_before, round.current_dir, round.outcomes);
        lemma_drive_coherent(before.deploy(round.current_dir).0, world_before, round.outcomes);
    }
}

/// A target that already serves is rebuilt by a
/// further deployment, and not bound again: the deployment is the pull, every
/// build step and nothing more.
pub proof fn lemma_serving_target_is_not_bound_again(s: RepositoryView, current_dir: Seq<char>)
    requires
        s.stage == Stage::Idle,
        s.recipe.mode() is Host,
        s.serving,
    ensures
        cycle(s, current_dir) == seq![s.deploy(current_dir).1] + builds_from(
            s.deploy(current_dir).0,
            0,
        ) + seq![ActionView::Done],
        forall|i: int|
            0 <= i < cycle(s, current_dir).len() ==> !(#[trigger] cycle(s, current_dir)[i]
                is Serve),
{
}

/// Wherever a deployment starts a process while
/// another one lives, the end of that one is asked for directly before.
pub proof fn lemma_spawn_follows_kill(s: RepositoryView, current_dir: Seq<char>)
    requires
        s.stage == Stage::Idle,
        s.recipe.mode() is Run,
        s.process is Some,
    ensures
        cycle(s, current_dir).len() >= 3,
        cycle(s, current_dir)[cycle(s, current_dir).len() - 3] == (ActionView::Kill {
            process: s.process->0,
        }),
        cycle(s, current_dir)[cycle(s, current_dir).len() - 2] is Spawn,
        forall|i: int|
            0 <= i < cycle(s, current_dir).len() - 2 ==> !(#[trigger] cycle(s, current_dir)[i]
                is Spawn),
{
}

} // verus!
