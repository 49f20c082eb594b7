//! The life of one deployment target: cloned once, then pulled, rebuilt and
//! put to work each time a webhook names it.
//!
//! The library decides and never acts. Every call hands back the next
//! [`Action`] for the caller to carry out; the caller reports how it went with
//! an [`Outcome`], and gets the action after that.

use crate::config::{clone_command, ModeView, Recipe, RecipeView};
use crate::git::{branch_name_accepted, git_url_accepted, is_git_url, is_valid_reference_name};
use crate::target::{repository_name, repository_name_of};
use crate::text::{copy_str, joined};
use vstd::prelude::*;

verus! {

/// How far the initialisation of a target has come.
#[derive(Clone, Copy, Debug, PartialEq, Eq, Structural)]
pub enum Setup {
    /// Known from the configuration; nothing has been fetched yet.
    Created,
    /// The clone has been asked for.
    Cloning,
    /// The checkout of the configured branch has been asked for.
    Switching,
    /// Initialisation was given up for this fault. It is not tried again,
    /// so the target never comes to rest.
    Abandoned(Fault),
}

/// How far a deployment has come.
#[derive(Clone, Copy, Debug, PartialEq, Eq, Structural)]
pub enum Work {
    /// The pull has been asked for.
    Pulling,
    /// The build step with this index has been asked for.
    Building(usize),
    /// The static-file server has been asked for.
    Binding,
    /// The end of the previous process has been asked for.
    Stopping,
    /// A new process has been asked for.
    Starting,
}

/// Where a target stands in its life: it is initialised once, and from then
/// on goes back and forth between rest and deployment.
#[derive(Clone, Copy, Debug, PartialEq, Eq, Structural)]
pub enum Stage {
    /// The working copy is being set up.
    Initializing(Setup),
    /// At rest, ready for a webhook.
    Idle,
    /// A deployment is under way.
    Deploying(Work),
}

/// Why a target's initialisation or deployment was given up.
#[derive(Clone, Copy, Debug, PartialEq, Eq, Structural)]
pub enum Fault {
    /// The recipe's address is no address of a remote repository.
    InvalidUrl,
    /// The clone did not succeed.
    CloneFailed,
    /// The recipe's branch is no branch name.
    InvalidBranch,
    /// The checkout of the branch did not succeed.
    CheckoutFailed,
    /// The previous process could not be ended.
    KillFailed,
    /// No new process could be started.
    SpawnFailed,
    /// The recipe names neither host settings nor a run command.
    MissingMode,
    /// The directory the agent runs in could not be told.
    NoWorkingDirectory,
}

/// How the caller fared with the action it was last given.
#[derive(Clone, Copy, Debug, PartialEq, Eq, Structural)]
pub struct Outcome {
    /// Whether the action did what it was meant to.
    pub success: bool,
    /// The identifier of the process that a spawn started.
    pub process: Option<u32>,
}

/// What the caller is to do next.
#[derive(Debug, PartialEq, Eq)]
pub enum Action {
    /// Clone the remote at `url` into `path`.
    Clone { url: String, path: String },
    /// Check out `branch` in the clone at `path`.
    Checkout { branch: String, path: String },
    /// Run `command` in `dir` to completion, to bring in the latest commits.
    Pull { command: Vec<String>, dir: String },
    /// Run the build step `command` in `dir` to completion.
    Build { command: Vec<String>, dir: String },
    /// Serve `directory` on `port`, on an execution unit of its own.
    Serve { port: u16, directory: String },
    /// End the process known as `process`, at once.
    Kill { process: u32 },
    /// Start `command` in `dir` and report its identifier without waiting.
    Spawn { command: Vec<String>, dir: String },
    /// The work is complete and the target is at rest.
    Done,
    /// The work was given up.
    Abort(Fault),
    /// The call did not apply to the stage the target is in.
    Nothing,
}

/// Mathematical model of [`Action`].
pub enum ActionView {
    Clone { url: Seq<char>, path: Seq<char> },
    Checkout { branch: Seq<char>, path: Seq<char> },
    Pull { command: Seq<Seq<char>>, dir: Seq<char> },
    Build { command: Seq<Seq<char>>, dir: Seq<char> },
    Serve { port: u16, directory: Seq<char> },
    Kill { process: u32 },
    Spawn { command: Seq<Seq<char>>, dir: Seq<char> },
    Done,
    Abort(Fault),
    Nothing,
}

impl View for Action {
    type V = ActionView;

    open spec fn view(&self) -> ActionView {
        match *self {
            Action::Clone { url, path } => ActionView::Clone { url: url@, path: path@ },
            Action::Checkout { branch, path } => ActionView::Checkout {
                branch: branch@,
                path: path@,
            },
            Action::Pull { command, dir } => ActionView::Pull {
                command: command.deep_view(),
                dir: dir@,
            },
            Action::Build { command, dir } => ActionView::Build {
                command: command.deep_view(),
                dir: dir@,
            },
            Action::Serve { port, directory } => ActionView::Serve { port, directory: directory@ },
            Action::Kill { process } => ActionView::Kill { process },
            Action::Spawn { command, dir } => ActionView::Spawn {
                command: command.deep_view(),
                dir: dir@,
            },
            Action::Done => ActionView::Done,
            Action::Abort(fault) => ActionView::Abort(fault),
            Action::Nothing => ActionView::Nothing,
        }
    }
}

/// The working copy of the repository called `name`, relative to the
/// directory the agent runs in.
pub open spec fn repository_path(name: Seq<char>) -> Seq<char> {
    "repos/"@ + name
}

/// The working copy of the repository called `name`, below `current_dir`.
pub open spec fn context_dir_of(current_dir: Seq<char>, name: Seq<char>) -> Seq<char> {
    current_dir + "/repos/"@ + name
}

/// The directory that is served: `path` below the working copy.
pub open spec fn static_files_path(context_dir: Seq<char>, path: Seq<char>) -> Seq<char> {
    context_dir + "/"@ + path
}

/// The command that brings in the latest commits.
pub open spec fn pull_command() -> Seq<Seq<char>> {
    seq!["git"@, "pull"@]
}

/// Computes the working copy of the repository called `name`, below
/// `current_dir`.
pub fn get_context_dir(current_dir: &str, name: &str) -> (dir: String)
    ensures
        dir@ == context_dir_of(current_dir@, name@),
{
    let dir = joined(current_dir, "/repos/");
    joined(dir.as_str(), name)
}

/// Mathematical model of [`Repository`].
pub struct RepositoryView {
    /// The name of the repository, taken from the recipe's address.
    pub name: Seq<char>,
    /// The recipe the target was configured with.
    pub recipe: RecipeView,
    /// The working copy, relative to the directory the agent runs in.
    pub path: Seq<char>,
    /// The working copy as the deployment under way knows it.
    pub context_dir: Seq<char>,
    /// Whether the static-file server of this target has been started.
    pub serving: bool,
    /// The process that runs the target, if one is supervised.
    pub process: Option<u32>,
    /// Where the target stands.
    pub stage: Stage,
}

impl RepositoryView {
    /// A target as it is right after configuration.
    pub open spec fn fresh(recipe: RecipeView) -> RepositoryView {
        RepositoryView {
            name: repository_name_of(recipe.repository_url),
            recipe,
            path: repository_path(repository_name_of(recipe.repository_url)),
            context_dir: Seq::empty(),
            serving: false,
            process: None,
            stage: Stage::Initializing(Setup::Created),
        }
    }

    /// The same target in another stage.
    pub open spec fn at(self, stage: Stage) -> RepositoryView {
        RepositoryView { stage, ..self }
    }

    /// The initialisation is given up for `fault`.
    pub open spec fn abandon(self, fault: Fault) -> (RepositoryView, ActionView) {
        (self.at(Stage::Initializing(Setup::Abandoned(fault))), ActionView::Abort(fault))
    }

    /// Start of initialisation: a created target whose address is accepted
    /// is to be cloned; one whose address is not has failed.
    pub open spec fn initialize(self) -> (RepositoryView, ActionView) {
        if self.stage == Stage::Initializing(Setup::Created) {
            if is_git_url(self.recipe.repository_url) {
                (
                    self.at(Stage::Initializing(Setup::Cloning)),
                    ActionView::Clone { url: self.recipe.repository_url, path: self.path },
                )
            } else {
                self.abandon(Fault::InvalidUrl)
            }
        } else {
            (self, ActionView::Nothing)
        }
    }

    /// Start of a deployment: an idle target is to be pulled.
    pub open spec fn deploy(self, current_dir: Seq<char>) -> (RepositoryView, ActionView) {
        if self.stage == Stage::Idle {
            (
                RepositoryView {
                    stage: Stage::Deploying(Work::Pulling),
                    context_dir: context_dir_of(current_dir, self.name),
                    ..self
                },
                ActionView::Pull { command: pull_command(), dir: self.path },
            )
        } else {
            (self, ActionView::Nothing)
        }
    }

    /// The build step `i` is next, or, past the last step, the target is put
    /// to work.
    pub open spec fn build_from(self, i: int) -> (RepositoryView, ActionView) {
        if 0 <= i < self.recipe.steps().len() {
            (
                self.at(Stage::Deploying(Work::Building(i as usize))),
                ActionView::Build { command: self.recipe.steps()[i], dir: self.context_dir },
            )
        } else {
            self.settle()
        }
    }

    /// The built target is put to work. In host mode the server is started
    /// unless it already was. In run mode the previous process is ended
    /// first, if there is one.
    pub open spec fn settle(self) -> (RepositoryView, ActionView) {
        match self.recipe.mode() {
            ModeView::Host(host) => if self.serving {
                (self.at(Stage::Idle), ActionView::Done)
            } else {
                (
                    self.at(Stage::Deploying(Work::Binding)),
                    ActionView::Serve {
                        port: host.port,
                        directory: static_files_path(self.context_dir, host.path),
                    },
                )
            },
            ModeView::Run(command) => match self.process {
                Some(process) => (
                    self.at(Stage::Deploying(Work::Stopping)),
                    ActionView::Kill { process },
                ),
                None => self.start(),
            },
            ModeView::Unset => (self.at(Stage::Idle), ActionView::Abort(Fault::MissingMode)),
        }
    }

    /// A new process is to be started from the run command.
    pub open spec fn start(self) -> (RepositoryView, ActionView) {
        match self.recipe.mode() {
            ModeView::Run(command) => (
                self.at(Stage::Deploying(Work::Starting)),
                ActionView::Spawn { command, dir: self.path },
            ),
            _ => (self.at(Stage::Idle), ActionView::Abort(Fault::MissingMode)),
        }
    }

    /// What follows once the pending action has ended with `outcome`.
    pub open spec fn advance(self, outcome: Outcome) -> (RepositoryView, ActionView) {
        match self.stage {
            Stage::Initializing(Setup::Cloning) => if !outcome.success {
                self.abandon(Fault::CloneFailed)
            } else if is_valid_reference_name(self.recipe.branch) {
                (
                    self.at(Stage::Initializing(Setup::Switching)),
                    ActionView::Checkout { branch: self.recipe.branch, path: self.path },
                )
            } else {
                self.abandon(Fault::InvalidBranch)
            },
            Stage::Initializing(Setup::Switching) => if outcome.success {
                (self.at(Stage::Idle), ActionView::Done)
            } else {
                self.abandon(Fault::CheckoutFailed)
            },
            Stage::Deploying(Work::Pulling) => self.build_from(0),
            Stage::Deploying(Work::Building(i)) => self.build_from(i + 1),
            Stage::Deploying(Work::Binding) => (
                RepositoryView { stage: Stage::Idle, serving: true, ..self },
                ActionView::Done,
            ),
            Stage::Deploying(Work::Stopping) => if outcome.success {
                RepositoryView { process: None, ..self }.start()
            } else {
                (self.at(Stage::Idle), ActionView::Abort(Fault::KillFailed))
            },
            Stage::Deploying(Work::Starting) => match outcome.process {
                Some(process) if outcome.success => (
                    RepositoryView { stage: Stage::Idle, process: Some(process), ..self },
                    ActionView::Done,
                ),
                _ => (self.at(Stage::Idle), ActionView::Abort(Fault::SpawnFailed)),
            },
            Stage::Initializing(_) | Stage::Idle => (self, ActionView::Nothing),
        }
    }
}

/// The consistency of a target with itself: the stage agrees with the recipe
/// and with what is known of the server and the process.
pub open spec fn well_formed(s: RepositoryView) -> bool {
    &&& s.name == repository_name_of(s.recipe.repository_url)
    &&& s.path == repository_path(s.name)
    &&& s.recipe.steps().len() <= usize::MAX
    &&& s.stage matches Stage::Deploying(Work::Building(i)) ==> i < s.recipe.steps().len()
    &&& s.stage == Stage::Deploying(Work::Binding) ==> s.recipe.mode() is Host && !s.serving
    &&& s.stage == Stage::Deploying(Work::Stopping) ==> s.recipe.mode() is Run && s.process is Some
    &&& s.stage == Stage::Deploying(Work::Starting) ==> s.recipe.mode() is Run && s.process is None
    &&& s.serving ==> s.recipe.mode() is Host
    &&& s.process is Some ==> s.recipe.mode() is Run
}

/// Whether a target is being initialised.
pub open spec fn is_initializing(s: RepositoryView) -> bool {
    s.stage is Initializing
}

/// Whether a deployment of the target is under way.
pub open spec fn is_deploying(s: RepositoryView) -> bool {
    s.stage is Deploying
}

/// Whether `action` asks the caller for work and for a report on it.
pub open spec fn is_work(action: ActionView) -> bool {
    !(action == ActionView::Done || action is Abort || action == ActionView::Nothing)
}

/// The action a target waits on, as its stage tells it; `Nothing` at rest.
pub open spec fn pending(s: RepositoryView) -> ActionView {
    match s.stage {
        Stage::Initializing(Setup::Cloning) => ActionView::Clone {
            url: s.recipe.repository_url,
            path: s.path,
        },
        Stage::Initializing(Setup::Switching) => ActionView::Checkout {
            branch: s.recipe.branch,
            path: s.path,
        },
        Stage::Deploying(Work::Pulling) => ActionView::Pull {
            command: pull_command(),
            dir: s.path,
        },
        Stage::Deploying(Work::Building(i)) => ActionView::Build {
            command: s.recipe.steps()[i as int],
            dir: s.context_dir,
        },
        Stage::Deploying(Work::Binding) => match s.recipe.mode() {
            ModeView::Host(host) => ActionView::Serve {
                port: host.port,
                directory: static_files_path(s.context_dir, host.path),
            },
            _ => ActionView::Nothing,
        },
        Stage::Deploying(Work::Stopping) => match s.process {
            Some(process) => ActionView::Kill { process },
            None => ActionView::Nothing,
        },
        Stage::Deploying(Work::Starting) => match s.recipe.mode() {
            ModeView::Run(command) => ActionView::Spawn { command, dir: s.path },
            _ => ActionView::Nothing,
        },
        Stage::Initializing(_) | Stage::Idle => ActionView::Nothing,
    }
}

/// What the caller can bring to a target.
pub enum Input {
    /// The request to start the initialisation.
    Initialize,
    /// A webhook that names the target, with the directory the agent runs in.
    Webhook(Seq<char>),
    /// The outcome of the action handed out last.
    Report(Outcome),
}

impl RepositoryView {
    /// The target's answer to one input.
    pub open spec fn react(self, input: Input) -> (RepositoryView, ActionView) {
        match input {
            Input::Initialize => self.initialize(),
            Input::Webhook(current_dir) => self.deploy(current_dir),
            Input::Report(outcome) => self.advance(outcome),
        }
    }
}

/// One deployment target and what is known of its working copy, its server
/// and its process.
#[derive(Debug)]
pub struct Repository {
    name: String,
    recipe: Recipe,
    path: String,
    context_dir: String,
    serving: bool,
    run_handle: Option<u32>,
    stage: Stage,
}

impl View for Repository {
    type V = RepositoryView;

    closed spec fn view(&self) -> RepositoryView {
        RepositoryView {
            name: self.name@,
            recipe: self.recipe@,
            path: self.path@,
            context_dir: self.context_dir@,
            serving: self.serving,
            process: self.run_handle,
            stage: self.stage,
        }
    }
}

impl Repository {
    #[verifier::type_invariant]
    pub(crate) open spec fn consistent(&self) -> bool {
        well_formed(self@)
    }

    /// A target for `recipe`, named after the last segment of its address,
    /// with nothing fetched yet.
    pub fn new(recipe: Recipe) -> (repository: Repository)
        ensures
            repository@ == RepositoryView::fresh(recipe@),
            well_formed(repository@),
    {
        proof {
            if recipe.build is Some {
                assert(recipe.build->0.deep_view().len() == recipe.build->0.len());
            }
        }
        let name = repository_name(recipe.repository_url.as_str());
        let path = joined("repos/", name.as_str());
        Repository {
            name,
            recipe,
            path,
            context_dir: String::new(),
            serving: false,
            run_handle: None,
            stage: Stage::Initializing(Setup::Created),
        }
    }

    /// The name of the repository.
    pub fn name(&self) -> (name: &String)
        ensures
            name@ == self@.name,
            well_formed(self@),
    {
        proof {
            use_type_invariant(self);
        }
        &self.name
    }

    /// The recipe the target was configured with.
    pub fn recipe(&self) -> (recipe: &Recipe)
        ensures
            recipe@ == self@.recipe,
            well_formed(self@),
    {
        proof {
            use_type_invariant(self);
        }
        &self.recipe
    }

    /// The working copy, relative to the directory the agent runs in.
    pub fn path(&self) -> (path: &String)
        ensures
            path@ == self@.path,
            well_formed(self@),
    {
        proof {
            use_type_invariant(self);
        }
        &self.path
    }

    /// Where the target stands.
    pub fn stage(&self) -> (stage: Stage)
        ensures
            stage == self@.stage,
            well_formed(self@),
    {
        proof {
            use_type_invariant(self);
        }
        self.stage
    }

    /// Whether the static-file server of this target has been started.
    pub fn is_serving(&self) -> (serving: bool)
        ensures
            serving == self@.serving,
            well_formed(self@),
    {
        proof {
            use_type_invariant(self);
        }
        self.serving
    }

    /// The process that runs the target, if one is supervised.
    pub fn run_handle(&self) -> (process: Option<u32>)
        ensures
            process == self@.process,
            well_formed(self@),
    {
        proof {
            use_type_invariant(self);
        }
        self.run_handle
    }

    /// The action the target waits on; `Nothing` where it is at rest.
    pub fn pending(&self) -> (action: Action)
        ensures
            action@ == pending(self@),
            well_formed(self@),
    {
        proof {
            use_type_invariant(self);
        }
        match self.stage {
            Stage::Initializing(Setup::Cloning) => Action::Clone {
                url: self.recipe.repository_url.clone(),
                path: self.path.clone(),
            },
            Stage::Initializing(Setup::Switching) => Action::Checkout {
                branch: self.recipe.branch.clone(),
                path: self.path.clone(),
            },
            Stage::Deploying(Work::Pulling) => {
                let mut command: Vec<String> = Vec::new();
                command.push(copy_str("git"));
                command.push(copy_str("pull"));
                assert(command.deep_view() =~= pull_command());
                Action::Pull { command, dir: self.path.clone() }
            },
            Stage::Deploying(Work::Building(i)) => match &self.recipe.build {
                Some(steps) => Action::Build {
                    command: clone_command(&steps[i]),
                    dir: self.context_dir.clone(),
                },
                None => Action::Nothing,
            },
            Stage::Deploying(Work::Binding) => match &self.recipe.host {
                Some(host) => {
                    let root = joined(self.context_dir.as_str(), "/");
                    Action::Serve {
                        port: host.port,
                        directory: joined(root.as_str(), host.path.as_str()),
                    }
                },
                None => Action::Nothing,
            },
            Stage::Deploying(Work::Stopping) => match self.run_handle {
                Some(process) => Action::Kill { process },
                None => Action::Nothing,
            },
            Stage::Deploying(Work::Starting) => match &self.recipe.run {
                Some(run) => Action::Spawn { command: clone_command(run), dir: self.path.clone() },
                None => Action::Nothing,
            },
            Stage::Initializing(_) | Stage::Idle => Action::Nothing,
        }
    }

    /// Starts the initialisation of a created target.
    pub fn initialize(&mut self) -> (action: Action)
        ensures
            final(self)@ == old(self)@.initialize().0,
            action@ == old(self)@.initialize().1,
            well_formed(old(self)@),
            well_formed(final(self)@),
    {
        proof {
            use_type_invariant(&*self);
        }
        match self.stage {
            Stage::Initializing(Setup::Created) => {
                if git_url_accepted(self.recipe.repository_url.as_str()) {
                    self.stage = Stage::Initializing(Setup::Cloning);
                    Action::Clone {
                        url: self.recipe.repository_url.clone(),
                        path: self.path.clone(),
                    }
                } else {
                    self.stage = Stage::Initializing(Setup::Abandoned(Fault::InvalidUrl));
                    Action::Abort(Fault::InvalidUrl)
                }
            },
            _ => Action::Nothing,
        }
    }

    /// Starts a deployment of an idle target. `current_dir` is the directory
    /// the agent runs in.
    pub fn deploy(&mut self, current_dir: &str) -> (action: Action)
        ensures
            final(self)@ == old(self)@.deploy(current_dir@).0,
            action@ == old(self)@.deploy(current_dir@).1,
            well_formed(old(self)@),
            well_formed(final(self)@),
    {
        proof {
            use_type_invariant(&*self);
        }
        match self.stage {
            Stage::Idle => {
                self.context_dir = get_context_dir(current_dir, self.name.as_str());
                self.stage = Stage::Deploying(Work::Pulling);
                let mut command: Vec<String> = Vec::new();
                command.push(copy_str("git"));
                command.push(copy_str("pull"));
                assert(command.deep_view() =~= pull_command());
                Action::Pull { command, dir: self.path.clone() }
            },
            _ => Action::Nothing,
        }
    }

    /// Takes the outcome of the action that was handed out last and says
    /// what is to be done next.
    pub fn advance(&mut self, outcome: Outcome) -> (action: Action)
        ensures
            final(self)@ == old(self)@.advance(outcome).0,
            action@ == old(self)@.advance(outcome).1,
            well_formed(old(self)@),
            well_formed(final(self)@),
    {
        proof {
            use_type_invariant(&*self);
        }
        match self.stage {
            Stage::Initializing(Setup::Cloning) => {
                if !outcome.success {
                    self.stage = Stage::Initializing(Setup::Abandoned(Fault::CloneFailed));
                    Action::Abort(Fault::CloneFailed)
                } else if branch_name_accepted(self.recipe.branch.as_str()) {
                    self.stage = Stage::Initializing(Setup::Switching);
                    Action::Checkout { branch: self.recipe.branch.clone(), path: self.path.clone() }
                } else {
                    self.stage = Stage::Initializing(Setup::Abandoned(Fault::InvalidBranch));
                    Action::Abort(Fault::InvalidBranch)
                }
            },
            Stage::Initializing(Setup::Switching) => {
                if outcome.success {
                    self.stage = Stage::Idle;
                    Action::Done
                } else {
                    self.stage = Stage::Initializing(Setup::Abandoned(Fault::CheckoutFailed));
                    Action::Abort(Fault::CheckoutFailed)
                }
            },
            Stage::Deploying(Work::Pulling) => self.build_from(0),
            Stage::Deploying(Work::Building(i)) => self.build_from(i + 1),
            Stage::Deploying(Work::Binding) => {
                self.stage = Stage::Idle;
                self.serving = true;
                Action::Done
            },
            Stage::Deploying(Work::Stopping) => {
                self.stage = Stage::Idle;
                if outcome.success {
                    self.run_handle = None;
                    self.start()
                } else {
                    Action::Abort(Fault::KillFailed)
                }
            },
            Stage::Deploying(Work::Starting) => {
                self.stage = Stage::Idle;
                if !outcome.success {
                    Action::Abort(Fault::SpawnFailed)
                } else if let Some(process) = outcome.process {
                    self.run_handle = Some(process);
                    Action::Done
                } else {
                    Action::Abort(Fault::SpawnFailed)
                }
            },
            Stage::Initializing(_) | Stage::Idle => Action::Nothing,
        }
    }

    /// Hands out the build step `i`, or puts the target to work past the
    /// last step.
    fn build_from(&mut self, i: usize) -> (action: Action)
        ensures
            final(self)@ == old(self)@.build_from(i as int).0,
            action@ == old(self)@.build_from(i as int).1,
            well_formed(final(self)@),
    {
        proof {
            use_type_invariant(&*self);
        }
        match &self.recipe.build {
            Some(steps) if i < steps.len() => {
                let command = clone_command(&steps[i]);
                self.stage = Stage::Deploying(Work::Building(i));
                Action::Build { command, dir: self.context_dir.clone() }
            },
            _ => self.settle(),
        }
    }

    /// Puts the built target to work, as its mode asks.
    fn settle(&mut self) -> (action: Action)
        ensures
            final(self)@ == old(self)@.settle().0,
            action@ == old(self)@.settle().1,
            well_formed(final(self)@),
    {
        proof {
            use_type_invariant(&*self);
        }
        match &self.recipe.host {
            Some(host) => {
                if self.serving {
                    self.stage = Stage::Idle;
                    Action::Done
                } else {
                    let root = joined(self.context_dir.as_str(), "/");
                    let directory = joined(root.as_str(), host.path.as_str());
                    let port = host.port;
                    self.stage = Stage::Deploying(Work::Binding);
                    Action::Serve { port, directory }
                }
            },
            None => match self.run_handle {
                Some(process) => {
                    self.stage = Stage::Deploying(Work::Stopping);
                    Action::Kill { process }
                },
                None => self.start(),
            },
        }
    }

    /// Hands out the spawn of the run command.
    fn start(&mut self) -> (action: Action)
        requires
            old(self)@.process is None,
            old(self)@.recipe.host is None,
        ensures
            final(self)@ == old(self)@.start().0,
            action@ == old(self)@.start().1,
            well_formed(final(self)@),
    {
        proof {
            use_type_invariant(&*self);
        }
        match &self.recipe.run {
            Some(run) => {
                let command = clone_command(run);
                self.stage = Stage::Deploying(Work::Starting);
                Action::Spawn { command, dir: self.path.clone() }
            },
            None => {
                self.stage = Stage::Idle;
                Action::Abort(Fault::MissingMode)
            },
        }
    }
}

} // verus!
