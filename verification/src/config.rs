//! Deployment recipes as they come out of the configuration file.

use vstd::prelude::*;

verus! {

/// Where and what to serve when a target is deployed as static files.
#[derive(Debug)]
pub struct HostSettings {
    pub port: u16,
    pub path: String,
}

/// Mathematical model of [`HostSettings`].
pub struct HostSettingsView {
    pub port: u16,
    pub path: Seq<char>,
}

impl View for HostSettings {
    type V = HostSettingsView;

    open spec fn view(&self) -> HostSettingsView {
        HostSettingsView { port: self.port, path: self.path@ }
    }
}

impl Clone for HostSettings {
    fn clone(&self) -> (res: Self)
        ensures
            res@ == self@,
    {
        HostSettings { port: self.port, path: self.path.clone() }
    }
}

/// One deployable unit: where its source lives, how it is built, and how the
/// result is put to work.
#[derive(Debug)]
pub struct Recipe {
    pub repository_url: String,
    pub branch: String,
    pub build: Option<Vec<Vec<String>>>,
    pub run: Option<Vec<String>>,
    pub host: Option<HostSettings>,
}

/// How a deployed target is put to work.
pub enum ModeView {
    /// Its artifacts are served as static files.
    Host(HostSettingsView),
    /// A long-lived process is started from this command.
    Run(Seq<Seq<char>>),
    /// The recipe names neither.
    Unset,
}

/// Mathematical model of [`Recipe`].
pub struct RecipeView {
    pub repository_url: Seq<char>,
    pub branch: Seq<char>,
    pub build: Option<Seq<Seq<Seq<char>>>>,
    pub run: Option<Seq<Seq<char>>>,
    pub host: Option<HostSettingsView>,
}

impl RecipeView {
    /// The build steps in the order in which they run; none where the recipe
    /// has no build section.
    pub open spec fn steps(self) -> Seq<Seq<Seq<char>>> {
        match self.build {
            Some(steps) => steps,
            None => Seq::empty(),
        }
    }

    /// The mode of the target. Host settings take precedence over a run
    /// command where a recipe carries both.
    pub open spec fn mode(self) -> ModeView {
        match (self.host, self.run) {
            (Some(host), _) => ModeView::Host(host),
            (None, Some(command)) => ModeView::Run(command),
            (None, None) => ModeView::Unset,
        }
    }
}

impl View for Recipe {
    type V = RecipeView;

    open spec fn view(&self) -> RecipeView {
        RecipeView {
            repository_url: self.repository_url@,
            branch: self.branch@,
            build: match self.build {
                Some(steps) => Some(steps.deep_view()),
                None => None,
            },
            run: match self.run {
                Some(command) => Some(command.deep_view()),
                None => None,
            },
            host: match self.host {
                Some(host) => Some(host@),
                None => None,
            },
        }
    }
}

/// A copy of a command line.
pub fn clone_command(command: &Vec<String>) -> (res: Vec<String>)
    ensures
        res.deep_view() == command.deep_view(),
{
    command.clone()
}

/// A copy of a list of command lines.
pub fn clone_steps(steps: &Vec<Vec<String>>) -> (res: Vec<Vec<String>>)
    ensures
        res.deep_view() == steps.deep_view(),
{
    let mut res: Vec<Vec<String>> = Vec::new();
    let mut i: usize = 0;
    while i < steps.len()
        invariant
            i <= steps.len(),
            res.len() == i,
            forall|j: int| 0 <= j < i ==> res[j].deep_view() == steps[j].deep_view(),
        decreases steps.len() - i,
    {
        res.push(clone_command(&steps[i]));
        i = i + 1;
    }
    assert(res.deep_view() =~= steps.deep_view());
    res
}

impl Clone for Recipe {
    fn clone(&self) -> (res: Self)
        ensures
            res@ == self@,
    {
        Recipe {
            repository_url: self.repository_url.clone(),
            branch: self.branch.clone(),
            build: match &self.build {
                Some(steps) => Some(clone_steps(steps)),
                None => None,
            },
            run: match &self.run {
                Some(command) => Some(clone_command(command)),
                None => None,
            },
            host: match &self.host {
                Some(host) => Some(host.clone()),
                None => None,
            },
        }
    }
}

/// The recipes of one configuration file, in the order in which it lists them.
#[derive(Debug)]
pub struct Recipes {
    pub recipes: Vec<Recipe>,
}

impl View for Recipes {
    type V = Seq<RecipeView>;

    open spec fn view(&self) -> Seq<RecipeView> {
        Seq::new(self.recipes@.len(), |i: int| self.recipes@[i]@)
    }
}

impl Clone for Recipes {
    fn clone(&self) -> (res: Self)
        ensures
            res@ == self@,
    {
        let mut recipes: Vec<Recipe> = Vec::new();
        let mut i: usize = 0;
        while i < self.recipes.len()
            invariant
                i <= self.recipes.len(),
                recipes.len() == i,
                forall|j: int| 0 <= j < i ==> recipes[j]@ == self.recipes[j]@,
            decreases self.recipes.len() - i,
        {
            recipes.push(self.recipes[i].clone());
            i = i + 1;
        }
        let res = Recipes { recipes };
        assert(res@ =~= self@);
        res
    }
}

} // verus!
