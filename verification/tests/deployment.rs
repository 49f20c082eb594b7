use bull::config::{HostSettings, Recipe};
use bull::repository::{
    get_context_dir, Action, Fault, Outcome, Repository, Setup, Stage, Work,
};

fn words(items: &[&str]) -> Vec<String> {
    items.iter().map(|s| s.to_string()).collect()
}

fn ok() -> Outcome {
    Outcome { success: true, process: None }
}

fn failed() -> Outcome {
    Outcome { success: false, process: None }
}

fn started(process: u32) -> Outcome {
    Outcome { success: true, process: Some(process) }
}

fn host_recipe() -> Recipe {
    Recipe {
        repository_url: "https://example.com/team/app.git".to_string(),
        branch: "main".to_string(),
        build: Some(vec![words(&["make"])]),
        run: None,
        host: Some(HostSettings { port: 8080, path: "dist".to_string() }),
    }
}

fn run_recipe(build: Option<Vec<Vec<String>>>) -> Recipe {
    Recipe {
        repository_url: "https://example.com/team/service.git".to_string(),
        branch: "main".to_string(),
        build,
        run: Some(words(&["./service", "--port", "9000"])),
        host: None,
    }
}

fn idle(recipe: Recipe) -> Repository {
    let mut repository = Repository::new(recipe);
    assert!(matches!(repository.initialize(), Action::Clone { .. }));
    assert!(matches!(repository.advance(ok()), Action::Checkout { .. }));
    assert_eq!(repository.advance(ok()), Action::Done);
    assert_eq!(repository.stage(), Stage::Idle);
    repository
}

fn pull(dir: &str) -> Action {
    Action::Pull { command: words(&["git", "pull"]), dir: dir.to_string() }
}

#[test]
fn new_repository_is_named_after_its_address() {
    let repository = Repository::new(host_recipe());
    assert_eq!(repository.name(), "app");
    assert_eq!(repository.path(), "repos/app");
    assert_eq!(repository.stage(), Stage::Initializing(Setup::Created));
    assert!(!repository.is_serving());
    assert_eq!(repository.run_handle(), None);
    assert_eq!(repository.recipe().branch, "main");
}

#[test]
fn context_dir_lies_below_the_current_directory() {
    assert_eq!(get_context_dir("/srv/agent", "app"), "/srv/agent/repos/app");
    assert_eq!(get_context_dir("", ""), "/repos/");
}

#[test]
fn initialisation_clones_then_checks_out() {
    let mut repository = Repository::new(host_recipe());
    assert_eq!(
        repository.initialize(),
        Action::Clone {
            url: "https://example.com/team/app.git".to_string(),
            path: "repos/app".to_string(),
        }
    );
    assert_eq!(repository.stage(), Stage::Initializing(Setup::Cloning));
    assert_eq!(
        repository.advance(ok()),
        Action::Checkout { branch: "main".to_string(), path: "repos/app".to_string() }
    );
    assert_eq!(repository.stage(), Stage::Initializing(Setup::Switching));
    assert_eq!(repository.advance(ok()), Action::Done);
    assert_eq!(repository.stage(), Stage::Idle);
}

#[test]
fn initialisation_happens_once() {
    let mut repository = idle(host_recipe());
    assert_eq!(repository.initialize(), Action::Nothing);
    assert_eq!(repository.stage(), Stage::Idle);
}

#[test]
fn address_that_is_no_remote_fails_the_target() {
    let mut recipe = host_recipe();
    recipe.repository_url = "/path/to/app.git".to_string();
    let mut repository = Repository::new(recipe);
    assert_eq!(repository.name(), "app");
    assert_eq!(repository.initialize(), Action::Abort(Fault::InvalidUrl));
    assert_eq!(repository.stage(), Stage::Initializing(Setup::Abandoned(Fault::InvalidUrl)));
    assert_eq!(repository.deploy("/srv"), Action::Nothing);
    assert_eq!(repository.advance(ok()), Action::Nothing);
    assert_eq!(repository.initialize(), Action::Nothing);
    assert_eq!(repository.stage(), Stage::Initializing(Setup::Abandoned(Fault::InvalidUrl)));
}

#[test]
fn failed_clone_fails_the_target() {
    let mut repository = Repository::new(host_recipe());
    repository.initialize();
    assert_eq!(repository.advance(failed()), Action::Abort(Fault::CloneFailed));
    assert_eq!(repository.stage(), Stage::Initializing(Setup::Abandoned(Fault::CloneFailed)));
}

#[test]
fn branch_that_is_no_reference_name_fails_the_target() {
    let rejected = [
        "double..dot",
        "-dash",
        "dot.",
        "with space",
        "a~b",
        "a^b",
        "a:b",
        "a\\b",
        "@",
        "a@{b",
        "a/.b",
        "tab\tin",
        "del\u{7f}",
    ];
    for branch in rejected {
        let mut recipe = host_recipe();
        recipe.branch = branch.to_string();
        let mut repository = Repository::new(recipe);
        repository.initialize();
        assert_eq!(repository.advance(ok()), Action::Abort(Fault::InvalidBranch), "{}", branch);
        assert_eq!(
            repository.stage(),
            Stage::Initializing(Setup::Abandoned(Fault::InvalidBranch))
        );
    }
}

#[test]
fn unusual_branch_names_are_accepted() {
    for branch in ["", "feature/x", "v1.0", "a@b", "release-1", "ünïcode"] {
        let mut recipe = host_recipe();
        recipe.branch = branch.to_string();
        let mut repository = Repository::new(recipe);
        repository.initialize();
        assert_eq!(
            repository.advance(ok()),
            Action::Checkout { branch: branch.to_string(), path: "repos/app".to_string() }
        );
    }
}

#[test]
fn failed_checkout_fails_the_target() {
    let mut repository = Repository::new(host_recipe());
    repository.initialize();
    repository.advance(ok());
    assert_eq!(repository.advance(failed()), Action::Abort(Fault::CheckoutFailed));
    assert_eq!(
        repository.stage(),
        Stage::Initializing(Setup::Abandoned(Fault::CheckoutFailed))
    );
}

#[test]
fn deployment_needs_an_idle_target() {
    let mut repository = Repository::new(host_recipe());
    assert_eq!(repository.deploy("/srv"), Action::Nothing);
    assert_eq!(repository.stage(), Stage::Initializing(Setup::Created));
    repository.initialize();
    assert_eq!(repository.deploy("/srv"), Action::Nothing);
    assert_eq!(repository.stage(), Stage::Initializing(Setup::Cloning));
}

#[test]
fn host_mode_binds_on_first_deployment_only() {
    let mut repository = idle(host_recipe());

    assert_eq!(repository.deploy("/srv/agent"), pull("repos/app"));
    assert_eq!(repository.stage(), Stage::Deploying(Work::Pulling));
    assert_eq!(
        repository.advance(ok()),
        Action::Build { command: words(&["make"]), dir: "/srv/agent/repos/app".to_string() }
    );
    assert_eq!(repository.stage(), Stage::Deploying(Work::Building(0)));
    assert_eq!(
        repository.advance(ok()),
        Action::Serve { port: 8080, directory: "/srv/agent/repos/app/dist".to_string() }
    );
    assert_eq!(repository.stage(), Stage::Deploying(Work::Binding));
    assert!(!repository.is_serving());
    assert_eq!(repository.advance(ok()), Action::Done);
    assert_eq!(repository.stage(), Stage::Idle);
    assert!(repository.is_serving());

    assert_eq!(repository.deploy("/srv/agent"), pull("repos/app"));
    assert_eq!(
        repository.advance(ok()),
        Action::Build { command: words(&["make"]), dir: "/srv/agent/repos/app".to_string() }
    );
    assert_eq!(repository.advance(ok()), Action::Done);
    assert_eq!(repository.stage(), Stage::Idle);
    assert!(repository.is_serving());
}

#[test]
fn failed_pull_does_not_stop_the_build() {
    let mut repository = idle(host_recipe());
    repository.deploy("/srv");
    assert_eq!(
        repository.advance(failed()),
        Action::Build { command: words(&["make"]), dir: "/srv/repos/app".to_string() }
    );
}

#[test]
fn build_steps_run_in_listed_order_whatever_their_status() {
    let steps = vec![words(&["a"]), words(&["b"]), words(&["c"])];
    let mut repository = idle(run_recipe(Some(steps)));
    assert_eq!(repository.deploy("/w"), pull("repos/service"));
    let dir = "/w/repos/service".to_string();
    assert_eq!(
        repository.advance(ok()),
        Action::Build { command: words(&["a"]), dir: dir.clone() }
    );
    assert_eq!(repository.stage(), Stage::Deploying(Work::Building(0)));
    assert_eq!(
        repository.advance(failed()),
        Action::Build { command: words(&["b"]), dir: dir.clone() }
    );
    assert_eq!(repository.stage(), Stage::Deploying(Work::Building(1)));
    assert_eq!(
        repository.advance(failed()),
        Action::Build { command: words(&["c"]), dir: dir.clone() }
    );
    assert_eq!(repository.stage(), Stage::Deploying(Work::Building(2)));
    assert_eq!(
        repository.advance(failed()),
        Action::Spawn {
            command: words(&["./service", "--port", "9000"]),
            dir: "repos/service".to_string(),
        }
    );
}

#[test]
fn recipe_without_build_section_goes_straight_to_its_mode() {
    let mut repository = idle(run_recipe(None));
    repository.deploy("/w");
    assert!(matches!(repository.advance(ok()), Action::Spawn { .. }));
    let mut repository = idle(run_recipe(Some(vec![])));
    repository.deploy("/w");
    assert!(matches!(repository.advance(ok()), Action::Spawn { .. }));
}

#[test]
fn run_mode_replaces_the_process_on_every_deployment() {
    let mut repository = idle(run_recipe(None));
    let spawn = Action::Spawn {
        command: words(&["./service", "--port", "9000"]),
        dir: "repos/service".to_string(),
    };

    repository.deploy("/w");
    assert_eq!(repository.advance(ok()), spawn);
    assert_eq!(repository.stage(), Stage::Deploying(Work::Starting));
    assert_eq!(repository.advance(started(41)), Action::Done);
    assert_eq!(repository.run_handle(), Some(41));

    for round in 0..5u32 {
        repository.deploy("/w");
        assert_eq!(repository.advance(ok()), Action::Kill { process: 41 + round });
        assert_eq!(repository.stage(), Stage::Deploying(Work::Stopping));
        assert_eq!(repository.run_handle(), Some(41 + round));
        assert_eq!(repository.advance(ok()), spawn);
        assert_eq!(repository.run_handle(), None);
        assert_eq!(repository.advance(started(42 + round)), Action::Done);
        assert_eq!(repository.run_handle(), Some(42 + round));
        assert_eq!(repository.stage(), Stage::Idle);
    }
}

#[test]
fn failed_kill_keeps_the_old_process_and_starts_none() {
    let mut repository = idle(run_recipe(None));
    repository.deploy("/w");
    repository.advance(ok());
    repository.advance(started(7));
    repository.deploy("/w");
    assert_eq!(repository.advance(ok()), Action::Kill { process: 7 });
    assert_eq!(repository.advance(failed()), Action::Abort(Fault::KillFailed));
    assert_eq!(repository.run_handle(), Some(7));
    assert_eq!(repository.stage(), Stage::Idle);
    assert_eq!(repository.deploy("/w"), pull("repos/service"));
}

#[test]
fn failed_spawn_leaves_no_process() {
    let mut repository = idle(run_recipe(None));
    repository.deploy("/w");
    repository.advance(ok());
    assert_eq!(repository.advance(failed()), Action::Abort(Fault::SpawnFailed));
    assert_eq!(repository.run_handle(), None);
    assert_eq!(repository.stage(), Stage::Idle);

    repository.deploy("/w");
    repository.advance(ok());
    assert_eq!(repository.advance(ok()), Action::Abort(Fault::SpawnFailed));
    assert_eq!(repository.run_handle(), None);

    repository.deploy("/w");
    repository.advance(ok());
    let unsuccessful = Outcome { success: false, process: Some(3) };
    assert_eq!(repository.advance(unsuccessful), Action::Abort(Fault::SpawnFailed));
    assert_eq!(repository.run_handle(), None);
}

#[test]
fn recipe_without_mode_aborts_after_the_build() {
    let mut recipe = host_recipe();
    recipe.host = None;
    let mut repository = idle(recipe);
    repository.deploy("/w");
    assert!(matches!(repository.advance(ok()), Action::Build { .. }));
    assert_eq!(repository.advance(ok()), Action::Abort(Fault::MissingMode));
    assert_eq!(repository.stage(), Stage::Idle);
}

#[test]
fn host_settings_win_over_a_run_command() {
    let mut recipe = host_recipe();
    recipe.run = Some(words(&["./app"]));
    recipe.build = None;
    let mut repository = idle(recipe);
    repository.deploy("/w");
    assert_eq!(
        repository.advance(ok()),
        Action::Serve { port: 8080, directory: "/w/repos/app/dist".to_string() }
    );
}

#[test]
fn report_without_pending_action_changes_nothing() {
    let mut repository = idle(host_recipe());
    assert_eq!(repository.advance(started(9)), Action::Nothing);
    assert_eq!(repository.stage(), Stage::Idle);
    assert_eq!(repository.run_handle(), None);
}

#[test]
fn recipe_clone_keeps_every_field() {
    let recipe = run_recipe(Some(vec![words(&["a", "b"]), words(&[])]));
    let copy = recipe.clone();
    assert_eq!(copy.repository_url, recipe.repository_url);
    assert_eq!(copy.branch, recipe.branch);
    assert_eq!(copy.build, recipe.build);
    assert_eq!(copy.run, recipe.run);
    assert!(copy.host.is_none());
    let host = host_recipe().clone().host.unwrap();
    assert_eq!(host.port, 8080);
    assert_eq!(host.path, "dist");
}

#[test]
fn pending_action_follows_the_stage() {
    let mut repository = Repository::new(host_recipe());
    assert_eq!(repository.pending(), Action::Nothing);
    let clone = repository.initialize();
    assert_eq!(repository.pending(), clone);
    let checkout = repository.advance(ok());
    assert_eq!(repository.pending(), checkout);
    repository.advance(ok());
    assert_eq!(repository.pending(), Action::Nothing);
    let pull = repository.deploy("/srv");
    assert_eq!(repository.pending(), pull);
    let build = repository.advance(ok());
    assert_eq!(
        build,
        Action::Build { command: words(&["make"]), dir: "/srv/repos/app".to_string() }
    );
    assert_eq!(repository.pending(), build);
    let serve = repository.advance(ok());
    assert_eq!(
        serve,
        Action::Serve { port: 8080, directory: "/srv/repos/app/dist".to_string() }
    );
    assert_eq!(repository.pending(), serve);
    repository.advance(ok());
    assert_eq!(repository.pending(), Action::Nothing);

    let mut repository = idle(run_recipe(None));
    repository.deploy("/w");
    let spawn = repository.advance(ok());
    assert_eq!(repository.pending(), spawn);
    repository.advance(started(5));
    repository.deploy("/w");
    let kill = repository.advance(ok());
    assert_eq!(kill, Action::Kill { process: 5 });
    assert_eq!(repository.pending(), kill);
}
