use cmake_runner::action::Action;
use cmake_runner::display::banner_string;
use cmake_runner::project::Project;

fn sample_project() -> Project {
    Project { target: String::from("app1"), file_name: String::from("app1_bin") }
}

#[test]
fn action_names() {
    assert_eq!(Action::Run.to_str(), "Run");
    assert_eq!(Action::Build.to_str(), "Build");
    assert_eq!(Action::Debug.to_str(), "Debug");
}

#[test]
fn build_plan_invokes_the_build_tool() {
    let plan = Action::Build.plan(&sample_project());
    assert_eq!(plan.len(), 1);
    assert_eq!(plan[0].program, "cmake");
    assert_eq!(plan[0].args, vec!["--build", "build", "-t", "app1"]);
    assert_eq!(plan[0].label, "Build");
    assert!(!plan[0].interactive);
}

#[test]
fn run_plan_builds_then_starts_the_binary() {
    let plan = Action::Run.plan(&sample_project());
    assert_eq!(plan.len(), 2);
    assert_eq!(plan[0].program, "cmake");
    assert_eq!(plan[1].program, "build/app1_bin");
    assert!(plan[1].args.is_empty());
    assert_eq!(plan[1].label, "Run");
    assert!(plan[1].interactive);
}

#[test]
fn debug_plan_builds_then_starts_the_debugger() {
    let plan = Action::Debug.plan(&sample_project());
    assert_eq!(plan.len(), 2);
    assert_eq!(plan[0].program, "cmake");
    assert_eq!(plan[1].program, "lldb");
    assert_eq!(plan[1].args, vec!["build/app1_bin"]);
    assert_eq!(plan[1].label, "Run");
    assert!(plan[1].interactive);
}

#[test]
fn banner_strings_are_exact() {
    assert_eq!(banner_string("Build", true), "=== Build finished");
    assert_eq!(banner_string("Build", false), "=== Build failed");
    assert_eq!(banner_string("Run", true), "=== Run finished");
    assert_eq!(banner_string("Run", false), "=== Run failed");
}

#[test]
fn project_from_pair_splits_on_the_separator() {
    let p = Project::from_pair("app1;;;app1_bin").unwrap();
    assert_eq!(p.target, "app1");
    assert_eq!(p.file_name, "app1_bin");

    let p = Project::from_pair("key;;;value;;;rest").unwrap();
    assert_eq!(p.target, "key");
    assert_eq!(p.file_name, "value");

    let p = Project::from_pair("only;;;").unwrap();
    assert_eq!(p.target, "only");
    assert_eq!(p.file_name, "");

    assert!(Project::from_pair("no separator").is_none());
}
