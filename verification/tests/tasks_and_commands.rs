use lox::commands::{build_plan, dash_plan, dev_plan, doctor_toml_content, needs_build_first,
    run_command_unknown, run_plan, split_command, tool_version_from_output, BuildPlan, DashPlan,
    DevPlan, RunPlan};
use lox::project::{BuildCommands, Project, RunCommands};
use lox::tasks::{create_cargo_build_task, flang_build_next, flang_build_start,
    flang_compile_command, flang_link_command, install_uv_decision, missing_task_message,
    task_start_message, FlangBuildStep, InstallAction, TaskAction, TaskRegistry};

fn rust_project() -> Project {
    Project {
        project_type: "app(bin)".to_string(),
        name: "demo".to_string(),
        version: "1.0.0".to_string(),
        is_library: false,
        build_commands: BuildCommands {
            dev: "cargo build".to_string(),
            release: "cargo build --release".to_string(),
        },
        run_commands: RunCommands {
            dev: "./target/debug/demo".to_string(),
            release: "./target/release/demo".to_string(),
        },
        is_rust_project: true,
        is_uv_project: false,
        is_fortran_project: false,
    }
}

fn uv_project() -> Project {
    let mut p = rust_project();
    p.project_type = "uv".to_string();
    p.is_rust_project = false;
    p.is_uv_project = true;
    p.build_commands.dev = "uv build".to_string();
    p.run_commands.release = "uv run main.py".to_string();
    p
}

fn fortran_project() -> Project {
    let mut p = rust_project();
    p.project_type = "llvm-f".to_string();
    p.is_rust_project = false;
    p.is_fortran_project = true;
    p.build_commands.dev = "mkdir -p target/dev && flang -g -o target/dev/m.out m.f90".to_string();
    p.run_commands.dev = "./target/dev/m.out".to_string();
    p
}

#[test]
fn registry_resolves_each_known_id() {
    let registry = TaskRegistry::new();
    let ids = [
        "uv_lock",
        "uv_run",
        "uv_build",
        "uv_ruff_check",
        "uv_ruff_format",
        "cargo_update",
        "cargo_fmt",
        "cargo_check",
        "cargo_build",
        "cargo_build_release",
        "flang_build_dev",
        "flang_build_release",
        "fpm_build_release",
    ];
    for id in ids {
        let task = registry.get_task_by_id(id).expect(id);
        assert_eq!(task.id(), id);
    }
}

#[test]
fn registry_rejects_unknown_id() {
    let registry = TaskRegistry::new();
    assert!(registry.get_task_by_id("no_such_task").is_none());
}

#[test]
fn task_names_and_actions_match_catalog() {
    let registry = TaskRegistry::new();
    let t = registry.get_task_by_id("cargo_build_release").unwrap();
    assert_eq!(t.name(), "cargo build --release");
    match t.action() {
        TaskAction::Spawn(prog, args) => {
            assert_eq!(prog, "cargo");
            assert_eq!(args, &vec!["build".to_string(), "--release".to_string()]);
        },
        _ => panic!("cargo_build_release must spawn cargo"),
    }
    let u = registry.get_task_by_id("uv_lock").unwrap();
    assert_eq!(u.name(), "uv lock");
    match u.action() {
        TaskAction::Uv(args) => assert_eq!(args, &vec!["lock".to_string()]),
        _ => panic!("uv_lock must run uv"),
    }
}

#[test]
fn task_messages_are_exact() {
    let t = create_cargo_build_task();
    assert_eq!(t.get_result_message(true), "  - Task | cargo build | Done.");
    assert_eq!(t.get_result_message(false), "  - Task | cargo build | Failed.");
    assert_eq!(task_start_message("cargo build"), "  - Task | cargo build | ");
    assert_eq!(
        missing_task_message("oops"),
        "Error: Task with ID 'oops' not found"
    );
}

#[test]
fn install_decision_consent_and_platforms() {
    match install_uv_decision("", "linux") {
        InstallAction::ShellScript(prog, args) => {
            assert_eq!(prog, "sh");
            assert_eq!(
                args,
                vec![
                    "-c".to_string(),
                    "curl -LsSf https://astral.sh/uv/install.sh | sh".to_string()
                ]
            );
        },
        _ => panic!("an empty answer consents"),
    }
    match install_uv_decision("  YES  ", "windows") {
        InstallAction::ShellScript(prog, args) => {
            assert_eq!(prog, "powershell");
            assert_eq!(args.len(), 4);
            assert_eq!(args[0], "-ExecutionPolicy");
            assert_eq!(args[3], "irm https://astral.sh/uv/install.ps1 | iex");
        },
        _ => panic!("yes consents on windows"),
    }
    assert!(matches!(
        install_uv_decision("n", "linux"),
        InstallAction::Canceled
    ));
    assert!(matches!(
        install_uv_decision("y", "freebsd"),
        InstallAction::Unsupported
    ));
}

#[test]
fn flang_compile_command_is_exact() {
    assert_eq!(
        flang_compile_command("a.f90", false),
        vec![
            "flang".to_string(),
            "-g".to_string(),
            "-c".to_string(),
            "a.f90".to_string(),
            "-o".to_string(),
            "./target/dev/a.o".to_string()
        ]
    );
    assert_eq!(
        flang_compile_command("b.f", true),
        vec![
            "flang".to_string(),
            "-O3".to_string(),
            "-c".to_string(),
            "b.f".to_string(),
            "-o".to_string(),
            "./target/release/b.o".to_string()
        ]
    );
}

#[test]
fn flang_link_command_is_exact() {
    let objects = vec!["./target/dev/a.o".to_string(), "./target/dev/b.o".to_string()];
    assert_eq!(
        flang_link_command(&objects, "main", false),
        vec![
            "flang".to_string(),
            "-g".to_string(),
            "./target/dev/a.o".to_string(),
            "./target/dev/b.o".to_string(),
            "-o".to_string(),
            "./target/dev/main.out".to_string()
        ]
    );
}

#[test]
fn split_command_separates_program_and_arguments() {
    let (prog, args) = split_command("./target/release/demo --fast  now").unwrap();
    assert_eq!(prog, "./target/release/demo");
    assert_eq!(args, vec!["--fast".to_string(), "now".to_string()]);
    let (prog2, args2) = split_command("uv run main.py").unwrap();
    assert_eq!(prog2, "uv");
    assert_eq!(args2, vec!["run".to_string(), "main.py".to_string()]);
    assert!(split_command("   ").is_none());
    assert!(split_command("").is_none());
}

#[test]
fn tool_version_is_second_token() {
    assert_eq!(tool_version_from_output("rustc 1.81.0 (abc 2024)"), "1.81.0");
    assert_eq!(tool_version_from_output("cargo 1.81.0"), "1.81.0");
    assert_eq!(tool_version_from_output("rustc"), "unknown");
    assert_eq!(tool_version_from_output(""), "unknown");
}

#[test]
fn dev_plan_by_project_kind() {
    match dev_plan(&rust_project()) {
        DevPlan::RustTasks(ids) => assert_eq!(
            ids,
            vec![
                "cargo_update".to_string(),
                "cargo_fmt".to_string(),
                "cargo_check".to_string(),
                "cargo_build".to_string()
            ]
        ),
        _ => panic!("rust project runs the cargo dev tasks"),
    }
    assert!(matches!(dev_plan(&uv_project()), DevPlan::UvUnsupported));
    match dev_plan(&fortran_project()) {
        DevPlan::FortranShell(cmd) => {
            assert_eq!(cmd, "mkdir -p target/dev && flang -g -o target/dev/m.out m.f90")
        },
        _ => panic!("fortran project builds through the shell"),
    }
}

#[test]
fn build_plan_by_project_kind() {
    match build_plan(&rust_project()) {
        BuildPlan::RustTasks(ids) => assert_eq!(ids[3], "cargo_build_release"),
        _ => panic!("rust project runs the cargo release tasks"),
    }
    match build_plan(&uv_project()) {
        BuildPlan::UvTasks(ids) => assert_eq!(
            ids,
            vec![
                "uv_lock".to_string(),
                "uv_ruff_check".to_string(),
                "uv_ruff_format".to_string(),
                "uv_build".to_string()
            ]
        ),
        _ => panic!("uv project runs the uv tasks"),
    }
    let mut unknown = rust_project();
    unknown.is_rust_project = false;
    assert!(matches!(build_plan(&unknown), BuildPlan::Unknown));
}

#[test]
fn dash_and_run_plans() {
    match dash_plan(&rust_project()) {
        DashPlan::RunBinary(cmd) => assert_eq!(cmd, "./target/debug/demo"),
        _ => panic!("a binary project runs its dev binary"),
    }
    let mut lib = rust_project();
    lib.is_library = true;
    assert!(matches!(dash_plan(&lib), DashPlan::LibraryNoBinary));
    assert!(matches!(dash_plan(&uv_project()), DashPlan::UvUnsupported));
    match run_plan(&rust_project()) {
        RunPlan::RunBinary { command, uv_lock_first } => {
            assert_eq!(command, "./target/release/demo");
            assert!(!uv_lock_first);
        },
        _ => panic!("a binary project runs its release binary"),
    }
    match run_plan(&uv_project()) {
        RunPlan::RunBinary { command, uv_lock_first } => {
            assert_eq!(command, "uv run main.py");
            assert!(uv_lock_first);
        },
        _ => panic!("a uv project locks and runs"),
    }
}

#[test]
fn build_first_when_target_or_binary_missing() {
    let p = rust_project();
    assert!(needs_build_first(&p, false, false));
    assert!(needs_build_first(&p, true, false));
    assert!(!needs_build_first(&p, true, true));
    assert!(!needs_build_first(&uv_project(), false, false));
}

#[test]
fn run_command_unknown_checks_both() {
    let mut p = rust_project();
    assert!(!run_command_unknown(&p));
    p.run_commands.dev = "unknown".to_string();
    assert!(run_command_unknown(&p));
}

#[test]
fn doctor_content_for_rust_project() {
    let text = doctor_toml_content(&rust_project(), "1.81.0", "1.81.0", "unknown", "linux",
        "x86_64");
    let expected = "[project]\ntype = \"app(bin)\"\nname = \"demo\"\nversion = \"1.0.0\"\n\n\
[project.build]\ndev = \"cargo build\"\nrelease = \"cargo build --release\"\n\n\
[project.run]\ndev = \"./target/debug/demo\"\nrelease = \"./target/release/demo\"\n\n\
[project.commands]\nfmt = \"cargo fmt\"\nlint = \"cargo check\"\ndependency = \"cargo update\"\n\n\
[environment]\nos = \"Linux\"\narch = \"x86_64\"\nrustc_version = \"1.81.0\"\ncargo_version = \"1.81.0\"\n";
    assert_eq!(text, expected);
}

#[test]
fn doctor_content_for_unknown_project() {
    let mut p = rust_project();
    p.is_rust_project = false;
    p.project_type = "unknown".to_string();
    let text = doctor_toml_content(&p, "unknown", "unknown", "unknown", "plan9", "arm");
    assert!(text.contains("fmt = \"unknown\""));
    assert!(text.contains("os = \"plan9\""));
    assert!(!text.contains("[project.run]"));
}

/// Drives the build machine over fixed step outcomes, as the runner does,
/// and reports which files were compiled and the task's result.
fn drive_flang_build(
    order_len: usize,
    compile_ok: &[bool],
    objects_exist: bool,
    link_ok: bool,
) -> (Vec<usize>, bool) {
    let mut compiled = Vec::new();
    let mut state = flang_build_start(order_len);
    loop {
        state = match state {
            FlangBuildStep::Compile(i) => {
                compiled.push(i);
                flang_build_next(order_len, &state, compile_ok[i])
            },
            FlangBuildStep::CheckObjects => flang_build_next(order_len, &state, objects_exist),
            FlangBuildStep::Link => flang_build_next(order_len, &state, link_ok),
            FlangBuildStep::Finished(success) => return (compiled, success),
        };
    }
}

#[test]
fn flang_build_machine_transitions() {
    assert_eq!(flang_build_start(0), FlangBuildStep::CheckObjects);
    assert_eq!(flang_build_start(3), FlangBuildStep::Compile(0));
    assert_eq!(
        flang_build_next(3, &FlangBuildStep::Compile(0), true),
        FlangBuildStep::Compile(1)
    );
    assert_eq!(
        flang_build_next(3, &FlangBuildStep::Compile(2), true),
        FlangBuildStep::CheckObjects
    );
    assert_eq!(
        flang_build_next(3, &FlangBuildStep::Compile(1), false),
        FlangBuildStep::Finished(false)
    );
    assert_eq!(
        flang_build_next(3, &FlangBuildStep::CheckObjects, true),
        FlangBuildStep::Link
    );
    assert_eq!(
        flang_build_next(3, &FlangBuildStep::CheckObjects, false),
        FlangBuildStep::Finished(true)
    );
    assert_eq!(
        flang_build_next(3, &FlangBuildStep::Link, false),
        FlangBuildStep::Finished(false)
    );
    assert_eq!(
        flang_build_next(3, &FlangBuildStep::Finished(true), false),
        FlangBuildStep::Finished(true)
    );
}

#[test]
fn flang_build_aborts_on_first_failing_compile() {
    // the second compile fails: it runs, the third is skipped, the task fails
    let (compiled, success) = drive_flang_build(3, &[true, false, true], true, true);
    assert_eq!(compiled, vec![0, 1]);
    assert!(!success);
}

#[test]
fn flang_build_links_only_when_an_object_exists() {
    // all compiles succeed, an object exists: the link's status is the result
    let (compiled, success) = drive_flang_build(2, &[true, true], true, false);
    assert_eq!(compiled, vec![0, 1]);
    assert!(!success);
    let (compiled2, success2) = drive_flang_build(2, &[true, true], true, true);
    assert_eq!(compiled2, vec![0, 1]);
    assert!(success2);
}

#[test]
fn flang_build_succeeds_with_nothing_to_link() {
    // no object file: the link never runs and the task succeeds
    let (compiled, success) = drive_flang_build(2, &[true, true], false, false);
    assert_eq!(compiled, vec![0, 1]);
    assert!(success);
    // no files at all: straight to success
    let (compiled2, success2) = drive_flang_build(0, &[], false, false);
    assert!(compiled2.is_empty());
    assert!(success2);
}
