use lox::detect::{get_or_create_project, Workspace};
use lox::project::{read_project_from_toml, write_project_to_toml, BuildCommands, Project,
    RunCommands};

fn sample_project() -> Project {
    Project {
        project_type: "app(bin)".to_string(),
        name: "demo".to_string(),
        version: "1.0.0".to_string(),
        is_library: false,
        build_commands: BuildCommands {
            dev: "cargo build".to_string(),
            release: "cargo build --release".to_string(),
        },
        run_commands: RunCommands {
            dev: "./target/debug/demo".to_string(),
            release: "./target/release/demo".to_string(),
        },
        is_rust_project: true,
        is_uv_project: false,
        is_fortran_project: false,
    }
}

fn empty_workspace() -> Workspace {
    Workspace {
        has_cargo_toml: false,
        cargo_toml: None,
        has_pyproject_toml: false,
        pyproject_toml: None,
        has_fpm_toml: false,
        fpm_toml: None,
        fortran_sources: Vec::new(),
        has_main_rs: false,
        has_lib_rs: false,
    }
}

#[test]
fn render_produces_exact_toml_text() {
    let text = write_project_to_toml(&sample_project());
    let expected = "[project]\ntype = \"app(bin)\"\nname = \"demo\"\nversion = \"1.0.0\"\n\n\
[project.build]\ndev = \"cargo build\"\nrelease = \"cargo build --release\"\n\n\
[project.run]\ndev = \"./target/debug/demo\"\nrelease = \"./target/release/demo\"\n";
    assert_eq!(text, expected);
}

#[test]
fn write_then_read_round_trips() {
    let p = sample_project();
    let text = write_project_to_toml(&p);
    let q = read_project_from_toml(&text);
    assert_eq!(q.project_type, p.project_type);
    assert_eq!(q.name, p.name);
    assert_eq!(q.version, p.version);
    assert_eq!(q.build_commands.dev, p.build_commands.dev);
    assert_eq!(q.build_commands.release, p.build_commands.release);
    assert_eq!(q.run_commands.dev, p.run_commands.dev);
    assert_eq!(q.run_commands.release, p.run_commands.release);
    assert!(q.is_rust_project);
    assert!(!q.is_library);
}

#[test]
fn write_twice_is_idempotent() {
    let p = sample_project();
    let first = write_project_to_toml(&p);
    let reread = read_project_from_toml(&first);
    let second = write_project_to_toml(&reread);
    assert_eq!(first, second);
}

#[test]
fn parse_ignores_unknown_sections_and_keys() {
    let text = "# a comment\n[weird]\nshape = \"round\"\n\n[project]\ntype = \"uv\"\n\
name = \"x\"\nextra = \"ignored\"\n";
    let p = read_project_from_toml(text);
    assert_eq!(p.project_type, "uv");
    assert_eq!(p.name, "x");
    assert_eq!(p.version, "unknown");
    assert!(p.is_uv_project);
    assert!(!p.is_rust_project);
}

#[test]
fn parse_empty_text_yields_unknowns() {
    let p = read_project_from_toml("");
    assert_eq!(p.project_type, "unknown");
    assert_eq!(p.name, "unknown");
    assert_eq!(p.version, "unknown");
    assert_eq!(p.build_commands.dev, "unknown");
    assert_eq!(p.run_commands.release, "unknown");
    assert!(!p.is_rust_project && !p.is_uv_project && !p.is_fortran_project);
}

#[test]
fn parse_derives_flags_from_type() {
    let lib = read_project_from_toml("[project]\ntype = \"library(lib)\"\n");
    assert!(lib.is_library);
    assert!(lib.is_rust_project);
    let fpm = read_project_from_toml("[project]\ntype = \"fpm\"\n");
    assert!(fpm.is_fortran_project);
    let llvmf = read_project_from_toml("[project]\ntype = \"llvm-f\"\n");
    assert!(llvmf.is_fortran_project);
}

#[test]
fn parse_trims_indentation_and_quotes() {
    let text = "  [project]  \n   type = \"uv\"   \n";
    let p = read_project_from_toml(text);
    assert_eq!(p.project_type, "uv");
    assert!(p.is_uv_project);
}

#[test]
fn fresh_detection_persists_cache() {
    let mut ws = empty_workspace();
    ws.has_pyproject_toml = true;
    ws.pyproject_toml = Some("name = \"bar\"\nversion = \"2.0.0\"\n".to_string());
    let (p, write) = get_or_create_project(&None, &ws);
    assert!(p.is_uv_project);
    let text = write.expect("a fresh detection must be persisted");
    assert_eq!(text, write_project_to_toml(&p));
}

#[test]
fn good_cache_is_used_without_rewrite() {
    let cached = write_project_to_toml(&sample_project());
    let (p, write) = get_or_create_project(&Some(cached), &empty_workspace());
    assert_eq!(p.name, "demo");
    assert_eq!(p.run_commands.dev, "./target/debug/demo");
    assert!(write.is_none());
}

#[test]
fn unknown_run_commands_refresh_only_run_commands() {
    let cached = "[project]\ntype = \"app(bin)\"\nname = \"foo\"\nversion = \"1.2.3\"\n\n\
[project.build]\ndev = \"custom dev build\"\nrelease = \"custom release build\"\n\n\
[project.run]\ndev = \"unknown\"\nrelease = \"unknown\"\n";
    let mut ws = empty_workspace();
    ws.has_cargo_toml = true;
    ws.cargo_toml = Some("name = \"foo\"\nversion = \"1.2.3\"\n\n[[bin]]\n".to_string());
    let (p, write) = get_or_create_project(&Some(cached.to_string()), &ws);
    // run commands re-detected
    assert_eq!(p.run_commands.dev, "./target/debug/foo");
    assert_eq!(p.run_commands.release, "./target/release/foo");
    // cached build commands untouched
    assert_eq!(p.build_commands.dev, "custom dev build");
    assert_eq!(p.build_commands.release, "custom release build");
    // and the merged project is persisted
    let text = write.expect("a refreshed project must be persisted");
    assert_eq!(text, write_project_to_toml(&p));
}

#[test]
fn carriage_return_inside_a_field_round_trips() {
    let mut p = sample_project();
    p.build_commands.dev = "run\rcarefully".to_string();
    p.name = "demo\r".to_string();
    let text = write_project_to_toml(&p);
    let q = read_project_from_toml(&text);
    assert_eq!(q.name, "demo\r");
    assert_eq!(q.build_commands.dev, "run\rcarefully");
    assert_eq!(q.version, p.version);
}
