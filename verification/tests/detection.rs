use lox::cargo::detect_cargo_project;
use lox::detect::{detect_project_info, Workspace};
use lox::flang::{detect_fortran_project, SourceFile};
use lox::fpm::detect_fpm_project;
use lox::uv::detect_uv_project;

fn empty_workspace() -> Workspace {
    Workspace {
        has_cargo_toml: false,
        cargo_toml: None,
        has_pyproject_toml: false,
        pyproject_toml: None,
        has_fpm_toml: false,
        fpm_toml: None,
        fortran_sources: Vec::new(),
        has_main_rs: false,
        has_lib_rs: false,
    }
}

#[test]
fn cargo_bin_project_detected() {
    let manifest = "[package]\nname = \"foo\"\nversion = \"1.2.3\"\n\n[[bin]]\nname = \"foo\"\n";
    let p = detect_cargo_project(true, &Some(manifest.to_string()), false, false).unwrap();
    assert_eq!(p.project_type, "app(bin)");
    assert_eq!(p.name, "foo");
    assert_eq!(p.version, "1.2.3");
    assert!(p.is_rust_project);
    assert!(!p.is_library);
    assert!(!p.is_uv_project);
    assert!(!p.is_fortran_project);
    assert_eq!(p.build_commands.dev, "cargo build");
    assert_eq!(p.build_commands.release, "cargo build --release");
    assert_eq!(p.run_commands.dev, "./target/debug/foo");
    assert_eq!(p.run_commands.release, "./target/release/foo");
}

#[test]
fn cargo_hyphenated_name_underscored_in_run_path() {
    let manifest = "name = \"my-crate\"\nversion = \"0.1.0\"\n\n[[bin]]\n";
    let p = detect_cargo_project(true, &Some(manifest.to_string()), false, false).unwrap();
    assert_eq!(p.name, "my-crate");
    assert_eq!(p.run_commands.dev, "./target/debug/my_crate");
    assert_eq!(p.run_commands.release, "./target/release/my_crate");
}

#[test]
fn cargo_lib_section_marks_library() {
    let manifest = "name = \"l\"\nversion = \"0.0.1\"\n\n[lib]\n";
    let p = detect_cargo_project(true, &Some(manifest.to_string()), true, true).unwrap();
    assert_eq!(p.project_type, "library(lib)");
    assert!(p.is_library);
    assert_eq!(p.run_commands.dev, "unknown");
    assert_eq!(p.run_commands.release, "unknown");
}

#[test]
fn cargo_fallback_lib_rs_only_is_library() {
    let manifest = "name = \"q\"\nversion = \"0.1.0\"\n";
    let p = detect_cargo_project(true, &Some(manifest.to_string()), false, true).unwrap();
    assert_eq!(p.project_type, "library(lib)");
    assert!(p.is_library);
}

#[test]
fn cargo_fallback_main_rs_flips_to_binary() {
    let manifest = "name = \"q\"\nversion = \"0.1.0\"\n";
    let p = detect_cargo_project(true, &Some(manifest.to_string()), true, true).unwrap();
    assert_eq!(p.project_type, "app(bin)");
    assert!(!p.is_library);
}

#[test]
fn cargo_absent_manifest_detects_nothing() {
    assert!(detect_cargo_project(false, &None, true, true).is_none());
}

#[test]
fn cargo_unreadable_manifest_still_detected() {
    let p = detect_cargo_project(true, &None, false, false).unwrap();
    assert_eq!(p.project_type, "unknown");
    assert_eq!(p.name, "unknown");
    assert_eq!(p.version, "unknown");
    assert!(p.is_rust_project);
}

#[test]
fn uv_project_detected() {
    let manifest = "[project]\nname = \"bar\"\nversion = \"2.0.0\"\n";
    let p = detect_uv_project(true, &Some(manifest.to_string())).unwrap();
    assert_eq!(p.project_type, "uv");
    assert_eq!(p.name, "bar");
    assert_eq!(p.version, "2.0.0");
    assert!(p.is_uv_project);
    assert!(!p.is_rust_project);
    assert_eq!(p.build_commands.dev, "uv build");
    assert_eq!(p.build_commands.release, "uv build");
    assert_eq!(p.run_commands.dev, "uv run main.py");
    assert_eq!(p.run_commands.release, "uv run main.py");
}

#[test]
fn uv_absent_manifest_detects_nothing() {
    assert!(detect_uv_project(false, &None).is_none());
}

#[test]
fn fpm_project_detected() {
    let manifest = "name = \"fort\"\nversion = \"0.2.0\"\n";
    let p = detect_fpm_project(true, &Some(manifest.to_string())).unwrap();
    assert_eq!(p.project_type, "fpm");
    assert_eq!(p.name, "fort");
    assert_eq!(p.version, "0.1.0");
    assert!(p.is_fortran_project);
    assert_eq!(p.build_commands.dev, "fpm build");
    assert_eq!(p.build_commands.release, "fpm build --profile release");
    assert_eq!(p.run_commands.dev, "fpm run");
    assert_eq!(p.run_commands.release, "fpm run --profile release");
}

#[test]
fn fpm_first_name_line_wins() {
    let manifest = "name = \"first\"\nname = \"second\"\n";
    let p = detect_fpm_project(true, &Some(manifest.to_string())).unwrap();
    assert_eq!(p.name, "first");
}

#[test]
fn fortran_project_detected_from_program_file() {
    let sources = vec![
        SourceFile {
            name: "helper.f90".to_string(),
            content: "module helper\nend module\n".to_string(),
        },
        SourceFile {
            name: "main.f90".to_string(),
            content: "  Program main\nend program\n".to_string(),
        },
    ];
    let p = detect_fortran_project(&sources).unwrap();
    assert_eq!(p.project_type, "llvm-f");
    assert_eq!(p.name, "main");
    assert_eq!(p.version, "0.1.0");
    assert!(p.is_fortran_project);
    assert_eq!(
        p.build_commands.dev,
        "mkdir -p target/dev && flang -g -o target/dev/main.out main.f90"
    );
    assert_eq!(
        p.build_commands.release,
        "mkdir -p target/release && flang -O3 -o target/release/main.out main.f90"
    );
    assert_eq!(p.run_commands.dev, "./target/dev/main.out");
    assert_eq!(p.run_commands.release, "./target/release/main.out");
}

#[test]
fn fortran_without_program_line_detects_nothing() {
    let sources = vec![SourceFile {
        name: "a.f90".to_string(),
        content: "module a\nend module\n".to_string(),
    }];
    assert!(detect_fortran_project(&sources).is_none());
}

#[test]
fn fortran_no_sources_detects_nothing() {
    assert!(detect_fortran_project(&Vec::new()).is_none());
}

#[test]
fn unknown_directory_detects_unknown_project() {
    let p = detect_project_info(&empty_workspace());
    assert_eq!(p.project_type, "unknown");
    assert_eq!(p.name, "unknown");
    assert_eq!(p.version, "unknown");
    assert!(!p.is_rust_project);
    assert!(!p.is_uv_project);
    assert!(!p.is_fortran_project);
    assert!(!p.is_library);
    assert_eq!(p.build_commands.dev, "unknown");
    assert_eq!(p.build_commands.release, "unknown");
    assert_eq!(p.run_commands.dev, "unknown");
    assert_eq!(p.run_commands.release, "unknown");
}

#[test]
fn detection_priority_prefers_cargo() {
    let mut ws = empty_workspace();
    ws.has_cargo_toml = true;
    ws.cargo_toml = Some("name = \"both\"\n\n[[bin]]\n".to_string());
    ws.has_pyproject_toml = true;
    ws.pyproject_toml = Some("name = \"python-side\"\n".to_string());
    let p = detect_project_info(&ws);
    assert!(p.is_rust_project);
    assert_eq!(p.name, "both");
}

#[test]
fn detection_priority_uv_before_fpm() {
    let mut ws = empty_workspace();
    ws.has_pyproject_toml = true;
    ws.pyproject_toml = Some("name = \"py\"\n".to_string());
    ws.has_fpm_toml = true;
    ws.fpm_toml = Some("name = \"fort\"\n".to_string());
    let p = detect_project_info(&ws);
    assert!(p.is_uv_project);
    assert_eq!(p.name, "py");
}
