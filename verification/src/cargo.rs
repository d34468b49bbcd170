use vstd::prelude::*;
use vstd::string::*;

use crate::project::{BuildCommands, CommandsModel, Project, ProjectModel, RunCommands};
use crate::text::{
    contains_sub, lines_spec, quoted_value, quoted_value_spec, replace_char, replace_char_spec,
    split_lines, starts_with, starts_with_spec, str_eq,
};

verus! {

// ---------------------------------------------------------------------------
// Scanning the lines of a Cargo manifest
// ---------------------------------------------------------------------------

#[verifier::ext_equal]
pub struct CargoScan {
    pub project_type: Seq<char>,
    pub name: Seq<char>,
    pub version: Seq<char>,
    pub is_library: bool,
}

pub open spec fn cargo_scan_init() -> CargoScan {
    CargoScan {
        project_type: "unknown"@,
        name: "unknown"@,
        version: "unknown"@,
        is_library: false,
    }
}

/// One manifest line: `name = "..."` and `version = "..."` capture the quoted
/// value, a `[lib]` header marks a library, a `[[bin]]` header a binary.
pub open spec fn cargo_scan_step(st: CargoScan, line: Seq<char>) -> CargoScan {
    if starts_with_spec(line, "name = "@) {
        match quoted_value_spec(line) {
            Some(v) => CargoScan { name: v, ..st },
            None => st,
        }
    } else if starts_with_spec(line, "version = "@) {
        match quoted_value_spec(line) {
            Some(v) => CargoScan { version: v, ..st },
            None => st,
        }
    } else if starts_with_spec(line, "[lib]"@) {
        CargoScan { project_type: "library(lib)"@, is_library: true, ..st }
    } else if starts_with_spec(line, "[[bin]]"@) {
        CargoScan { project_type: "app(bin)"@, ..st }
    } else {
        st
    }
}

pub open spec fn cargo_scan_lines(lines: Seq<Seq<char>>) -> CargoScan
    decreases lines.len(),
{
    if lines.len() == 0 {
        cargo_scan_init()
    } else {
        cargo_scan_step(cargo_scan_lines(lines.drop_last()), lines.last())
    }
}

// ---------------------------------------------------------------------------
// The detected Rust project
// ---------------------------------------------------------------------------

/// The project type after the filesystem fallback: when the manifest named
/// neither `[lib]` nor `[[bin]]`, the presence of `src/main.rs` or
/// `src/lib.rs` decides.
pub open spec fn cargo_fallback_type(
    scanned: Seq<char>,
    has_main_rs: bool,
    has_lib_rs: bool,
) -> Seq<char> {
    if scanned == "unknown"@ {
        if has_main_rs {
            "app(bin)"@
        } else if has_lib_rs {
            "library(lib)"@
        } else {
            "unknown"@
        }
    } else {
        scanned
    }
}

pub open spec fn cargo_project_model(
    content: Seq<char>,
    has_main_rs: bool,
    has_lib_rs: bool,
) -> ProjectModel {
    let st = cargo_scan_lines(lines_spec(content));
    let ty = cargo_fallback_type(st.project_type, has_main_rs, has_lib_rs);
    let lib = if st.project_type == "unknown"@ {
        ty == "library(lib)"@
    } else {
        st.is_library
    };
    let bin = replace_char_spec(st.name, '-', '_');
    ProjectModel {
        project_type: ty,
        name: st.name,
        version: st.version,
        is_library: lib,
        build: CommandsModel { dev: "cargo build"@, release: "cargo build --release"@ },
        run: if !lib {
            CommandsModel {
                dev: "./target/debug/"@ + bin,
                release: "./target/release/"@ + bin,
            }
        } else {
            CommandsModel { dev: "unknown"@, release: "unknown"@ }
        },
        is_rust: true,
        is_uv: false,
        is_fortran: false,
    }
}

pub open spec fn opt_content(c: Option<Seq<char>>) -> Seq<char> {
    match c {
        Some(s) => s,
        None => Seq::empty(),
    }
}

/// Detect a Rust project.  `has_cargo_toml` says whether a `Cargo.toml`
/// exists; `cargo_toml` holds its text when it could be read.  `has_main_rs`
/// and `has_lib_rs` report whether `src/main.rs` and `src/lib.rs` exist.
pub fn detect_cargo_project(
    has_cargo_toml: bool,
    cargo_toml: &Option<String>,
    has_main_rs: bool,
    has_lib_rs: bool,
) -> (r: Option<Project>)
    ensures
        r is Some <==> has_cargo_toml,
        has_cargo_toml ==> r.unwrap()@ == cargo_project_model(
            opt_content(cargo_toml.deep_view()),
            has_main_rs,
            has_lib_rs,
        ),
{
    if !has_cargo_toml {
        return None;
    }
    let content: &str = match cargo_toml {
        Some(c) => c.as_str(),
        None => "",
    };
    proof {
        reveal_strlit("");
        assert(content@ =~= opt_content(cargo_toml.deep_view()));
    }
    let lines = split_lines(content);
    let mut project_type: &str = "unknown";
    let mut name: &str = "unknown";
    let mut version: &str = "unknown";
    let mut is_library = false;
    proof {
        assert(lines.deep_view().take(0) =~= Seq::<Seq<char>>::empty());
    }
    let n = lines.len();
    let mut i: usize = 0;
    while i < n
        invariant
            n == lines@.len(),
            i <= n,
            lines.deep_view() == lines_spec(content@),
            ({
                let st = cargo_scan_lines(lines.deep_view().take(i as int));
                &&& project_type@ == st.project_type
                &&& name@ == st.name
                &&& version@ == st.version
                &&& is_library == st.is_library
            }),
        decreases n - i,
    {
        let ghost dv = lines.deep_view();
        proof {
            assert(dv.take(i + 1).drop_last() =~= dv.take(i as int));
            assert(dv.take(i + 1).last() == dv[i as int]);
            assert(dv[i as int] == lines@[i as int]@);
        }
        let line: &str = lines[i];
        if starts_with(line, "name = ") {
            if let Some(v) = quoted_value(line) {
                name = v;
            }
        } else if starts_with(line, "version = ") {
            if let Some(v) = quoted_value(line) {
                version = v;
            }
        } else if starts_with(line, "[lib]") {
            project_type = "library(lib)";
            is_library = true;
        } else if starts_with(line, "[[bin]]") {
            project_type = "app(bin)";
        }
        i += 1;
    }
    proof {
        assert(lines.deep_view().take(n as int) =~= lines.deep_view());
    }
    let final_type: &str;
    let final_library: bool;
    if str_eq(project_type, "unknown") {
        let ty: &str = if has_main_rs {
            "app(bin)"
        } else if has_lib_rs {
            "library(lib)"
        } else {
            "unknown"
        };
        final_type = ty;
        final_library = str_eq(ty, "library(lib)");
    } else {
        final_type = project_type;
        final_library = is_library;
    }
    let binary_name = replace_char(name, '-', '_');
    let run_commands = if !final_library {
        let mut dev = String::from_str("./target/debug/");
        dev.append(binary_name.as_str());
        let mut release = String::from_str("./target/release/");
        release.append(binary_name.as_str());
        RunCommands { dev, release }
    } else {
        RunCommands { dev: String::from_str("unknown"), release: String::from_str("unknown") }
    };
    Some(
        Project {
            project_type: String::from_str(final_type),
            name: String::from_str(name),
            version: String::from_str(version),
            is_library: final_library,
            build_commands: BuildCommands {
                dev: String::from_str("cargo build"),
                release: String::from_str("cargo build --release"),
            },
            run_commands,
            is_rust_project: true,
            is_uv_project: false,
            is_fortran_project: false,
        },
    )
}

// ---------------------------------------------------------------------------
// The filesystem-fallback law for library classification
// ---------------------------------------------------------------------------

/// When the manifest text names neither `[lib]` nor `[[bin]]`, the detected
/// project is a library exactly when `src/lib.rs` exists and `src/main.rs`
/// does not; adding `src/main.rs` therefore flips the classification.
pub proof fn lemma_library_fallback(content: Seq<char>, has_main_rs: bool, has_lib_rs: bool)
    requires
        cargo_scan_lines(lines_spec(content)).project_type == "unknown"@,
    ensures
        cargo_project_model(content, has_main_rs, has_lib_rs).is_library == (!has_main_rs
            && has_lib_rs),
{
    reveal_strlit("unknown");
    reveal_strlit("app(bin)");
    reveal_strlit("library(lib)");
    let st = cargo_scan_lines(lines_spec(content));
    let ty = cargo_fallback_type(st.project_type, has_main_rs, has_lib_rs);
    if has_main_rs {
        assert(ty == "app(bin)"@);
        assert("app(bin)"@.len() != "library(lib)"@.len());
    } else if has_lib_rs {
        assert(ty == "library(lib)"@);
    } else {
        assert(ty == "unknown"@);
        assert("unknown"@.len() != "library(lib)"@.len());
    }
}

} // verus!
