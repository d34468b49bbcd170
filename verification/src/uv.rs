use vstd::prelude::*;
use vstd::string::*;

use crate::cargo::opt_content;
use crate::project::{BuildCommands, CommandsModel, Project, ProjectModel, RunCommands};
use crate::text::{lines_spec, quoted_value, quoted_value_spec, split_lines, starts_with,
    starts_with_spec};

verus! {

// ---------------------------------------------------------------------------
// Scanning the lines of a pyproject manifest
// ---------------------------------------------------------------------------

#[verifier::ext_equal]
pub struct UvScan {
    pub name: Seq<char>,
    pub version: Seq<char>,
}

pub open spec fn uv_scan_init() -> UvScan {
    UvScan { name: "unknown"@, version: "unknown"@ }
}

pub open spec fn uv_scan_step(st: UvScan, line: Seq<char>) -> UvScan {
    if starts_with_spec(line, "name = "@) {
        match quoted_value_spec(line) {
            Some(v) => UvScan { name: v, ..st },
            None => st,
        }
    } else if starts_with_spec(line, "version = "@) {
        match quoted_value_spec(line) {
            Some(v) => UvScan { version: v, ..st },
            None => st,
        }
    } else {
        st
    }
}

pub open spec fn uv_scan_lines(lines: Seq<Seq<char>>) -> UvScan
    decreases lines.len(),
{
    if lines.len() == 0 {
        uv_scan_init()
    } else {
        uv_scan_step(uv_scan_lines(lines.drop_last()), lines.last())
    }
}

pub open spec fn uv_project_model(content: Seq<char>) -> ProjectModel {
    let st = uv_scan_lines(lines_spec(content));
    ProjectModel {
        project_type: "uv"@,
        name: st.name,
        version: st.version,
        is_library: false,
        build: CommandsModel { dev: "uv build"@, release: "uv build"@ },
        run: CommandsModel { dev: "uv run main.py"@, release: "uv run main.py"@ },
        is_rust: false,
        is_uv: true,
        is_fortran: false,
    }
}

/// Detect a Python project managed by uv.  `has_pyproject_toml` says whether
/// a `pyproject.toml` exists; `pyproject_toml` holds its text when readable.
pub fn detect_uv_project(has_pyproject_toml: bool, pyproject_toml: &Option<String>) -> (r:
    Option<Project>)
    ensures
        r is Some <==> has_pyproject_toml,
        has_pyproject_toml ==> r.unwrap()@ == uv_project_model(
            opt_content(pyproject_toml.deep_view()),
        ),
{
    if !has_pyproject_toml {
        return None;
    }
    let content: &str = match pyproject_toml {
        Some(c) => c.as_str(),
        None => "",
    };
    proof {
        reveal_strlit("");
        assert(content@ =~= opt_content(pyproject_toml.deep_view()));
    }
    let lines = split_lines(content);
    let mut name: &str = "unknown";
    let mut version: &str = "unknown";
    proof {
        assert(lines.deep_view().take(0) =~= Seq::<Seq<char>>::empty());
    }
    let n = lines.len();
    let mut i: usize = 0;
    while i < n
        invariant
            n == lines@.len(),
            i <= n,
            lines.deep_view() == lines_spec(content@),
            ({
                let st = uv_scan_lines(lines.deep_view().take(i as int));
                &&& name@ == st.name
                &&& version@ == st.version
            }),
        decreases n - i,
    {
        let ghost dv = lines.deep_view();
        proof {
            assert(dv.take(i + 1).drop_last() =~= dv.take(i as int));
            assert(dv.take(i + 1).last() == dv[i as int]);
            assert(dv[i as int] == lines@[i as int]@);
        }
        let line: &str = lines[i];
        if starts_with(line, "name = ") {
            if let Some(v) = quoted_value(line) {
                name = v;
            }
        } else if starts_with(line, "version = ") {
            if let Some(v) = quoted_value(line) {
                version = v;
            }
        }
        i += 1;
    }
    proof {
        assert(lines.deep_view().take(n as int) =~= lines.deep_view());
    }
    Some(
        Project {
            project_type: String::from_str("uv"),
            name: String::from_str(name),
            version: String::from_str(version),
            is_library: false,
            build_commands: BuildCommands {
                dev: String::from_str("uv build"),
                release: String::from_str("uv build"),
            },
            run_commands: RunCommands {
                dev: String::from_str("uv run main.py"),
                release: String::from_str("uv run main.py"),
            },
            is_rust_project: false,
            is_uv_project: true,
            is_fortran_project: false,
        },
    )
}

} // verus!
