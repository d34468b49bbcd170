use vstd::prelude::*;
use vstd::string::*;

use crate::project::{format_os_name, format_os_name_spec, Project};
use crate::text::{split_whitespace_vec, split_ws_spec, str_eq};

verus! {

// ---------------------------------------------------------------------------
// Turning a stored command string into a process invocation
// ---------------------------------------------------------------------------

/// The first whitespace token names the program, the rest are its arguments;
/// a command of only whitespace is no invocation.
pub fn split_command(s: &str) -> (r: Option<(String, Vec<String>)>)
    ensures
        r is Some <==> split_ws_spec(s@).len() > 0,
        r matches Some(p) ==> p.0@ == split_ws_spec(s@)[0] && p.1.deep_view() == split_ws_spec(
            s@,
        ).drop_first(),
{
    let parts = split_whitespace_vec(s);
    if parts.len() == 0 {
        return None;
    }
    proof {
        assert(parts.deep_view()[0] == parts@[0int]@);
    }
    let program = String::from_str(parts[0]);
    let mut args: Vec<String> = Vec::new();
    let n = parts.len();
    let mut i: usize = 1;
    proof {
        assert(args.deep_view() =~= parts.deep_view().subrange(1, 1));
    }
    while i < n
        invariant
            n == parts@.len(),
            1 <= i <= n,
            parts.deep_view() == split_ws_spec(s@),
            args.deep_view() == parts.deep_view().subrange(1, i as int),
        decreases n - i,
    {
        let ghost prev = args.deep_view();
        proof {
            assert(parts.deep_view()[i as int] == parts@[i as int]@);
        }
        args.push(String::from_str(parts[i]));
        proof {
            assert(args.deep_view() =~= prev.push(parts.deep_view()[i as int]));
            assert(args.deep_view() =~= parts.deep_view().subrange(1, i + 1));
        }
        i += 1;
    }
    proof {
        assert(parts.deep_view().subrange(1, n as int) =~= parts.deep_view().drop_first());
    }
    Some((program, args))
}

/// The version is the second whitespace token of a tool's `--version`
/// output; "unknown" when the output is shorter.
pub open spec fn tool_version_spec(output: Seq<char>) -> Seq<char> {
    let parts = split_ws_spec(output);
    if parts.len() >= 2 {
        parts[1]
    } else {
        "unknown"@
    }
}

pub fn tool_version_from_output(output: &str) -> (r: String)
    ensures
        r@ == tool_version_spec(output@),
{
    let parts = split_whitespace_vec(output);
    if parts.len() >= 2 {
        proof {
            assert(parts.deep_view()[1] == parts@[1int]@);
        }
        String::from_str(parts[1])
    } else {
        String::from_str("unknown")
    }
}

// ---------------------------------------------------------------------------
// What each subcommand decides, before anything runs
// ---------------------------------------------------------------------------

pub enum DevPlan {
    RustTasks(Vec<String>),
    UvUnsupported,
    FortranShell(String),
    Unknown,
}

/// The dev build: Rust runs the four cargo tasks; uv projects are pointed at
/// other subcommands; bare Fortran runs its stored dev build command through
/// the shell.
pub fn dev_plan(project: &Project) -> (r: DevPlan)
    ensures
        project.is_rust_project ==> (r matches DevPlan::RustTasks(ids) && ids.deep_view()
            =~= seq!["cargo_update"@, "cargo_fmt"@, "cargo_check"@, "cargo_build"@]),
        !project.is_rust_project && project.is_uv_project ==> r is UvUnsupported,
        !project.is_rust_project && !project.is_uv_project && project.is_fortran_project ==> (
        r matches DevPlan::FortranShell(cmd) && cmd@ == project.build_commands.dev@),
        !project.is_rust_project && !project.is_uv_project && !project.is_fortran_project ==> r
            is Unknown,
{
    if project.is_rust_project {
        let mut ids: Vec<String> = Vec::new();
        ids.push(String::from_str("cargo_update"));
        ids.push(String::from_str("cargo_fmt"));
        ids.push(String::from_str("cargo_check"));
        ids.push(String::from_str("cargo_build"));
        DevPlan::RustTasks(ids)
    } else if project.is_uv_project {
        DevPlan::UvUnsupported
    } else if project.is_fortran_project {
        DevPlan::FortranShell(project.build_commands.dev.clone())
    } else {
        DevPlan::Unknown
    }
}

pub enum BuildPlan {
    RustTasks(Vec<String>),
    UvTasks(Vec<String>),
    Unknown,
}

/// The release build: Rust updates, formats, checks and builds with
/// `--release`; uv locks, lints, formats and builds.
pub fn build_plan(project: &Project) -> (r: BuildPlan)
    ensures
        project.is_rust_project ==> (r matches BuildPlan::RustTasks(ids) && ids.deep_view()
            =~= seq!["cargo_update"@, "cargo_fmt"@, "cargo_check"@, "cargo_build_release"@]),
        !project.is_rust_project && project.is_uv_project ==> (r matches BuildPlan::UvTasks(ids)
            && ids.deep_view() =~= seq![
            "uv_lock"@,
            "uv_ruff_check"@,
            "uv_ruff_format"@,
            "uv_build"@,
        ]),
        !project.is_rust_project && !project.is_uv_project ==> r is Unknown,
{
    if project.is_rust_project {
        let mut ids: Vec<String> = Vec::new();
        ids.push(String::from_str("cargo_update"));
        ids.push(String::from_str("cargo_fmt"));
        ids.push(String::from_str("cargo_check"));
        ids.push(String::from_str("cargo_build_release"));
        BuildPlan::RustTasks(ids)
    } else if project.is_uv_project {
        let mut ids: Vec<String> = Vec::new();
        ids.push(String::from_str("uv_lock"));
        ids.push(String::from_str("uv_ruff_check"));
        ids.push(String::from_str("uv_ruff_format"));
        ids.push(String::from_str("uv_build"));
        BuildPlan::UvTasks(ids)
    } else {
        BuildPlan::Unknown
    }
}

pub enum DashPlan {
    LibraryNoBinary,
    RunBinary(String),
    UvUnsupported,
    Unknown,
}

/// The debug run: library projects have no binary; Rust and Fortran projects
/// run the stored dev command; uv projects are pointed at `run` or `build`.
pub fn dash_plan(project: &Project) -> (r: DashPlan)
    ensures
        (project.is_rust_project || project.is_fortran_project) && project.is_library ==> r
            is LibraryNoBinary,
        (project.is_rust_project || project.is_fortran_project) && !project.is_library ==> (
        r matches DashPlan::RunBinary(cmd) && cmd@ == project.run_commands.dev@),
        !(project.is_rust_project || project.is_fortran_project) && project.is_uv_project ==> r
            is UvUnsupported,
        !(project.is_rust_project || project.is_fortran_project) && !project.is_uv_project ==> r
            is Unknown,
{
    if project.is_rust_project || project.is_fortran_project {
        if project.is_library {
            DashPlan::LibraryNoBinary
        } else {
            DashPlan::RunBinary(project.run_commands.dev.clone())
        }
    } else if project.is_uv_project {
        DashPlan::UvUnsupported
    } else {
        DashPlan::Unknown
    }
}

pub enum RunPlan {
    LibraryNoBinary,
    RunBinary { command: String, uv_lock_first: bool },
    Unknown,
}

/// The release run: library projects have no binary; anything detected runs
/// the stored release command, uv projects after locking the dependencies.
pub fn run_plan(project: &Project) -> (r: RunPlan)
    ensures
        (project.is_rust_project || project.is_uv_project || project.is_fortran_project)
            && project.is_library ==> r is LibraryNoBinary,
        (project.is_rust_project || project.is_uv_project || project.is_fortran_project)
            && !project.is_library ==> (r matches RunPlan::RunBinary { command, uv_lock_first }
            && command@ == project.run_commands.release@ && uv_lock_first == (
        !project.is_rust_project && project.is_uv_project)),
        !(project.is_rust_project || project.is_uv_project || project.is_fortran_project) ==> r
            is Unknown,
{
    if project.is_rust_project || project.is_uv_project || project.is_fortran_project {
        if project.is_library {
            RunPlan::LibraryNoBinary
        } else {
            RunPlan::RunBinary {
                command: project.run_commands.release.clone(),
                uv_lock_first: !project.is_rust_project && project.is_uv_project,
            }
        }
    } else {
        RunPlan::Unknown
    }
}

/// Before a run, Rust and Fortran projects build first when the target
/// directory or the expected binary is missing.
pub fn needs_build_first(project: &Project, target_dir_exists: bool, binary_exists: bool) -> (r:
    bool)
    ensures
        r == ((project.is_rust_project || project.is_fortran_project) && (!target_dir_exists
            || !binary_exists)),
{
    (project.is_rust_project || project.is_fortran_project) && (!target_dir_exists
        || !binary_exists)
}

// ---------------------------------------------------------------------------
// The report that doctor persists on a first run
// ---------------------------------------------------------------------------

pub open spec fn doctor_base_spec(p: crate::project::ProjectModel) -> Seq<char> {
    "[project]\ntype = \""@ + p.project_type + "\"\nname = \""@ + p.name + "\"\nversion = \""@
        + p.version + "\"\n"@
}

pub open spec fn doctor_build_run_spec(p: crate::project::ProjectModel) -> Seq<char> {
    "\n[project.build]\ndev = \""@ + p.build.dev + "\"\nrelease = \""@ + p.build.release
        + "\"\n"@ + "\n[project.run]\ndev = \""@ + p.run.dev + "\"\nrelease = \""@
        + p.run.release + "\"\n"@
}

/// The text doctor writes to the cache file on a first run: the project, its
/// commands, and the environment, with sections depending on the project
/// kind.
pub open spec fn doctor_toml_spec(
    p: crate::project::ProjectModel,
    rustc_version: Seq<char>,
    cargo_version: Seq<char>,
    uv_version: Seq<char>,
    os: Seq<char>,
    arch: Seq<char>,
) -> Seq<char> {
    if p.is_rust {
        doctor_base_spec(p) + doctor_build_run_spec(p)
            + "\n[project.commands]\nfmt = \"cargo fmt\"\nlint = \"cargo check\"\ndependency = \"cargo update\"\n"@
            + "\n[environment]\nos = \""@ + format_os_name_spec(os) + "\"\narch = \""@ + arch
            + "\"\nrustc_version = \""@ + rustc_version + "\"\ncargo_version = \""@
            + cargo_version + "\"\n"@
    } else if p.is_uv {
        doctor_base_spec(p) + doctor_build_run_spec(p)
            + "\n[project.commands]\nfmt = \"uvx ruff format\"\nlint = \"uvx ruff check\"\ndependency = \"uv update\"\n"@
            + "\n[environment]\nos = \""@ + format_os_name_spec(os) + "\"\narch = \""@ + arch
            + "\"\nuv_version = \""@ + uv_version + "\"\n"@
    } else {
        doctor_base_spec(p) + "\n[project.build]\ndev = \""@ + p.build.dev
            + "\"\nrelease = \""@ + p.build.release + "\"\n"@
            + "\n[project.commands]\nfmt = \"unknown\"\nlint = \"unknown\"\ndependency = \"unknown\"\n"@
            + "\n[environment]\nos = \""@ + format_os_name_spec(os) + "\"\narch = \""@ + arch
            + "\"\n"@
    }
}

pub fn doctor_toml_content(
    project: &Project,
    rustc_version: &str,
    cargo_version: &str,
    uv_version: &str,
    os: &str,
    arch: &str,
) -> (r: String)
    ensures
        r@ == doctor_toml_spec(project@, rustc_version@, cargo_version@, uv_version@, os@, arch@),
{
    let mut s = String::from_str("[project]\ntype = \"");
    s.append(project.project_type.as_str());
    s.append("\"\nname = \"");
    s.append(project.name.as_str());
    s.append("\"\nversion = \"");
    s.append(project.version.as_str());
    s.append("\"\n");
    let formatted_os = format_os_name(os);
    if project.is_rust_project {
        s.append("\n[project.build]\ndev = \"");
        s.append(project.build_commands.dev.as_str());
        s.append("\"\nrelease = \"");
        s.append(project.build_commands.release.as_str());
        s.append("\"\n");
        s.append("\n[project.run]\ndev = \"");
        s.append(project.run_commands.dev.as_str());
        s.append("\"\nrelease = \"");
        s.append(project.run_commands.release.as_str());
        s.append("\"\n");
        s.append(
            "\n[project.commands]\nfmt = \"cargo fmt\"\nlint = \"cargo check\"\ndependency = \"cargo update\"\n",
        );
        s.append("\n[environment]\nos = \"");
        s.append(formatted_os.as_str());
        s.append("\"\narch = \"");
        s.append(arch);
        s.append("\"\nrustc_version = \"");
        s.append(rustc_version);
        s.append("\"\ncargo_version = \"");
        s.append(cargo_version);
        s.append("\"\n");
    } else if project.is_uv_project {
        s.append("\n[project.build]\ndev = \"");
        s.append(project.build_commands.dev.as_str());
        s.append("\"\nrelease = \"");
        s.append(project.build_commands.release.as_str());
        s.append("\"\n");
        s.append("\n[project.run]\ndev = \"");
        s.append(project.run_commands.dev.as_str());
        s.append("\"\nrelease = \"");
        s.append(project.run_commands.release.as_str());
        s.append("\"\n");
        s.append(
            "\n[project.commands]\nfmt = \"uvx ruff format\"\nlint = \"uvx ruff check\"\ndependency = \"uv update\"\n",
        );
        s.append("\n[environment]\nos = \"");
        s.append(formatted_os.as_str());
        s.append("\"\narch = \"");
        s.append(arch);
        s.append("\"\nuv_version = \"");
        s.append(uv_version);
        s.append("\"\n");
    } else {
        s.append("\n[project.build]\ndev = \"");
        s.append(project.build_commands.dev.as_str());
        s.append("\"\nrelease = \"");
        s.append(project.build_commands.release.as_str());
        s.append("\"\n");
        s.append(
            "\n[project.commands]\nfmt = \"unknown\"\nlint = \"unknown\"\ndependency = \"unknown\"\n",
        );
        s.append("\n[environment]\nos = \"");
        s.append(formatted_os.as_str());
        s.append("\"\narch = \"");
        s.append(arch);
        s.append("\"\n");
    }
    proof {
        assert(s@ =~= doctor_toml_spec(
            project@,
            rustc_version@,
            cargo_version@,
            uv_version@,
            os@,
            arch@,
        ));
    }
    s
}

/// True when the project's run command is still undetected.
pub fn run_command_unknown(project: &Project) -> (r: bool)
    ensures
        r == (project.run_commands.dev@ == "unknown"@ || project.run_commands.release@
            == "unknown"@),
{
    str_eq(project.run_commands.dev.as_str(), "unknown") || str_eq(
        project.run_commands.release.as_str(),
        "unknown",
    )
}

} // verus!
