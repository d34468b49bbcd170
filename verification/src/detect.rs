use vstd::prelude::*;
use vstd::string::*;

use crate::cargo::{cargo_project_model, detect_cargo_project, opt_content};
use crate::flang::{detect_fortran_project, fortran_project_model, main_index, stem_spec,
    SourceFile};
use crate::fpm::{detect_fpm_project, fpm_project_model};
use crate::project::{cache_project_model, read_project_from_toml, toml_render_spec,
    write_project_to_toml, BuildCommands, CommandsModel, Project, ProjectModel, RunCommands};
use crate::uv::{detect_uv_project, uv_project_model};

verus! {

// ---------------------------------------------------------------------------
// What detection looks at: plain values read from the working directory
// ---------------------------------------------------------------------------

/// A snapshot of the working directory, as plain values: whether each
/// manifest exists, its text when readable, the Fortran sources, and whether
/// the two well-known Rust entry points exist.
pub struct Workspace {
    pub has_cargo_toml: bool,
    pub cargo_toml: Option<String>,
    pub has_pyproject_toml: bool,
    pub pyproject_toml: Option<String>,
    pub has_fpm_toml: bool,
    pub fpm_toml: Option<String>,
    pub fortran_sources: Vec<SourceFile>,
    pub has_main_rs: bool,
    pub has_lib_rs: bool,
}

pub open spec fn unknown_project_model() -> ProjectModel {
    ProjectModel {
        project_type: "unknown"@,
        name: "unknown"@,
        version: "unknown"@,
        is_library: false,
        build: CommandsModel { dev: "unknown"@, release: "unknown"@ },
        run: CommandsModel { dev: "unknown"@, release: "unknown"@ },
        is_rust: false,
        is_uv: false,
        is_fortran: false,
    }
}

/// Detection in fixed priority order: Cargo, then uv, then fpm, then bare
/// Fortran; everything else is unknown.
pub open spec fn detect_spec(ws: Workspace) -> ProjectModel {
    if ws.has_cargo_toml {
        cargo_project_model(
            opt_content(ws.cargo_toml.deep_view()),
            ws.has_main_rs,
            ws.has_lib_rs,
        )
    } else if ws.has_pyproject_toml {
        uv_project_model(opt_content(ws.pyproject_toml.deep_view()))
    } else if ws.has_fpm_toml {
        fpm_project_model(opt_content(ws.fpm_toml.deep_view()))
    } else if ws.fortran_sources@.len() > 0 && main_index(ws.fortran_sources.deep_view()) >= 0 {
        fortran_project_model(
            stem_spec(
                ws.fortran_sources.deep_view()[main_index(ws.fortran_sources.deep_view())].name,
            ),
        )
    } else {
        unknown_project_model()
    }
}

/// Detect the project in the workspace snapshot.
pub fn detect_project_info(ws: &Workspace) -> (r: Project)
    ensures
        r@ == detect_spec(*ws),
{
    if let Some(p) = detect_cargo_project(
        ws.has_cargo_toml,
        &ws.cargo_toml,
        ws.has_main_rs,
        ws.has_lib_rs,
    ) {
        return p;
    }
    if let Some(p) = detect_uv_project(ws.has_pyproject_toml, &ws.pyproject_toml) {
        return p;
    }
    if let Some(p) = detect_fpm_project(ws.has_fpm_toml, &ws.fpm_toml) {
        return p;
    }
    if let Some(p) = detect_fortran_project(&ws.fortran_sources) {
        return p;
    }
    let r = Project {
        project_type: String::from_str("unknown"),
        name: String::from_str("unknown"),
        version: String::from_str("unknown"),
        is_library: false,
        build_commands: BuildCommands {
            dev: String::from_str("unknown"),
            release: String::from_str("unknown"),
        },
        run_commands: RunCommands {
            dev: String::from_str("unknown"),
            release: String::from_str("unknown"),
        },
        is_rust_project: false,
        is_uv_project: false,
        is_fortran_project: false,
    };
    proof {
        assert(r@ =~= unknown_project_model());
    }
    r
}

/// Detection never marks a project as more than one kind: at most one of the
/// Rust, uv and Fortran flags is set, whatever the workspace holds.
pub proof fn lemma_detect_flags_exclusive(ws: Workspace)
    ensures
        ({
            let p = detect_spec(ws);
            &&& !(p.is_rust && p.is_uv)
            &&& !(p.is_rust && p.is_fortran)
            &&& !(p.is_uv && p.is_fortran)
        }),
{
}

// ---------------------------------------------------------------------------
// The resolver: cache first, detection as the fallback
// ---------------------------------------------------------------------------

/// What `get_or_create_project` promises for the resolved project and for
/// the text to persist, given the cache text (when the cache file was
/// readable) and the workspace snapshot.
pub open spec fn resolved_project(cache: Option<Seq<char>>, ws: Workspace) -> ProjectModel {
    match cache {
        Some(content) => {
            let p = cache_project_model(content);
            if p.run.dev == "unknown"@ || p.run.release == "unknown"@ {
                ProjectModel { run: detect_spec(ws).run, ..p }
            } else {
                p
            }
        },
        None => detect_spec(ws),
    }
}

pub open spec fn resolved_writes_cache(cache: Option<Seq<char>>) -> bool {
    match cache {
        Some(content) => {
            let p = cache_project_model(content);
            p.run.dev == "unknown"@ || p.run.release == "unknown"@
        },
        None => true,
    }
}

/// Resolve the project: parse the cache when it is there, re-detect the run
/// commands when the cached ones are unknown (the cached build commands are
/// kept untouched), and detect from scratch when there is no cache.  Beside
/// the project, returns the cache text to persist, when one is owed.
pub fn get_or_create_project(cache: &Option<String>, ws: &Workspace) -> (r: (
    Project,
    Option<String>,
))
    ensures
        r.0@ == resolved_project(cache.deep_view(), *ws),
        r.1 is Some <==> resolved_writes_cache(cache.deep_view()),
        r.1 matches Some(w) ==> w@ == toml_render_spec(r.0@),
{
    match cache {
        Some(content) => {
            let mut project = read_project_from_toml(content.as_str());
            let run_dev_unknown = crate::text::str_eq(
                project.run_commands.dev.as_str(),
                "unknown",
            );
            let run_release_unknown = crate::text::str_eq(
                project.run_commands.release.as_str(),
                "unknown",
            );
            if run_dev_unknown || run_release_unknown {
                let detected = detect_project_info(ws);
                project.run_commands = detected.run_commands;
                let text = write_project_to_toml(&project);
                proof {
                    assert(project@ =~= resolved_project(cache.deep_view(), *ws));
                }
                (project, Some(text))
            } else {
                (project, None)
            }
        },
        None => {
            let project = detect_project_info(ws);
            let text = write_project_to_toml(&project);
            (project, Some(text))
        },
    }
}

} // verus!
