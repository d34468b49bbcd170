use vstd::prelude::*;
use vstd::string::*;

use crate::cargo::opt_content;
use crate::project::{BuildCommands, CommandsModel, Project, ProjectModel, RunCommands};
use crate::text::{first_index_of, lemma_first_index_of_absent, lines_spec, split_lines,
    split_once_char, str_eq, trim, trim_quotes, trim_quotes_spec, trim_spec};

verus! {

// ---------------------------------------------------------------------------
// Scanning an fpm manifest for the package name
// ---------------------------------------------------------------------------

/// The value of the first `name = ...` line; "unknown" when no line parses.
pub open spec fn fpm_name_spec(lines: Seq<Seq<char>>) -> Seq<char>
    decreases lines.len(),
{
    if lines.len() == 0 {
        "unknown"@
    } else {
        let line = lines.first();
        let i = first_index_of(line, '=');
        if i >= 0 && trim_spec(line.subrange(0, i)) == "name"@ {
            trim_quotes_spec(trim_spec(line.subrange(i + 1, line.len() as int)))
        } else {
            fpm_name_spec(lines.drop_first())
        }
    }
}

pub open spec fn fpm_project_model(content: Seq<char>) -> ProjectModel {
    ProjectModel {
        project_type: "fpm"@,
        name: fpm_name_spec(lines_spec(content)),
        version: "0.1.0"@,
        is_library: false,
        build: CommandsModel { dev: "fpm build"@, release: "fpm build --profile release"@ },
        run: CommandsModel { dev: "fpm run"@, release: "fpm run --profile release"@ },
        is_rust: false,
        is_uv: false,
        is_fortran: true,
    }
}

/// Detect a Fortran project managed by fpm.  `has_fpm_toml` says whether an
/// `fpm.toml` exists; `fpm_toml` holds its text when readable.
pub fn detect_fpm_project(has_fpm_toml: bool, fpm_toml: &Option<String>) -> (r: Option<Project>)
    ensures
        r is Some <==> has_fpm_toml,
        has_fpm_toml ==> r.unwrap()@ == fpm_project_model(opt_content(fpm_toml.deep_view())),
{
    if !has_fpm_toml {
        return None;
    }
    let content: &str = match fpm_toml {
        Some(c) => c.as_str(),
        None => "",
    };
    proof {
        reveal_strlit("");
        assert(content@ =~= opt_content(fpm_toml.deep_view()));
    }
    let lines = split_lines(content);
    let mut name: &str = "unknown";
    let ghost dv = lines.deep_view();
    proof {
        assert(dv.skip(0) =~= dv);
    }
    let n = lines.len();
    let mut i: usize = 0;
    let mut found = false;
    while i < n && !found
        invariant
            n == lines@.len(),
            i <= n,
            dv == lines.deep_view(),
            lines.deep_view() == lines_spec(content@),
            !found ==> name@ == "unknown"@ && fpm_name_spec(dv) == fpm_name_spec(
                dv.skip(i as int),
            ),
            found ==> name@ == fpm_name_spec(dv),
        decreases n - i,
    {
        let line: &str = lines[i];
        proof {
            assert(dv.skip(i as int).first() == dv[i as int]);
            assert(dv[i as int] == lines@[i as int]@);
            assert(dv.skip(i as int).drop_first() =~= dv.skip(i + 1));
        }
        match split_once_char(line, '=') {
            Some((k, v)) => {
                let key = trim(k);
                if str_eq(key, "name") {
                    name = trim_quotes(trim(v));
                    found = true;
                }
            },
            None => {
                proof {
                    lemma_first_index_of_absent(dv[i as int], '=');
                }
            },
        }
        i += 1;
    }
    proof {
        if !found {
            assert(dv.skip(n as int) =~= Seq::<Seq<char>>::empty());
            reveal_strlit("unknown");
        }
    }
    Some(
        Project {
            project_type: String::from_str("fpm"),
            name: String::from_str(name),
            version: String::from_str("0.1.0"),
            is_library: false,
            build_commands: BuildCommands {
                dev: String::from_str("fpm build"),
                release: String::from_str("fpm build --profile release"),
            },
            run_commands: RunCommands {
                dev: String::from_str("fpm run"),
                release: String::from_str("fpm run --profile release"),
            },
            is_rust_project: false,
            is_uv_project: false,
            is_fortran_project: true,
        },
    )
}

} // verus!
