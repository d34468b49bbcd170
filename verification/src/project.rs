use vstd::prelude::*;
use vstd::string::*;

use crate::text::{
    contains_sub, contains_sub_spec, first_index_of, is_space_char, lemma_first_index_of_absent,
    lemma_first_index_of_found, lemma_lines_spec_step, lemma_trim_back_by, lemma_trim_front_by,
    lines_spec, quote_pred, space_pred, split_lines, split_once_char, str_eq, strip_cr, trim,
    trim_back_by, trim_front_by, trim_quotes, trim_quotes_spec, trim_spec,
};

verus! {

// ---------------------------------------------------------------------------
// The detected project and its mathematical model
// ---------------------------------------------------------------------------

pub struct BuildCommands {
    pub dev: String,
    pub release: String,
}

pub struct RunCommands {
    pub dev: String,
    pub release: String,
}

pub struct Project {
    pub project_type: String,
    pub name: String,
    pub version: String,
    pub is_library: bool,
    pub build_commands: BuildCommands,
    pub run_commands: RunCommands,
    pub is_rust_project: bool,
    pub is_uv_project: bool,
    pub is_fortran_project: bool,
}

#[verifier::ext_equal]
pub struct CommandsModel {
    pub dev: Seq<char>,
    pub release: Seq<char>,
}

#[verifier::ext_equal]
pub struct ProjectModel {
    pub project_type: Seq<char>,
    pub name: Seq<char>,
    pub version: Seq<char>,
    pub is_library: bool,
    pub build: CommandsModel,
    pub run: CommandsModel,
    pub is_rust: bool,
    pub is_uv: bool,
    pub is_fortran: bool,
}

impl View for BuildCommands {
    type V = CommandsModel;

    open spec fn view(&self) -> CommandsModel {
        CommandsModel { dev: self.dev@, release: self.release@ }
    }
}

impl View for RunCommands {
    type V = CommandsModel;

    open spec fn view(&self) -> CommandsModel {
        CommandsModel { dev: self.dev@, release: self.release@ }
    }
}

impl View for Project {
    type V = ProjectModel;

    open spec fn view(&self) -> ProjectModel {
        ProjectModel {
            project_type: self.project_type@,
            name: self.name@,
            version: self.version@,
            is_library: self.is_library,
            build: self.build_commands@,
            run: self.run_commands@,
            is_rust: self.is_rust_project,
            is_uv: self.is_uv_project,
            is_fortran: self.is_fortran_project,
        }
    }
}

// How the cache derives the project-kind flags from the type string.
pub open spec fn type_is_library(t: Seq<char>) -> bool {
    contains_sub_spec(t, "library"@)
}

pub open spec fn type_is_rust(t: Seq<char>) -> bool {
    contains_sub_spec(t, "app"@) || contains_sub_spec(t, "library"@)
}

pub open spec fn type_is_uv(t: Seq<char>) -> bool {
    t == "uv"@
}

pub open spec fn type_is_fortran(t: Seq<char>) -> bool {
    t == "llvm-f"@ || t == "fpm"@
}

/// The kind flags that the cache derives from a type string never overlap:
/// whatever the string, at most one of the Rust, uv and Fortran flags is set.
pub proof fn lemma_type_flags_exclusive(t: Seq<char>)
    ensures
        !(type_is_rust(t) && type_is_uv(t)),
        !(type_is_rust(t) && type_is_fortran(t)),
        !(type_is_uv(t) && type_is_fortran(t)),
{
    reveal_strlit("app");
    reveal_strlit("library");
    reveal_strlit("uv");
    reveal_strlit("llvm-f");
    reveal_strlit("fpm");
    assert("uv"@.len() != "llvm-f"@.len() && "uv"@.len() != "fpm"@.len());
    if t == "uv"@ || t == "llvm-f"@ || t == "fpm"@ {
        // none of the three type names holds an 'a', while "app" starts with
        // one, and all three are shorter than "library"
        assert(forall|j: int| 0 <= j < t.len() ==> t[j] != 'a');
        assert(!contains_sub_spec(t, "app"@)) by {
            if contains_sub_spec(t, "app"@) {
                let w = choose|w: int|
                    0 <= w && w + "app"@.len() <= t.len() && #[trigger] t.subrange(
                        w,
                        w + "app"@.len() as int,
                    ) == "app"@;
                assert(t.subrange(w, w + "app"@.len() as int)[0] == t[w]);
            }
        }
        assert(!contains_sub_spec(t, "library"@)) by {
            if contains_sub_spec(t, "library"@) {
                let w = choose|w: int|
                    0 <= w && w + "library"@.len() <= t.len() && #[trigger] t.subrange(
                        w,
                        w + "library"@.len() as int,
                    ) == "library"@;
            }
        }
    }
}

// ---------------------------------------------------------------------------
// Rendering a project as the persisted TOML text
// ---------------------------------------------------------------------------

pub open spec fn toml_render_spec(p: ProjectModel) -> Seq<char> {
    "[project]\ntype = \""@ + p.project_type + "\"\nname = \""@ + p.name + "\"\nversion = \""@
        + p.version + "\"\n\n[project.build]\ndev = \""@ + p.build.dev + "\"\nrelease = \""@
        + p.build.release + "\"\n\n[project.run]\ndev = \""@ + p.run.dev + "\"\nrelease = \""@
        + p.run.release + "\"\n"@
}

/// The TOML text that persists a detected project.
pub fn write_project_to_toml(project: &Project) -> (r: String)
    ensures
        r@ == toml_render_spec(project@),
{
    let mut s = String::new();
    s.append("[project]\ntype = \"");
    s.append(project.project_type.as_str());
    s.append("\"\nname = \"");
    s.append(project.name.as_str());
    s.append("\"\nversion = \"");
    s.append(project.version.as_str());
    s.append("\"\n\n[project.build]\ndev = \"");
    s.append(project.build_commands.dev.as_str());
    s.append("\"\nrelease = \"");
    s.append(project.build_commands.release.as_str());
    s.append("\"\n\n[project.run]\ndev = \"");
    s.append(project.run_commands.dev.as_str());
    s.append("\"\nrelease = \"");
    s.append(project.run_commands.release.as_str());
    s.append("\"\n");
    proof {
        assert(s@ =~= toml_render_spec(project@));
    }
    s
}

// ---------------------------------------------------------------------------
// Parsing the persisted TOML text back
// ---------------------------------------------------------------------------

#[verifier::ext_equal]
pub struct CacheScan {
    pub section: Seq<char>,
    pub project_type: Seq<char>,
    pub name: Seq<char>,
    pub version: Seq<char>,
    pub is_library: bool,
    pub build_dev: Seq<char>,
    pub build_release: Seq<char>,
    pub run_dev: Seq<char>,
    pub run_release: Seq<char>,
    pub is_rust: bool,
    pub is_uv: bool,
    pub is_fortran: bool,
}

pub open spec fn cache_scan_init() -> CacheScan {
    CacheScan {
        section: Seq::empty(),
        project_type: "unknown"@,
        name: "unknown"@,
        version: "unknown"@,
        is_library: false,
        build_dev: "unknown"@,
        build_release: "unknown"@,
        run_dev: "unknown"@,
        run_release: "unknown"@,
        is_rust: false,
        is_uv: false,
        is_fortran: false,
    }
}

pub open spec fn cache_scan_kv(st: CacheScan, key: Seq<char>, value: Seq<char>) -> CacheScan {
    if st.section == "project"@ {
        if key == "type"@ {
            CacheScan {
                project_type: value,
                is_library: type_is_library(value),
                is_rust: type_is_rust(value),
                is_uv: type_is_uv(value),
                is_fortran: type_is_fortran(value),
                ..st
            }
        } else if key == "name"@ {
            CacheScan { name: value, ..st }
        } else if key == "version"@ {
            CacheScan { version: value, ..st }
        } else {
            st
        }
    } else if st.section == "project.build"@ {
        if key == "dev"@ {
            CacheScan { build_dev: value, ..st }
        } else if key == "release"@ {
            CacheScan { build_release: value, ..st }
        } else {
            st
        }
    } else if st.section == "project.run"@ {
        if key == "dev"@ {
            CacheScan { run_dev: value, ..st }
        } else if key == "release"@ {
            CacheScan { run_release: value, ..st }
        } else {
            st
        }
    } else {
        st
    }
}

/// One line of the cache: blank lines and comments are skipped, `[...]`
/// headers switch the section, `key = "value"` lines are routed by section.
pub open spec fn cache_scan_step(st: CacheScan, line: Seq<char>) -> CacheScan {
    let t = trim_spec(line);
    if t.len() == 0 || t[0] == '#' {
        st
    } else if t[0] == '[' && t.last() == ']' {
        CacheScan { section: trim_spec(t.subrange(1, t.len() - 1)), ..st }
    } else {
        let i = first_index_of(t, '=');
        if i < 0 {
            st
        } else {
            let key = trim_spec(t.subrange(0, i));
            let value = trim_quotes_spec(trim_spec(t.subrange(i + 1, t.len() as int)));
            cache_scan_kv(st, key, value)
        }
    }
}

pub open spec fn cache_scan_lines(lines: Seq<Seq<char>>) -> CacheScan
    decreases lines.len(),
{
    if lines.len() == 0 {
        cache_scan_init()
    } else {
        cache_scan_step(cache_scan_lines(lines.drop_last()), lines.last())
    }
}

pub open spec fn scan_project_model(st: CacheScan) -> ProjectModel {
    ProjectModel {
        project_type: st.project_type,
        name: st.name,
        version: st.version,
        is_library: st.is_library,
        build: CommandsModel { dev: st.build_dev, release: st.build_release },
        run: CommandsModel { dev: st.run_dev, release: st.run_release },
        is_rust: st.is_rust,
        is_uv: st.is_uv,
        is_fortran: st.is_fortran,
    }
}

/// The project that the persisted TOML text `content` describes.
pub open spec fn cache_project_model(content: Seq<char>) -> ProjectModel {
    scan_project_model(cache_scan_lines(lines_spec(content)))
}

/// Rebuild a project from the text of the persisted cache file.  Unknown
/// sections and keys are ignored; missing fields keep the value "unknown".
pub fn read_project_from_toml(content: &str) -> (r: Project)
    ensures
        r@ == cache_project_model(content@),
{
    let lines = split_lines(content);
    let mut section: &str = "";
    let mut project_type: &str = "unknown";
    let mut name: &str = "unknown";
    let mut version: &str = "unknown";
    let mut is_library = false;
    let mut build_dev: &str = "unknown";
    let mut build_release: &str = "unknown";
    let mut run_dev: &str = "unknown";
    let mut run_release: &str = "unknown";
    let mut is_rust = false;
    let mut is_uv = false;
    let mut is_fortran = false;
    proof {
        reveal_strlit("");
        assert(lines.deep_view().take(0) =~= Seq::<Seq<char>>::empty());
        assert(""@ =~= Seq::<char>::empty());
    }
    let n = lines.len();
    let mut i: usize = 0;
    while i < n
        invariant
            n == lines@.len(),
            i <= n,
            lines.deep_view() == lines_spec(content@),
            ({
                let st = cache_scan_lines(lines.deep_view().take(i as int));
                &&& section@ == st.section
                &&& project_type@ == st.project_type
                &&& name@ == st.name
                &&& version@ == st.version
                &&& is_library == st.is_library
                &&& build_dev@ == st.build_dev
                &&& build_release@ == st.build_release
                &&& run_dev@ == st.run_dev
                &&& run_release@ == st.run_release
                &&& is_rust == st.is_rust
                &&& is_uv == st.is_uv
                &&& is_fortran == st.is_fortran
            }),
        decreases n - i,
    {
        let ghost dv = lines.deep_view();
        proof {
            assert(dv.take(i + 1).drop_last() =~= dv.take(i as int));
            assert(dv.take(i + 1).last() == dv[i as int]);
            assert(dv[i as int] == lines@[i as int]@);
        }
        let line: &str = lines[i];
        let t = trim(line);
        let tn = t.unicode_len();
        if tn == 0 {
            // blank line: state unchanged
        } else if t.get_char(0) == '#' {
            // comment: state unchanged
        } else if t.get_char(0) == '[' && t.get_char(tn - 1) == ']' {
            section = trim(t.substring_char(1, tn - 1));
        } else {
            match split_once_char(t, '=') {
                Some((k, v)) => {
                    let key = trim(k);
                    let value = trim_quotes(trim(v));
                    if str_eq(section, "project") {
                        if str_eq(key, "type") {
                            project_type = value;
                            is_library = contains_sub(value, "library");
                            is_rust = contains_sub(value, "app") || contains_sub(
                                value,
                                "library",
                            );
                            is_uv = str_eq(value, "uv");
                            is_fortran = str_eq(value, "llvm-f") || str_eq(value, "fpm");
                        } else if str_eq(key, "name") {
                            name = value;
                        } else if str_eq(key, "version") {
                            version = value;
                        }
                    } else if str_eq(section, "project.build") {
                        if str_eq(key, "dev") {
                            build_dev = value;
                        } else if str_eq(key, "release") {
                            build_release = value;
                        }
                    } else if str_eq(section, "project.run") {
                        if str_eq(key, "dev") {
                            run_dev = value;
                        } else if str_eq(key, "release") {
                            run_release = value;
                        }
                    }
                },
                None => {
                    proof {
                        lemma_first_index_of_absent(trim_spec(dv[i as int]), '=');
                    }
                },
            }
        }
        i += 1;
    }
    proof {
        assert(lines.deep_view().take(n as int) =~= lines.deep_view());
    }
    Project {
        project_type: String::from_str(project_type),
        name: String::from_str(name),
        version: String::from_str(version),
        is_library,
        build_commands: BuildCommands {
            dev: String::from_str(build_dev),
            release: String::from_str(build_release),
        },
        run_commands: RunCommands {
            dev: String::from_str(run_dev),
            release: String::from_str(run_release),
        },
        is_rust_project: is_rust,
        is_uv_project: is_uv,
        is_fortran_project: is_fortran,
    }
}

// ---------------------------------------------------------------------------
// The cache round trip
// ---------------------------------------------------------------------------

/// A field value survives the cache format when it holds no newline and no
/// double quote.  A carriage return inside a field is harmless: the closing
/// quote stands between it and the line end, so neither line splitting nor
/// trimming reaches it.
pub open spec fn cache_safe_field(s: Seq<char>) -> bool {
    forall|i: int| 0 <= i < s.len() ==> s[i] != '\n' && s[i] != '"'
}

pub open spec fn cache_safe(p: ProjectModel) -> bool {
    &&& cache_safe_field(p.project_type)
    &&& cache_safe_field(p.name)
    &&& cache_safe_field(p.version)
    &&& cache_safe_field(p.build.dev)
    &&& cache_safe_field(p.build.release)
    &&& cache_safe_field(p.run.dev)
    &&& cache_safe_field(p.run.release)
}

/// Splitting off one rendered line.
proof fn lemma_lines_prepend(a: Seq<char>, rest: Seq<char>)
    requires
        forall|j: int| 0 <= j < a.len() ==> a[j] != '\n',
        a.len() == 0 || a.last() != '\r',
    ensures
        lines_spec(a + seq!['\n'] + rest) == seq![a] + lines_spec(rest),
{
    let s = a + seq!['\n'] + rest;
    assert(s[a.len() as int] == '\n');
    assert(forall|j: int| 0 <= j < a.len() ==> s[j] == a[j]);
    lemma_lines_spec_step(s, a.len() as int);
    assert(s.subrange(0, a.len() as int) =~= a);
    assert(strip_cr(a) == a);
    assert(s.subrange(a.len() as int + 1, s.len() as int) =~= rest);
}

/// A line that splitting can recover: no newline inside, no carriage return
/// at the end.
spec fn line_ok(l: Seq<char>) -> bool {
    (forall|j: int| 0 <= j < l.len() ==> l[j] != '\n') && (l.len() == 0 || l.last() != '\r')
}

/// The lines, each followed by one newline, as one text.
spec fn joined(lines: Seq<Seq<char>>) -> Seq<char>
    decreases lines.len(),
{
    if lines.len() == 0 {
        Seq::empty()
    } else {
        lines.first() + seq!['\n'] + joined(lines.drop_first())
    }
}

/// Splitting the joined text recovers the lines.
proof fn lemma_join_lines(lines: Seq<Seq<char>>)
    requires
        forall|k: int| 0 <= k < lines.len() ==> line_ok(#[trigger] lines[k]),
    ensures
        lines_spec(joined(lines)) == lines,
    decreases lines.len(),
{
    if lines.len() == 0 {
    } else {
        lemma_join_lines(lines.drop_first());
        lemma_lines_prepend(lines.first(), joined(lines.drop_first()));
        assert(seq![lines.first()] + lines.drop_first() =~= lines);
    }
}

/// The twelve lines of the rendered cache text.
spec fn render_lines(p: ProjectModel) -> Seq<Seq<char>> {
    seq![
        "["@ + "project"@ + "]"@,
        "type"@ + " = \""@ + p.project_type + "\""@,
        "name"@ + " = \""@ + p.name + "\""@,
        "version"@ + " = \""@ + p.version + "\""@,
        Seq::<char>::empty(),
        "["@ + "project.build"@ + "]"@,
        "dev"@ + " = \""@ + p.build.dev + "\""@,
        "release"@ + " = \""@ + p.build.release + "\""@,
        Seq::<char>::empty(),
        "["@ + "project.run"@ + "]"@,
        "dev"@ + " = \""@ + p.run.dev + "\""@,
        "release"@ + " = \""@ + p.run.release + "\""@,
    ]
}

/// The rendered text is those lines, joined.
#[verifier::rlimit(100)]
proof fn lemma_render_joined(p: ProjectModel)
    ensures
        toml_render_spec(p) == joined(render_lines(p)),
{
    reveal_strlit("[");
    reveal_strlit("]");
    reveal_strlit(" = \"");
    reveal_strlit("\"");
    reveal_strlit("project");
    reveal_strlit("project.build");
    reveal_strlit("project.run");
    reveal_strlit("type");
    reveal_strlit("name");
    reveal_strlit("version");
    reveal_strlit("dev");
    reveal_strlit("release");
    reveal_strlit("[project]\ntype = \"");
    reveal_strlit("\"\nname = \"");
    reveal_strlit("\"\nversion = \"");
    reveal_strlit("\"\n\n[project.build]\ndev = \"");
    reveal_strlit("\"\nrelease = \"");
    reveal_strlit("\"\n\n[project.run]\ndev = \"");
    reveal_strlit("\"\n");
    let lines = render_lines(p);
    let nl = seq!['\n'];
    let t11 = lines[11] + nl + Seq::<char>::empty();
    let t10 = lines[10] + nl + t11;
    let t9 = lines[9] + nl + t10;
    let t8 = lines[8] + nl + t9;
    let t7 = lines[7] + nl + t8;
    let t6 = lines[6] + nl + t7;
    let t5 = lines[5] + nl + t6;
    let t4 = lines[4] + nl + t5;
    let t3 = lines[3] + nl + t4;
    let t2 = lines[2] + nl + t3;
    let t1 = lines[1] + nl + t2;
    let t0 = lines[0] + nl + t1;
    assert(lines.subrange(11, 12).drop_first() =~= lines.subrange(12, 12));
    assert(lines.subrange(10, 12).drop_first() =~= lines.subrange(11, 12));
    assert(lines.subrange(9, 12).drop_first() =~= lines.subrange(10, 12));
    assert(lines.subrange(8, 12).drop_first() =~= lines.subrange(9, 12));
    assert(lines.subrange(7, 12).drop_first() =~= lines.subrange(8, 12));
    assert(lines.subrange(6, 12).drop_first() =~= lines.subrange(7, 12));
    assert(lines.subrange(5, 12).drop_first() =~= lines.subrange(6, 12));
    assert(lines.subrange(4, 12).drop_first() =~= lines.subrange(5, 12));
    assert(lines.subrange(3, 12).drop_first() =~= lines.subrange(4, 12));
    assert(lines.subrange(2, 12).drop_first() =~= lines.subrange(3, 12));
    assert(lines.subrange(1, 12).drop_first() =~= lines.subrange(2, 12));
    assert(lines.subrange(0, 12) =~= lines);
    assert(lines.subrange(0, 12).drop_first() =~= lines.subrange(1, 12));
    assert(joined(lines.subrange(12, 12)) == Seq::<char>::empty());
    assert(joined(lines.subrange(11, 12)) == t11);
    assert(joined(lines.subrange(10, 12)) == t10);
    assert(joined(lines.subrange(9, 12)) == t9);
    assert(joined(lines.subrange(8, 12)) == t8);
    assert(joined(lines.subrange(7, 12)) == t7);
    assert(joined(lines.subrange(6, 12)) == t6);
    assert(joined(lines.subrange(5, 12)) == t5);
    assert(joined(lines.subrange(4, 12)) == t4);
    assert(joined(lines.subrange(3, 12)) == t3);
    assert(joined(lines.subrange(2, 12)) == t2);
    assert(joined(lines.subrange(1, 12)) == t1);
    assert(joined(lines) == t0);
    assert(toml_render_spec(p) =~= t0);
}

/// What the scanner makes of one rendered `key = "value"` line.
proof fn lemma_scan_kv_line(st: CacheScan, key: Seq<char>, value: Seq<char>)
    requires
        key.len() > 0,
        forall|j: int|
            0 <= j < key.len() ==> key[j] != '=' && !is_space_char(key[j]) && key[j] != '\"',
        key[0] != '#',
        key[0] != '[',
        cache_safe_field(value),
    ensures
        cache_scan_step(st, key + " = \""@ + value + "\""@) == cache_scan_kv(st, key, value),
        line_ok(key + " = \""@ + value + "\""@),
{
    reveal_strlit(" = \"");
    reveal_strlit("\"");
    let mid = " = \""@;
    let quote = "\""@;
    let line = key + mid + value + quote;
    assert(mid.len() == 4);
    assert(mid[0] == ' ' && mid[1] == '=' && mid[2] == ' ' && mid[3] == '\"');
    assert(quote.len() == 1 && quote[0] == '\"');
    assert(line.last() == '\"');
    assert(line[0] == key[0]);
    assert(forall|j: int| 0 <= j < line.len() ==> line[j] != '\n');
    // the whole line survives trimming
    assert(trim_front_by(line, space_pred()) == line.subrange(0, line.len() as int)) by {
        lemma_trim_front_by(line, space_pred(), 0);
    }
    assert(line.subrange(0, line.len() as int) =~= line);
    assert(trim_back_by(line, space_pred()) == line.subrange(0, line.len() as int)) by {
        lemma_trim_back_by(line, space_pred(), line.len() as int);
    }
    assert(trim_spec(line) == line);
    // the first equals sign sits right after the key
    let eq = key.len() as int + 1;
    assert(line[eq] == '=');
    assert(forall|j: int| 0 <= j < eq ==> line[j] != '=');
    lemma_first_index_of_found(line, '=', eq);
    // the key side trims back to the key
    let kpart = line.subrange(0, eq);
    assert(kpart =~= key + seq![' ']);
    assert(trim_front_by(kpart, space_pred()) == kpart.subrange(0, kpart.len() as int)) by {
        lemma_trim_front_by(kpart, space_pred(), 0);
    }
    assert(kpart.subrange(0, kpart.len() as int) =~= kpart);
    assert(trim_back_by(kpart, space_pred()) == kpart.subrange(0, key.len() as int)) by {
        assert(key.len() == 0 || !is_space_char(kpart[key.len() - 1]));
        lemma_trim_back_by(kpart, space_pred(), key.len() as int);
    }
    assert(kpart.subrange(0, key.len() as int) =~= key);
    assert(trim_spec(kpart) == key);
    // the value side trims to the quoted value, and loses its quotes
    let vpart = line.subrange(eq + 1, line.len() as int);
    assert(vpart =~= seq![' ', '\"'] + value + seq!['\"']);
    let q1 = seq!['\"'] + value + seq!['\"'];
    assert(trim_front_by(vpart, space_pred()) == vpart.subrange(1, vpart.len() as int)) by {
        assert(is_space_char(vpart[0]));
        assert(!is_space_char(vpart[1]));
        lemma_trim_front_by(vpart, space_pred(), 1);
    }
    assert(vpart.subrange(1, vpart.len() as int) =~= q1);
    assert(trim_back_by(q1, space_pred()) == q1.subrange(0, q1.len() as int)) by {
        assert(!is_space_char(q1.last()));
        lemma_trim_back_by(q1, space_pred(), q1.len() as int);
    }
    assert(q1.subrange(0, q1.len() as int) =~= q1);
    assert(trim_spec(vpart) == q1);
    if value.len() == 0 {
        assert(q1 =~= seq!['\"', '\"']);
        assert(trim_front_by(q1, quote_pred()) == q1.subrange(2, 2)) by {
            lemma_trim_front_by(q1, quote_pred(), 2);
        }
        assert(q1.subrange(2, 2) =~= value);
        assert(trim_back_by(value, quote_pred()) == value);
        assert(trim_quotes_spec(q1) == value);
    } else {
        assert(trim_front_by(q1, quote_pred()) == q1.subrange(1, q1.len() as int)) by {
            assert(q1[0] == '\"');
            assert(q1[1] == value[0]);
            assert(q1[1] != '\"');
            lemma_trim_front_by(q1, quote_pred(), 1);
        }
        let q2 = q1.subrange(1, q1.len() as int);
        assert(q2 =~= value + seq!['\"']);
        assert(trim_back_by(q2, quote_pred()) == q2.subrange(0, value.len() as int)) by {
            assert(q2[value.len() as int] == '\"');
            assert(q2[value.len() - 1] == value.last());
            assert(value.last() != '\"');
            lemma_trim_back_by(q2, quote_pred(), value.len() as int);
        }
        assert(q2.subrange(0, value.len() as int) =~= value);
        assert(trim_quotes_spec(q1) == value);
    }
    assert(cache_scan_step(st, line) == cache_scan_kv(st, key, value));
}

/// What the scanner makes of one rendered `[name]` header line.
proof fn lemma_scan_header_line(st: CacheScan, name: Seq<char>)
    requires
        name.len() > 0,
        forall|j: int| 0 <= j < name.len() ==> !is_space_char(name[j]),
    ensures
        cache_scan_step(st, "["@ + name + "]"@) == (CacheScan { section: name, ..st }),
        line_ok("["@ + name + "]"@),
{
    reveal_strlit("[");
    reveal_strlit("]");
    let line = "["@ + name + "]"@;
    assert(line[0] == '[');
    assert(line.last() == ']');
    assert(forall|j: int| 0 <= j < line.len() ==> line[j] != '\n');
    assert(trim_front_by(line, space_pred()) == line.subrange(0, line.len() as int)) by {
        lemma_trim_front_by(line, space_pred(), 0);
    }
    assert(line.subrange(0, line.len() as int) =~= line);
    assert(trim_back_by(line, space_pred()) == line.subrange(0, line.len() as int)) by {
        lemma_trim_back_by(line, space_pred(), line.len() as int);
    }
    assert(trim_spec(line) == line);
    let inner = line.subrange(1, line.len() - 1);
    assert(inner =~= name);
    assert(trim_front_by(name, space_pred()) == name.subrange(0, name.len() as int)) by {
        lemma_trim_front_by(name, space_pred(), 0);
    }
    assert(name.subrange(0, name.len() as int) =~= name);
    assert(trim_back_by(name, space_pred()) == name.subrange(0, name.len() as int)) by {
        lemma_trim_back_by(name, space_pred(), name.len() as int);
    }
    assert(trim_spec(name) == name);
    assert(cache_scan_step(st, line) == (CacheScan { section: name, ..st }));
}

/// The scanner, folded over the twelve rendered lines, recovers the fields.
#[verifier::rlimit(100)]
proof fn lemma_scan_render_lines(p: ProjectModel)
    requires
        cache_safe(p),
    ensures
        ({
            let st = cache_scan_lines(render_lines(p));
            &&& st.project_type == p.project_type
            &&& st.name == p.name
            &&& st.version == p.version
            &&& st.build_dev == p.build.dev
            &&& st.build_release == p.build.release
            &&& st.run_dev == p.run.dev
            &&& st.run_release == p.run.release
        }),
        forall|k: int| 0 <= k < render_lines(p).len() ==> line_ok(#[trigger] render_lines(p)[k]),
{
    reveal_strlit("project");
    reveal_strlit("project.build");
    reveal_strlit("project.run");
    reveal_strlit("type");
    reveal_strlit("name");
    reveal_strlit("version");
    reveal_strlit("dev");
    reveal_strlit("release");
    let lines = render_lines(p);
    // every name and key qualifies for the line lemmas
    assert(forall|j: int| 0 <= j < "project"@.len() ==> !is_space_char("project"@[j]));
    assert(forall|j: int|
        0 <= j < "project.build"@.len() ==> !is_space_char("project.build"@[j]));
    assert(forall|j: int| 0 <= j < "project.run"@.len() ==> !is_space_char("project.run"@[j]));
    assert(forall|j: int|
        0 <= j < "type"@.len() ==> "type"@[j] != '=' && !is_space_char("type"@[j]) && "type"@[j]
            != '\"');
    assert(forall|j: int|
        0 <= j < "name"@.len() ==> "name"@[j] != '=' && !is_space_char("name"@[j]) && "name"@[j]
            != '\"');
    assert(forall|j: int|
        0 <= j < "version"@.len() ==> "version"@[j] != '=' && !is_space_char("version"@[j])
            && "version"@[j] != '\"');
    assert(forall|j: int|
        0 <= j < "dev"@.len() ==> "dev"@[j] != '=' && !is_space_char("dev"@[j]) && "dev"@[j]
            != '\"');
    assert(forall|j: int|
        0 <= j < "release"@.len() ==> "release"@[j] != '=' && !is_space_char("release"@[j])
            && "release"@[j] != '\"');
    // the scanner steps, one line at a time
    let st0 = cache_scan_init();
    let st1 = cache_scan_step(st0, lines[0]);
    let st2 = cache_scan_step(st1, lines[1]);
    let st3 = cache_scan_step(st2, lines[2]);
    let st4 = cache_scan_step(st3, lines[3]);
    let st5 = cache_scan_step(st4, lines[4]);
    let st6 = cache_scan_step(st5, lines[5]);
    let st7 = cache_scan_step(st6, lines[6]);
    let st8 = cache_scan_step(st7, lines[7]);
    let st9 = cache_scan_step(st8, lines[8]);
    let st10 = cache_scan_step(st9, lines[9]);
    let st11 = cache_scan_step(st10, lines[10]);
    let st12 = cache_scan_step(st11, lines[11]);
    lemma_scan_header_line(st0, "project"@);
    lemma_scan_kv_line(st1, "type"@, p.project_type);
    lemma_scan_kv_line(st2, "name"@, p.name);
    lemma_scan_kv_line(st3, "version"@, p.version);
    lemma_scan_header_line(st5, "project.build"@);
    lemma_scan_kv_line(st6, "dev"@, p.build.dev);
    lemma_scan_kv_line(st7, "release"@, p.build.release);
    lemma_scan_header_line(st9, "project.run"@);
    lemma_scan_kv_line(st10, "dev"@, p.run.dev);
    lemma_scan_kv_line(st11, "release"@, p.run.release);
    // the blank lines change nothing
    assert(trim_spec(Seq::<char>::empty()) == Seq::<char>::empty());
    assert(st5 == st4);
    assert(st9 == st8);
    assert(line_ok(Seq::<char>::empty()));
    // the routing comparisons
    assert("project"@ != "project.build"@ && "project"@ != "project.run"@);
    assert("project.build"@ != "project.run"@);
    assert("type"@ != "name"@ && "type"@ != "version"@ && "name"@ != "version"@);
    assert("dev"@ != "type"@ && "dev"@ != "name"@ && "dev"@ != "version"@);
    assert("release"@ != "type"@ && "release"@ != "name"@ && "release"@ != "version"@);
    assert("dev"@ != "release"@);
    // fold over the lines, peeled from the back
    assert(lines.subrange(0, 0) =~= Seq::<Seq<char>>::empty());
    assert(lines.subrange(0, 1).drop_last() =~= lines.subrange(0, 0));
    assert(lines.subrange(0, 2).drop_last() =~= lines.subrange(0, 1));
    assert(lines.subrange(0, 3).drop_last() =~= lines.subrange(0, 2));
    assert(lines.subrange(0, 4).drop_last() =~= lines.subrange(0, 3));
    assert(lines.subrange(0, 5).drop_last() =~= lines.subrange(0, 4));
    assert(lines.subrange(0, 6).drop_last() =~= lines.subrange(0, 5));
    assert(lines.subrange(0, 7).drop_last() =~= lines.subrange(0, 6));
    assert(lines.subrange(0, 8).drop_last() =~= lines.subrange(0, 7));
    assert(lines.subrange(0, 9).drop_last() =~= lines.subrange(0, 8));
    assert(lines.subrange(0, 10).drop_last() =~= lines.subrange(0, 9));
    assert(lines.subrange(0, 11).drop_last() =~= lines.subrange(0, 10));
    assert(lines.subrange(0, 12) =~= lines);
    assert(lines.subrange(0, 12).drop_last() =~= lines.subrange(0, 11));
    assert(cache_scan_lines(lines.subrange(0, 0)) == st0);
    assert(cache_scan_lines(lines.subrange(0, 1)) == st1);
    assert(cache_scan_lines(lines.subrange(0, 2)) == st2);
    assert(cache_scan_lines(lines.subrange(0, 3)) == st3);
    assert(cache_scan_lines(lines.subrange(0, 4)) == st4);
    assert(cache_scan_lines(lines.subrange(0, 5)) == st5);
    assert(cache_scan_lines(lines.subrange(0, 6)) == st6);
    assert(cache_scan_lines(lines.subrange(0, 7)) == st7);
    assert(cache_scan_lines(lines.subrange(0, 8)) == st8);
    assert(cache_scan_lines(lines.subrange(0, 9)) == st9);
    assert(cache_scan_lines(lines.subrange(0, 10)) == st10);
    assert(cache_scan_lines(lines.subrange(0, 11)) == st11);
    assert(cache_scan_lines(lines) == st12);
}

/// Writing a project to the persisted cache format and reading it back gives
/// the same type, name, version, build commands and run commands, character
/// for character, whenever the fields hold no newline and no double quote.
pub proof fn lemma_cache_round_trip(p: ProjectModel)
    requires
        cache_safe(p),
    ensures
        ({
            let q = cache_project_model(toml_render_spec(p));
            &&& q.project_type == p.project_type
            &&& q.name == p.name
            &&& q.version == p.version
            &&& q.build == p.build
            &&& q.run == p.run
        }),
{
    lemma_render_joined(p);
    lemma_scan_render_lines(p);
    lemma_join_lines(render_lines(p));
    let q = cache_project_model(toml_render_spec(p));
    assert(q.build =~= p.build);
    assert(q.run =~= p.run);
}

// ---------------------------------------------------------------------------
// The operating-system display name
// ---------------------------------------------------------------------------

pub open spec fn format_os_name_spec(os: Seq<char>) -> Seq<char> {
    if os == "macos"@ {
        "macOS"@
    } else if os == "linux"@ {
        "Linux"@
    } else if os == "windows"@ {
        "Windows"@
    } else {
        os
    }
}

/// Display form of an operating-system identifier.
pub fn format_os_name(os: &str) -> (r: String)
    ensures
        r@ == format_os_name_spec(os@),
{
    if str_eq(os, "macos") {
        String::from_str("macOS")
    } else if str_eq(os, "linux") {
        String::from_str("Linux")
    } else if str_eq(os, "windows") {
        String::from_str("Windows")
    } else {
        String::from_str(os)
    }
}

} // verus!
