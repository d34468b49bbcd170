use vstd::prelude::*;
use vstd::string::*;

use crate::project::{BuildCommands, CommandsModel, Project, ProjectModel, RunCommands};
use crate::text::{contains_sub, contains_sub_spec, lines_spec, lower_seq, split_lines,
    split_whitespace_vec, split_ws_spec, starts_with, starts_with_spec, str_eq,
    strip_prefix_all, strip_prefix_rep, to_lowercase_ascii, trim, trim_spec};

verus! {

// ---------------------------------------------------------------------------
// File names: extension and stem
// ---------------------------------------------------------------------------

pub open spec fn last_index_of(s: Seq<char>, c: char) -> int
    decreases s.len(),
{
    if s.len() == 0 {
        -1
    } else if s.last() == c {
        s.len() - 1
    } else {
        last_index_of(s.drop_last(), c)
    }
}

pub proof fn lemma_last_index_of_found(s: Seq<char>, c: char, i: int)
    requires
        0 <= i < s.len(),
        s[i] == c,
        forall|j: int| i < j < s.len() ==> s[j] != c,
    ensures
        last_index_of(s, c) == i,
    decreases s.len(),
{
    if i < s.len() - 1 {
        assert(forall|j: int| i < j < s.drop_last().len() ==> s.drop_last()[j] != c);
        lemma_last_index_of_found(s.drop_last(), c, i);
    }
}

pub proof fn lemma_last_index_of_absent(s: Seq<char>, c: char)
    requires
        forall|j: int| 0 <= j < s.len() ==> s[j] != c,
    ensures
        last_index_of(s, c) == -1,
    decreases s.len(),
{
    if s.len() > 0 {
        assert(forall|j: int| 0 <= j < s.drop_last().len() ==> s.drop_last()[j] != c);
        lemma_last_index_of_absent(s.drop_last(), c);
    }
}

/// Last position of `c` in `s`.
pub fn find_last_char(s: &str, c: char) -> (r: Option<usize>)
    ensures
        match r {
            Some(i) => i < s@.len() && last_index_of(s@, c) == i,
            None => last_index_of(s@, c) == -1,
        },
{
    let n = s.unicode_len();
    let mut j: usize = n;
    while j > 0
        invariant
            n == s@.len(),
            j <= n,
            forall|t: int| j <= t < n ==> s@[t] != c,
        decreases j,
    {
        if s.get_char(j - 1) == c {
            proof {
                lemma_last_index_of_found(s@, c, j - 1);
            }
            return Some(j - 1);
        }
        j -= 1;
    }
    proof {
        lemma_last_index_of_absent(s@, c);
    }
    None
}

/// The extension: what follows the last dot, when that dot is not the first
/// character; empty otherwise.
pub open spec fn ext_spec(name: Seq<char>) -> Seq<char> {
    let k = last_index_of(name, '.');
    if k > 0 {
        name.subrange(k + 1, name.len() as int)
    } else {
        Seq::empty()
    }
}

/// The stem: what precedes the last dot, when that dot is not the first
/// character; the whole name otherwise.
pub open spec fn stem_spec(name: Seq<char>) -> Seq<char> {
    let k = last_index_of(name, '.');
    if k > 0 {
        name.subrange(0, k)
    } else {
        name
    }
}

pub open spec fn is_fortran_ext(e: Seq<char>) -> bool {
    e == "f90"@ || e == "f"@ || e == "F90"@ || e == "F"@
}

/// True when the file name carries a Fortran source extension.
pub fn is_fortran_file(name: &str) -> (r: bool)
    ensures
        r == is_fortran_ext(ext_spec(name@)),
{
    let n = name.unicode_len();
    let ext: &str = match find_last_char(name, '.') {
        Some(k) if k > 0 => name.substring_char(k + 1, n),
        _ => "",
    };
    proof {
        reveal_strlit("");
        assert(""@ =~= Seq::<char>::empty());
    }
    str_eq(ext, "f90") || str_eq(ext, "f") || str_eq(ext, "F90") || str_eq(ext, "F")
}

pub fn file_stem<'a>(name: &'a str) -> (r: &'a str)
    ensures
        r@ == stem_spec(name@),
{
    match find_last_char(name, '.') {
        Some(k) if k > 0 => name.substring_char(0, k),
        _ => name,
    }
}

// ---------------------------------------------------------------------------
// Fortran sources handed in by the caller
// ---------------------------------------------------------------------------

pub struct SourceFile {
    pub name: String,
    pub content: String,
}

#[verifier::ext_equal]
pub struct SourceFileModel {
    pub name: Seq<char>,
    pub content: Seq<char>,
}

impl View for SourceFile {
    type V = SourceFileModel;

    open spec fn view(&self) -> SourceFileModel {
        SourceFileModel { name: self.name@, content: self.content@ }
    }
}

impl DeepView for SourceFile {
    type V = SourceFileModel;

    open spec fn deep_view(&self) -> SourceFileModel {
        self.view()
    }
}

// ---------------------------------------------------------------------------
// Finding the main program file
// ---------------------------------------------------------------------------

/// A line that, trimmed and lowercased, opens a Fortran main program.
pub open spec fn line_is_program(line: Seq<char>) -> bool {
    starts_with_spec(lower_seq(trim_spec(line)), "program "@)
}

pub open spec fn has_program_line(content: Seq<char>) -> bool {
    exists|j: int|
        0 <= j < lines_spec(content).len() && line_is_program(#[trigger] lines_spec(content)[j])
}

pub fn content_has_program_line(content: &str) -> (r: bool)
    ensures
        r == has_program_line(content@),
{
    let lines = split_lines(content);
    let ghost dv = lines.deep_view();
    let n = lines.len();
    let mut i: usize = 0;
    while i < n
        invariant
            n == lines@.len(),
            i <= n,
            dv == lines.deep_view(),
            lines.deep_view() == lines_spec(content@),
            forall|j: int| 0 <= j < i ==> !line_is_program(#[trigger] dv[j]),
        decreases n - i,
    {
        let line: &str = lines[i];
        proof {
            assert(dv[i as int] == lines@[i as int]@);
        }
        let low = to_lowercase_ascii(trim(line));
        if starts_with(low.as_str(), "program ") {
            return true;
        }
        i += 1;
    }
    false
}

/// Index of the first source whose content holds a program line.
pub open spec fn main_index(sources: Seq<SourceFileModel>) -> int
    decreases sources.len(),
{
    if sources.len() == 0 {
        -1
    } else if has_program_line(sources.first().content) {
        0
    } else {
        let r = main_index(sources.drop_first());
        if r < 0 {
            -1
        } else {
            r + 1
        }
    }
}

pub proof fn lemma_main_index_found(sources: Seq<SourceFileModel>, i: int)
    requires
        0 <= i < sources.len(),
        has_program_line(sources[i].content),
        forall|j: int| 0 <= j < i ==> !has_program_line(#[trigger] sources[j].content),
    ensures
        main_index(sources) == i,
    decreases sources.len(),
{
    if i > 0 {
        assert(forall|j: int|
            0 <= j < i - 1 ==> !has_program_line(
                #[trigger] sources.drop_first()[j].content,
            ));
        lemma_main_index_found(sources.drop_first(), i - 1);
    }
}

pub proof fn lemma_main_index_absent(sources: Seq<SourceFileModel>)
    requires
        forall|j: int| 0 <= j < sources.len() ==> !has_program_line(#[trigger] sources[j].content),
    ensures
        main_index(sources) == -1,
    decreases sources.len(),
{
    if sources.len() > 0 {
        assert(forall|j: int|
            0 <= j < sources.drop_first().len() ==> !has_program_line(
                #[trigger] sources.drop_first()[j].content,
            ));
        lemma_main_index_absent(sources.drop_first());
    }
}

/// The first source file, in the order given, that declares a main program.
pub fn find_main_program_file(sources: &Vec<SourceFile>) -> (r: Option<usize>)
    ensures
        match r {
            Some(i) => i < sources@.len() && main_index(sources.deep_view()) == i,
            None => main_index(sources.deep_view()) == -1,
        },
{
    let ghost dv = sources.deep_view();
    let n = sources.len();
    let mut i: usize = 0;
    while i < n
        invariant
            n == sources@.len(),
            i <= n,
            dv == sources.deep_view(),
            forall|j: int| 0 <= j < i ==> !has_program_line(#[trigger] dv[j].content),
        decreases n - i,
    {
        proof {
            assert(dv[i as int] == sources@[i as int]@);
        }
        if content_has_program_line(sources[i].content.as_str()) {
            proof {
                lemma_main_index_found(dv, i as int);
            }
            return Some(i);
        }
        i += 1;
    }
    proof {
        lemma_main_index_absent(dv);
    }
    None
}

// ---------------------------------------------------------------------------
// The detected bare Fortran project
// ---------------------------------------------------------------------------

pub open spec fn fortran_project_model(stem: Seq<char>) -> ProjectModel {
    ProjectModel {
        project_type: "llvm-f"@,
        name: stem,
        version: "0.1.0"@,
        is_library: false,
        build: CommandsModel {
            dev: "mkdir -p target/dev && flang -g -o target/dev/"@ + stem + ".out "@ + stem
                + ".f90"@,
            release: "mkdir -p target/release && flang -O3 -o target/release/"@ + stem + ".out "@
                + stem + ".f90"@,
        },
        run: CommandsModel {
            dev: "./target/dev/"@ + stem + ".out"@,
            release: "./target/release/"@ + stem + ".out"@,
        },
        is_rust: false,
        is_uv: false,
        is_fortran: true,
    }
}

/// Detect a bare Fortran project from the Fortran sources of the directory.
/// There is one exactly when some source declares a main program.
pub fn detect_fortran_project(sources: &Vec<SourceFile>) -> (r: Option<Project>)
    ensures
        r is Some <==> sources@.len() > 0 && main_index(sources.deep_view()) >= 0,
        r is Some ==> r.unwrap()@ == fortran_project_model(
            stem_spec(sources.deep_view()[main_index(sources.deep_view())].name),
        ),
{
    if sources.len() == 0 {
        return None;
    }
    let idx = match find_main_program_file(sources) {
        Some(i) => i,
        None => {
            return None;
        },
    };
    let stem = file_stem(sources[idx].name.as_str());
    proof {
        assert(sources.deep_view()[idx as int] == sources@[idx as int]@);
    }
    let mut build_dev = String::from_str("mkdir -p target/dev && flang -g -o target/dev/");
    build_dev.append(stem);
    build_dev.append(".out ");
    build_dev.append(stem);
    build_dev.append(".f90");
    let mut build_release = String::from_str(
        "mkdir -p target/release && flang -O3 -o target/release/",
    );
    build_release.append(stem);
    build_release.append(".out ");
    build_release.append(stem);
    build_release.append(".f90");
    let mut run_dev = String::from_str("./target/dev/");
    run_dev.append(stem);
    run_dev.append(".out");
    let mut run_release = String::from_str("./target/release/");
    run_release.append(stem);
    run_release.append(".out");
    let r = Project {
        project_type: String::from_str("llvm-f"),
        name: String::from_str(stem),
        version: String::from_str("0.1.0"),
        is_library: false,
        build_commands: BuildCommands { dev: build_dev, release: build_release },
        run_commands: RunCommands { dev: run_dev, release: run_release },
        is_rust_project: false,
        is_uv_project: false,
        is_fortran_project: true,
    };
    proof {
        assert(r@ =~= fortran_project_model(
            stem_spec(sources.deep_view()[main_index(sources.deep_view())].name),
        ));
    }
    Some(r)
}

// ---------------------------------------------------------------------------
// Dependencies between Fortran files
// ---------------------------------------------------------------------------

/// The file-inclusion keyword of Fortran, with its trailing space.
pub open spec fn inc_kw() -> Seq<char> {
    seq!['i', 'n', 'c', 'l', 'u', 'd', 'e', ' ']
}

pub fn inc_keyword() -> (r: String)
    ensures
        r@ == inc_kw(),
{
    let mut r = String::new();
    r.push('i');
    r.push('n');
    r.push('c');
    r.push('l');
    r.push('u');
    r.push('d');
    r.push('e');
    r.push(' ');
    proof {
        assert(r@ =~= inc_kw());
    }
    r
}

/// A quoted path loses one pair of enclosing double or single quotes.
pub open spec fn unquote_path(p: Seq<char>) -> Seq<char> {
    if p.len() >= 2 && p[0] == '"' && p.last() == '"' {
        p.subrange(1, p.len() - 1)
    } else if p.len() >= 2 && p[0] == '\'' && p.last() == '\'' {
        p.subrange(1, p.len() - 1)
    } else {
        p
    }
}

pub fn unquote_path_exec<'a>(p: &'a str) -> (r: &'a str)
    ensures
        r@ == unquote_path(p@),
{
    let n = p.unicode_len();
    if n >= 2 && p.get_char(0) == '"' && p.get_char(n - 1) == '"' {
        p.substring_char(1, n - 1)
    } else if n >= 2 && p.get_char(0) == '\'' && p.get_char(n - 1) == '\'' {
        p.substring_char(1, n - 1)
    } else {
        p
    }
}

/// The first source whose lowercased content mentions `module <name>`.
pub open spec fn module_file_spec(
    module_name: Seq<char>,
    sources: Seq<SourceFileModel>,
) -> Option<Seq<char>>
    decreases sources.len(),
{
    if sources.len() == 0 {
        Option::None
    } else if contains_sub_spec(lower_seq(sources.first().content), "module "@ + module_name) {
        Option::Some(sources.first().name)
    } else {
        module_file_spec(module_name, sources.drop_first())
    }
}

pub fn find_module_file(module_name: &str, sources: &Vec<SourceFile>) -> (r: Option<String>)
    ensures
        match r {
            Some(f) => module_file_spec(module_name@, sources.deep_view()) == Option::Some(f@),
            None => module_file_spec(module_name@, sources.deep_view()) is None,
        },
{
    let ghost dv = sources.deep_view();
    let mut pattern = String::from_str("module ");
    pattern.append(module_name);
    let n = sources.len();
    let mut i: usize = 0;
    proof {
        assert(dv.skip(0) =~= dv);
    }
    while i < n
        invariant
            n == sources@.len(),
            i <= n,
            dv == sources.deep_view(),
            pattern@ == "module "@ + module_name@,
            module_file_spec(module_name@, dv) == module_file_spec(
                module_name@,
                dv.skip(i as int),
            ),
        decreases n - i,
    {
        proof {
            assert(dv.skip(i as int).first() == dv[i as int]);
            assert(dv[i as int] == sources@[i as int]@);
            assert(dv.skip(i as int).drop_first() =~= dv.skip(i + 1));
        }
        let low = to_lowercase_ascii(sources[i].content.as_str());
        if contains_sub(low.as_str(), pattern.as_str()) {
            return Some(sources[i].name.clone());
        }
        i += 1;
    }
    proof {
        assert(dv.skip(n as int) =~= Seq::<SourceFileModel>::empty());
    }
    None
}

/// The dependencies one line contributes: the file of a used module, and the
/// path of a file-inclusion statement.
pub open spec fn line_deps(line: Seq<char>, sources: Seq<SourceFileModel>) -> Seq<Seq<char>> {
    let ll = lower_seq(trim_spec(line));
    let use_deps = if starts_with_spec(ll, "use "@) {
        let parts = split_ws_spec(ll);
        if parts.len() >= 2 {
            match module_file_spec(parts[1], sources) {
                Some(f) => seq![f],
                None => Seq::<Seq<char>>::empty(),
            }
        } else {
            Seq::<Seq<char>>::empty()
        }
    } else {
        Seq::<Seq<char>>::empty()
    };
    let inc_deps = if starts_with_spec(ll, inc_kw()) {
        seq![unquote_path(trim_spec(strip_prefix_rep(ll, inc_kw())))]
    } else {
        Seq::<Seq<char>>::empty()
    };
    use_deps + inc_deps
}

pub open spec fn file_deps_fold(
    lines: Seq<Seq<char>>,
    sources: Seq<SourceFileModel>,
) -> Seq<Seq<char>>
    decreases lines.len(),
{
    if lines.len() == 0 {
        Seq::empty()
    } else {
        file_deps_fold(lines.drop_last(), sources) + line_deps(lines.last(), sources)
    }
}

/// All dependencies that the lines of `content` name, in line order.
pub open spec fn file_deps_spec(content: Seq<char>, sources: Seq<SourceFileModel>) -> Seq<
    Seq<char>,
> {
    file_deps_fold(lines_spec(content), sources)
}

pub fn find_file_dependencies(content: &str, sources: &Vec<SourceFile>) -> (r: Vec<String>)
    ensures
        r.deep_view() == file_deps_spec(content@, sources.deep_view()),
{
    let ghost sdv = sources.deep_view();
    let kw = inc_keyword();
    let lines = split_lines(content);
    let ghost dv = lines.deep_view();
    let mut deps: Vec<String> = Vec::new();
    let n = lines.len();
    let mut i: usize = 0;
    proof {
        assert(deps.deep_view() =~= file_deps_fold(dv.take(0), sdv));
    }
    while i < n
        invariant
            n == lines@.len(),
            i <= n,
            dv == lines.deep_view(),
            sdv == sources.deep_view(),
            kw@ == inc_kw(),
            lines.deep_view() == lines_spec(content@),
            deps.deep_view() == file_deps_fold(dv.take(i as int), sdv),
        decreases n - i,
    {
        let ghost prev = deps.deep_view();
        proof {
            assert(dv.take(i + 1).drop_last() =~= dv.take(i as int));
            assert(dv.take(i + 1).last() == dv[i as int]);
            assert(dv[i as int] == lines@[i as int]@);
        }
        let line: &str = lines[i];
        let ll = to_lowercase_ascii(trim(line));
        let ghost use_part = if starts_with_spec(ll@, "use "@) {
            let parts = split_ws_spec(ll@);
            if parts.len() >= 2 {
                match module_file_spec(parts[1], sdv) {
                    Some(f) => seq![f],
                    None => Seq::<Seq<char>>::empty(),
                }
            } else {
                Seq::<Seq<char>>::empty()
            }
        } else {
            Seq::<Seq<char>>::empty()
        };
        if starts_with(ll.as_str(), "use ") {
            let parts = split_whitespace_vec(ll.as_str());
            if parts.len() >= 2 {
                proof {
                    assert(parts.deep_view()[1] == parts@[1int]@);
                }
                if let Some(f) = find_module_file(parts[1], sources) {
                    deps.push(f);
                }
            }
        }
        proof {
            assert(deps.deep_view() =~= prev + use_part);
        }
        if starts_with(ll.as_str(), kw.as_str()) {
            let ghost before_inc = deps.deep_view();
            let stripped = strip_prefix_all(ll.as_str(), kw.as_str());
            let path = unquote_path_exec(trim(stripped));
            deps.push(String::from_str(path));
            proof {
                assert(deps.deep_view() =~= before_inc + seq![path@]);
            }
        }
        proof {
            assert(deps.deep_view() =~= prev + line_deps(dv[i as int], sdv));
            assert(prev + line_deps(dv[i as int], sdv) =~= file_deps_fold(dv.take(i + 1), sdv));
        }
        i += 1;
    }
    proof {
        assert(dv.take(n as int) =~= dv);
    }
    deps
}

/// One entry for each source: its file name and the dependencies its content
/// names, looked up across all the sources.
pub open spec fn deps_entries_spec(sources: Seq<SourceFileModel>) -> Seq<
    (Seq<char>, Seq<Seq<char>>),
> {
    sources.map_values(|s: SourceFileModel| (s.name, file_deps_spec(s.content, sources)))
}

pub fn detect_fortran_dependencies(sources: &Vec<SourceFile>) -> (r: Vec<(String, Vec<String>)>)
    ensures
        r.deep_view() == deps_entries_spec(sources.deep_view()),
{
    let ghost sdv = sources.deep_view();
    let mut r: Vec<(String, Vec<String>)> = Vec::new();
    let n = sources.len();
    let mut i: usize = 0;
    proof {
        assert(r.deep_view() =~= deps_entries_spec(sdv).take(0));
    }
    while i < n
        invariant
            n == sources@.len(),
            i <= n,
            sdv == sources.deep_view(),
            r.deep_view() == deps_entries_spec(sdv).take(i as int),
        decreases n - i,
    {
        let ghost prev = r.deep_view();
        proof {
            assert(sdv[i as int] == sources@[i as int]@);
        }
        let file_deps = find_file_dependencies(sources[i].content.as_str(), sources);
        r.push((sources[i].name.clone(), file_deps));
        proof {
            assert(r.deep_view() =~= prev.push((sdv[i as int].name, file_deps.deep_view())));
            assert(prev.push((sdv[i as int].name, file_deps.deep_view())) =~= deps_entries_spec(
                sdv,
            ).take(i + 1));
        }
        i += 1;
    }
    proof {
        assert(deps_entries_spec(sdv).take(n as int) =~= deps_entries_spec(sdv));
    }
    r
}

// ---------------------------------------------------------------------------
// Compilation order: depth-first search over the dependency entries
// ---------------------------------------------------------------------------

/// Every name the dependency entries mention: keys and dependency values.
pub open spec fn all_names(deps: Seq<(Seq<char>, Seq<Seq<char>>)>) -> Seq<Seq<char>>
    decreases deps.len(),
{
    if deps.len() == 0 {
        Seq::empty()
    } else {
        all_names(deps.drop_last()) + seq![deps.last().0] + deps.last().1
    }
}

pub open spec fn dep_universe(deps: Seq<(Seq<char>, Seq<Seq<char>>)>) -> Set<Seq<char>> {
    all_names(deps).to_set()
}

pub proof fn lemma_universe_has_key(deps: Seq<(Seq<char>, Seq<Seq<char>>)>, k: int)
    requires
        0 <= k < deps.len(),
    ensures
        dep_universe(deps).contains(deps[k].0),
    decreases deps.len(),
{
    if k == deps.len() - 1 {
        let base = all_names(deps.drop_last()).len();
        assert(all_names(deps)[base as int] == deps.last().0);
        assert(all_names(deps).contains(deps[k].0));
    } else {
        lemma_universe_has_key(deps.drop_last(), k);
        assert(deps.drop_last()[k] == deps[k]);
        let prefix = all_names(deps.drop_last());
        let w = choose|w: int| 0 <= w < prefix.len() && prefix[w] == deps[k].0;
        assert(all_names(deps)[w] == deps[k].0);
        assert(all_names(deps).contains(deps[k].0));
    }
}

pub proof fn lemma_universe_has_dep(deps: Seq<(Seq<char>, Seq<Seq<char>>)>, k: int, d: Seq<char>)
    requires
        0 <= k < deps.len(),
        deps[k].1.contains(d),
    ensures
        dep_universe(deps).contains(d),
    decreases deps.len(),
{
    if k == deps.len() - 1 {
        let base = all_names(deps.drop_last()).len() + 1;
        let j = choose|j: int| 0 <= j < deps[k].1.len() && deps[k].1[j] == d;
        assert(all_names(deps)[base + j] == d);
        assert(all_names(deps).contains(d));
    } else {
        assert(deps.drop_last()[k] == deps[k]);
        lemma_universe_has_dep(deps.drop_last(), k, d);
        let prefix = all_names(deps.drop_last());
        let w = choose|w: int| 0 <= w < prefix.len() && prefix[w] == d;
        assert(all_names(deps)[w] == d);
        assert(all_names(deps).contains(d));
    }
}

/// Index of the first entry whose key is `file`, or -1.
pub open spec fn entry_index(deps: Seq<(Seq<char>, Seq<Seq<char>>)>, file: Seq<char>) -> int
    decreases deps.len(),
{
    if deps.len() == 0 {
        -1
    } else if deps.first().0 == file {
        0
    } else {
        let r = entry_index(deps.drop_first(), file);
        if r < 0 {
            -1
        } else {
            r + 1
        }
    }
}

pub proof fn lemma_entry_index_found(deps: Seq<(Seq<char>, Seq<Seq<char>>)>, file: Seq<char>, i: int)
    requires
        0 <= i < deps.len(),
        deps[i].0 == file,
        forall|j: int| 0 <= j < i ==> (#[trigger] deps[j].0) != file,
    ensures
        entry_index(deps, file) == i,
    decreases deps.len(),
{
    if i > 0 {
        assert(forall|j: int| 0 <= j < i - 1 ==> (#[trigger] deps.drop_first()[j].0) != file);
        lemma_entry_index_found(deps.drop_first(), file, i - 1);
    }
}

pub proof fn lemma_entry_index_absent(deps: Seq<(Seq<char>, Seq<Seq<char>>)>, file: Seq<char>)
    requires
        forall|j: int| 0 <= j < deps.len() ==> (#[trigger] deps[j].0) != file,
    ensures
        entry_index(deps, file) == -1,
    decreases deps.len(),
{
    if deps.len() > 0 {
        assert(forall|j: int|
            0 <= j < deps.drop_first().len() ==> (#[trigger] deps.drop_first()[j].0) != file);
        lemma_entry_index_absent(deps.drop_first(), file);
    }
}

/// The visit of one file: mark it visited, visit its unvisited dependencies
/// first, then append it to the order.  `fuel` only bounds the recursion;
/// every reachable state has enough of it (see `suff_fuel` and `visit`).
pub open spec fn visit_spec(
    fuel: nat,
    file: Seq<char>,
    deps: Seq<(Seq<char>, Seq<Seq<char>>)>,
    visited: Seq<Seq<char>>,
    order: Seq<Seq<char>>,
) -> Option<(Seq<Seq<char>>, Seq<Seq<char>>)>
    decreases fuel, 0int,
{
    if fuel == 0 {
        Option::None
    } else {
        let visited2 = visited.push(file);
        let k = entry_index(deps, file);
        if k < 0 || k >= deps.len() {
            Option::Some((visited2, order.push(file)))
        } else {
            match visit_deps_spec((fuel - 1) as nat, deps[k].1, 0, deps, visited2, order) {
                Some(p) => Option::Some((p.0, p.1.push(file))),
                None => Option::None,
            }
        }
    }
}

pub open spec fn visit_deps_spec(
    fuel: nat,
    lst: Seq<Seq<char>>,
    i: int,
    deps: Seq<(Seq<char>, Seq<Seq<char>>)>,
    visited: Seq<Seq<char>>,
    order: Seq<Seq<char>>,
) -> Option<(Seq<Seq<char>>, Seq<Seq<char>>)>
    decreases fuel, lst.len() - i + 1,
{
    if i < 0 || i >= lst.len() {
        Option::Some((visited, order))
    } else if visited.contains(lst[i]) {
        visit_deps_spec(fuel, lst, i + 1, deps, visited, order)
    } else {
        match visit_spec(fuel, lst[i], deps, visited, order) {
            Some(p) => visit_deps_spec(fuel, lst, i + 1, deps, p.0, p.1),
            None => Option::None,
        }
    }
}

/// More fuel never changes a result that was already reached.
pub proof fn lemma_visit_mono(
    f1: nat,
    f2: nat,
    file: Seq<char>,
    deps: Seq<(Seq<char>, Seq<Seq<char>>)>,
    visited: Seq<Seq<char>>,
    order: Seq<Seq<char>>,
)
    requires
        f1 <= f2,
        visit_spec(f1, file, deps, visited, order) is Some,
    ensures
        visit_spec(f2, file, deps, visited, order) == visit_spec(f1, file, deps, visited, order),
    decreases f1, 0int,
{
    let visited2 = visited.push(file);
    let k = entry_index(deps, file);
    if 0 <= k < deps.len() {
        match visit_deps_spec((f1 - 1) as nat, deps[k].1, 0, deps, visited2, order) {
            Some(p) => {
                lemma_visit_deps_mono(
                    (f1 - 1) as nat,
                    (f2 - 1) as nat,
                    deps[k].1,
                    0,
                    deps,
                    visited2,
                    order,
                );
            },
            None => {
                assert(false);
            },
        }
    }
}

pub proof fn lemma_visit_deps_mono(
    f1: nat,
    f2: nat,
    lst: Seq<Seq<char>>,
    i: int,
    deps: Seq<(Seq<char>, Seq<Seq<char>>)>,
    visited: Seq<Seq<char>>,
    order: Seq<Seq<char>>,
)
    requires
        f1 <= f2,
        visit_deps_spec(f1, lst, i, deps, visited, order) is Some,
    ensures
        visit_deps_spec(f2, lst, i, deps, visited, order) == visit_deps_spec(
            f1,
            lst,
            i,
            deps,
            visited,
            order,
        ),
    decreases f1, lst.len() - i + 1,
{
    if i < 0 || i >= lst.len() {
    } else if visited.contains(lst[i]) {
        lemma_visit_deps_mono(f1, f2, lst, i + 1, deps, visited, order);
    } else {
        match visit_spec(f1, lst[i], deps, visited, order) {
            Some(p) => {
                lemma_visit_mono(f1, f2, lst[i], deps, visited, order);
                lemma_visit_deps_mono(f1, f2, lst, i + 1, deps, p.0, p.1);
            },
            None => {
                assert(false);
            },
        }
    }
}

/// Fuel that always suffices from the given state: one more than the number
/// of universe names not yet visited.
pub open spec fn suff_fuel(
    deps: Seq<(Seq<char>, Seq<Seq<char>>)>,
    visited: Seq<Seq<char>>,
) -> nat {
    (dep_universe(deps).difference(visited.to_set()).len() + 1) as nat
}

/// True when `s` occurs among the strings of `v`.
pub fn contains_string(v: &Vec<String>, s: &str) -> (r: bool)
    ensures
        r == v.deep_view().contains(s@),
{
    let ghost dv = v.deep_view();
    let n = v.len();
    let mut i: usize = 0;
    while i < n
        invariant
            n == v@.len(),
            i <= n,
            dv == v.deep_view(),
            forall|j: int| 0 <= j < i ==> dv[j] != s@,
        decreases n - i,
    {
        proof {
            assert(dv[i as int] == v@[i as int]@);
        }
        if str_eq(v[i].as_str(), s) {
            return true;
        }
        i += 1;
    }
    proof {
        if dv.contains(s@) {
            let j = choose|j: int| 0 <= j < dv.len() && dv[j] == s@;
            assert(dv[j] != s@);
        }
    }
    false
}

/// First entry whose key equals `file`.
pub fn find_dep_entry(deps: &Vec<(String, Vec<String>)>, file: &str) -> (r: Option<usize>)
    ensures
        match r {
            Some(k) => k < deps@.len() && entry_index(deps.deep_view(), file@) == k as int,
            None => entry_index(deps.deep_view(), file@) == -1,
        },
{
    let ghost dv = deps.deep_view();
    let n = deps.len();
    let mut i: usize = 0;
    while i < n
        invariant
            n == deps@.len(),
            i <= n,
            dv == deps.deep_view(),
            forall|j: int| 0 <= j < i ==> (#[trigger] dv[j].0) != file@,
        decreases n - i,
    {
        proof {
            assert(dv[i as int] == deps@[i as int].deep_view());
        }
        if str_eq(deps[i].0.as_str(), file) {
            proof {
                lemma_entry_index_found(dv, file@, i as int);
            }
            return Some(i);
        }
        i += 1;
    }
    proof {
        lemma_entry_index_absent(dv, file@);
    }
    None
}

/// Visit one file depth first: dependencies before the file itself.  A file
/// already seen is never entered again, so a cyclic graph still terminates,
/// in first-visit order.
pub fn visit(
    file: &String,
    deps: &Vec<(String, Vec<String>)>,
    visited: &mut Vec<String>,
    order: &mut Vec<String>,
)
    requires
        dep_universe(deps.deep_view()).contains(file@),
        !old(visited).deep_view().contains(file@),
        old(visited).deep_view().to_set().subset_of(dep_universe(deps.deep_view())),
        old(visited).deep_view().no_duplicates(),
    ensures
        final(visited).deep_view().no_duplicates(),
        final(visited).deep_view().to_set().subset_of(dep_universe(deps.deep_view())),
        old(visited).deep_view().to_set().insert(file@).subset_of(
            final(visited).deep_view().to_set(),
        ),
        visit_spec(
            suff_fuel(deps.deep_view(), old(visited).deep_view()),
            file@,
            deps.deep_view(),
            old(visited).deep_view(),
            old(order).deep_view(),
        ) == Option::Some((final(visited).deep_view(), final(order).deep_view())),
    decreases dep_universe(deps.deep_view()).difference(visited.deep_view().to_set()).len(),
{
    broadcast use vstd::seq_lib::seq_to_set_is_finite;

    let ghost ddv = deps.deep_view();
    let ghost v0 = visited.deep_view();
    let ghost o0 = order.deep_view();
    let ghost u = dep_universe(ddv);
    let ghost fuel0 = suff_fuel(ddv, v0);
    visited.push(file.clone());
    let ghost v1 = visited.deep_view();
    proof {
        assert(v1 =~= v0.push(file@));
        assert(v1.no_duplicates()) by {
            assert(forall|j: int| 0 <= j < v0.len() ==> v0[j] != file@);
        }
        assert(v1.to_set().subset_of(u)) by {
            assert forall|x: Seq<char>| v1.to_set().contains(x) implies u.contains(x) by {
                if x == file@ {
                } else {
                    let j = choose|j: int| 0 <= j < v1.len() && v1[j] == x;
                    assert(v0[j] == x);
                    assert(v0.to_set().contains(x));
                }
            }
        }
        assert(v0.to_set().insert(file@).subset_of(v1.to_set())) by {
            assert forall|x: Seq<char>|
                v0.to_set().insert(file@).contains(x) implies v1.to_set().contains(x) by {
                if x == file@ {
                    assert(v1[v0.len() as int] == file@);
                } else {
                    let j = choose|j: int| 0 <= j < v0.len() && v0[j] == x;
                    assert(v1[j] == x);
                }
            }
        }
    }
    match find_dep_entry(deps, file.as_str()) {
        None => {
            order.push(file.clone());
            proof {
                assert(order.deep_view() =~= o0.push(file@));
                assert(fuel0 >= 1);
                assert(visit_spec(fuel0, file@, ddv, v0, o0) == Option::Some(
                    (v1, o0.push(file@)),
                ));
            }
        },
        Some(k) => {
            let ghost f1 = (fuel0 - 1) as nat;
            let entry = &deps[k];
            let m = entry.1.len();
            let ghost lstv = ddv[k as int].1;
            proof {
                assert(ddv[k as int] == deps@[k as int].deep_view());
                assert(entry.1.deep_view() =~= lstv);
            }
            let mut j: usize = 0;
            while j < m
                invariant
                    m == entry.1@.len(),
                    j <= m,
                    ddv == deps.deep_view(),
                    u == dep_universe(ddv),
                    v0 == old(visited).deep_view(),
                    o0 == old(order).deep_view(),
                    f1 == (suff_fuel(ddv, v0) - 1) as nat,
                    entry == &deps[k as int],
                    k < deps@.len(),
                    lstv == entry.1.deep_view(),
                    entry_index(ddv, file@) == k as int,
                    u.contains(file@),
                    !v0.contains(file@),
                    v0.to_set().subset_of(u),
                    visited.deep_view().no_duplicates(),
                    visited.deep_view().to_set().subset_of(u),
                    v0.to_set().insert(file@).subset_of(visited.deep_view().to_set()),
                    visit_deps_spec(f1, lstv, 0, ddv, v1, o0) == visit_deps_spec(
                        f1,
                        lstv,
                        j as int,
                        ddv,
                        visited.deep_view(),
                        order.deep_view(),
                    ),
                decreases m - j,
            {
                let dep: &String = &entry.1[j];
                proof {
                    assert(lstv[j as int] == entry.1@[j as int]@);
                }
                if contains_string(visited, dep.as_str()) {
                    proof {
                        assert(visit_deps_spec(
                            f1,
                            lstv,
                            j as int,
                            ddv,
                            visited.deep_view(),
                            order.deep_view(),
                        ) == visit_deps_spec(
                            f1,
                            lstv,
                            j + 1,
                            ddv,
                            visited.deep_view(),
                            order.deep_view(),
                        ));
                    }
                } else {
                    let ghost vb = visited.deep_view();
                    let ghost ob = order.deep_view();
                    proof {
                        lemma_universe_has_dep(ddv, k as int, dep@);
                        assert(u.difference(vb.to_set()).subset_of(
                            u.difference(v0.to_set()),
                        )) by {
                            assert forall|x: Seq<char>|
                                u.difference(vb.to_set()).contains(x) implies u.difference(
                                v0.to_set(),
                            ).contains(x) by {
                                if v0.to_set().contains(x) {
                                    assert(vb.to_set().contains(x));
                                }
                            }
                        }
                        assert(u.difference(v0.to_set()).finite());
                        assert(u.difference(v0.to_set()).contains(file@));
                        assert(vb.to_set().contains(file@));
                        assert(!u.difference(vb.to_set()).contains(file@));
                        u.difference(vb.to_set()).lemma_subset_not_in_lt(
                            u.difference(v0.to_set()),
                            file@,
                        );
                        assert(u.difference(vb.to_set()).len() < u.difference(
                            v0.to_set(),
                        ).len());
                    }
                    visit(dep, deps, visited, order);
                    proof {
                        let va = visited.deep_view();
                        let oa = order.deep_view();
                        assert(suff_fuel(ddv, vb) <= f1);
                        lemma_visit_mono(suff_fuel(ddv, vb), f1, dep@, ddv, vb, ob);
                        assert(visit_spec(f1, lstv[j as int], ddv, vb, ob) == Option::Some(
                            (va, oa),
                        ));
                        assert(visit_deps_spec(f1, lstv, j as int, ddv, vb, ob)
                            == visit_deps_spec(f1, lstv, j + 1, ddv, va, oa));
                    }
                }
                j += 1;
            }
            let ghost vcur = visited.deep_view();
            let ghost ocur = order.deep_view();
            order.push(file.clone());
            proof {
                assert(order.deep_view() =~= ocur.push(file@));
                assert(visit_deps_spec(f1, lstv, m as int, ddv, vcur, ocur) == Option::Some(
                    (vcur, ocur),
                ));
                assert(visit_deps_spec(f1, lstv, 0, ddv, v1, o0) == Option::Some((vcur, ocur)));
                assert(fuel0 >= 1);
                assert(lstv == ddv[k as int].1);
                assert(visit_spec(fuel0, file@, ddv, v0, o0) == Option::Some(
                    (vcur, ocur.push(file@)),
                ));
            }
        },
    }
}

/// The fold of `visit` over the entry keys, in order, skipping keys already
/// visited.
pub open spec fn topo_fold(
    deps: Seq<(Seq<char>, Seq<Seq<char>>)>,
    i: int,
    visited: Seq<Seq<char>>,
    order: Seq<Seq<char>>,
) -> (Seq<Seq<char>>, Seq<Seq<char>>)
    decreases deps.len() - i,
{
    if i < 0 || i >= deps.len() {
        (visited, order)
    } else if visited.contains(deps[i].0) {
        topo_fold(deps, i + 1, visited, order)
    } else {
        match visit_spec(suff_fuel(deps, visited), deps[i].0, deps, visited, order) {
            Some(p) => topo_fold(deps, i + 1, p.0, p.1),
            None => topo_fold(deps, i + 1, visited, order),
        }
    }
}

/// The compilation order of the dependency entries: every entry key once, a
/// file always after the dependencies its visit reached first.
pub open spec fn compilation_order_spec(deps: Seq<(Seq<char>, Seq<Seq<char>>)>) -> Seq<
    Seq<char>,
> {
    topo_fold(deps, 0, Seq::empty(), Seq::empty()).1
}

/// Depth-first topological ordering of the dependency entries.
pub fn get_compilation_order(deps: &Vec<(String, Vec<String>)>) -> (r: Vec<String>)
    ensures
        r.deep_view() == compilation_order_spec(deps.deep_view()),
{
    let ghost ddv = deps.deep_view();
    let ghost u = dep_universe(ddv);
    let mut visited: Vec<String> = Vec::new();
    let mut order: Vec<String> = Vec::new();
    let n = deps.len();
    let mut i: usize = 0;
    proof {
        assert(visited.deep_view() =~= Seq::<Seq<char>>::empty());
        assert(order.deep_view() =~= Seq::<Seq<char>>::empty());
        assert(Seq::<Seq<char>>::empty().to_set().subset_of(u));
    }
    while i < n
        invariant
            n == deps@.len(),
            i <= n,
            ddv == deps.deep_view(),
            u == dep_universe(ddv),
            visited.deep_view().no_duplicates(),
            visited.deep_view().to_set().subset_of(u),
            topo_fold(ddv, 0, Seq::empty(), Seq::empty()) == topo_fold(
                ddv,
                i as int,
                visited.deep_view(),
                order.deep_view(),
            ),
        decreases n - i,
    {
        let file: &String = &deps[i].0;
        proof {
            assert(ddv[i as int] == deps@[i as int].deep_view());
            assert(ddv[i as int].0 == file@);
        }
        if !contains_string(&visited, file.as_str()) {
            let ghost vb = visited.deep_view();
            let ghost ob = order.deep_view();
            proof {
                lemma_universe_has_key(ddv, i as int);
            }
            visit(file, deps, &mut visited, &mut order);
            proof {
                assert(visit_spec(suff_fuel(ddv, vb), ddv[i as int].0, ddv, vb, ob)
                    == Option::Some((visited.deep_view(), order.deep_view())));
                assert(topo_fold(ddv, i as int, vb, ob) == topo_fold(
                    ddv,
                    i + 1,
                    visited.deep_view(),
                    order.deep_view(),
                ));
            }
        } else {
            proof {
                assert(topo_fold(ddv, i as int, visited.deep_view(), order.deep_view())
                    == topo_fold(ddv, i + 1, visited.deep_view(), order.deep_view()));
            }
        }
        i += 1;
    }
    order
}

} // verus!
