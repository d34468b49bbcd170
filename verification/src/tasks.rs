use vstd::prelude::*;
use vstd::string::*;

use crate::text::{lower_seq, remove_occurrences, remove_occurrences_spec, str_eq,
    to_lowercase_ascii, trim, trim_spec};

verus! {

// ---------------------------------------------------------------------------
// What a task does when it runs
// ---------------------------------------------------------------------------

/// The action behind a task: run `uv` or `uvx` with fixed arguments (after
/// probing that uv is installed), spawn a fixed program, or perform the
/// multi-step Fortran build (dev or release), whose control flow is the
/// machine `flang_build_start` / `flang_build_next` below.
pub enum TaskAction {
    Uv(Vec<String>),
    Uvx(Vec<String>),
    Spawn(String, Vec<String>),
    FlangBuild(bool),
}

#[verifier::ext_equal]
pub enum TaskActionModel {
    Uv(Seq<Seq<char>>),
    Uvx(Seq<Seq<char>>),
    Spawn(Seq<char>, Seq<Seq<char>>),
    FlangBuild(bool),
}

impl View for TaskAction {
    type V = TaskActionModel;

    open spec fn view(&self) -> TaskActionModel {
        match self {
            TaskAction::Uv(args) => TaskActionModel::Uv(args.deep_view()),
            TaskAction::Uvx(args) => TaskActionModel::Uvx(args.deep_view()),
            TaskAction::Spawn(prog, args) => TaskActionModel::Spawn(prog@, args.deep_view()),
            TaskAction::FlangBuild(release) => TaskActionModel::FlangBuild(*release),
        }
    }
}

// ---------------------------------------------------------------------------
// A task: stable id, display name, action
// ---------------------------------------------------------------------------

pub struct Task {
    id: String,
    name: String,
    action: TaskAction,
}

#[verifier::ext_equal]
pub struct TaskModel {
    pub id: Seq<char>,
    pub name: Seq<char>,
    pub action: TaskActionModel,
}

impl View for Task {
    type V = TaskModel;

    closed spec fn view(&self) -> TaskModel {
        TaskModel { id: self.id@, name: self.name@, action: self.action@ }
    }
}

pub open spec fn result_message_spec(name: Seq<char>, success: bool) -> Seq<char> {
    "  - Task | "@ + name + " | "@ + (if success {
        "Done"@
    } else {
        "Failed"@
    }) + "."@
}

pub open spec fn start_message_spec(name: Seq<char>) -> Seq<char> {
    "  - Task | "@ + name + " | "@
}

pub open spec fn missing_task_message_spec(id: Seq<char>) -> Seq<char> {
    "Error: Task with ID '"@ + id + "' not found"@
}

impl Task {
    pub fn new(id: &str, name: &str, action: TaskAction) -> (t: Task)
        ensures
            t@ == (TaskModel { id: id@, name: name@, action: action@ }),
    {
        Task { id: String::from_str(id), name: String::from_str(name), action }
    }

    pub fn id(&self) -> (r: &str)
        ensures
            r@ == self@.id,
    {
        self.id.as_str()
    }

    pub fn name(&self) -> (r: &str)
        ensures
            r@ == self@.name,
    {
        self.name.as_str()
    }

    pub fn action(&self) -> (r: &TaskAction)
        ensures
            r@ == self@.action,
    {
        &self.action
    }

    /// The per-task status line printed when the task has run.
    pub fn get_result_message(&self, success: bool) -> (r: String)
        ensures
            r@ == result_message_spec(self@.name, success),
    {
        let mut r = String::from_str("  - Task | ");
        r.append(self.name.as_str());
        r.append(" | ");
        if success {
            r.append("Done");
        } else {
            r.append("Failed");
        }
        r.append(".");
        proof {
            assert(r@ =~= result_message_spec(self@.name, success));
        }
        r
    }
}

/// The line printed when a task starts.
pub fn task_start_message(name: &str) -> (r: String)
    ensures
        r@ == start_message_spec(name@),
{
    let mut r = String::from_str("  - Task | ");
    r.append(name);
    r.append(" | ");
    proof {
        assert(r@ =~= start_message_spec(name@));
    }
    r
}

/// The error line for an id that no task carries.
pub fn missing_task_message(id: &str) -> (r: String)
    ensures
        r@ == missing_task_message_spec(id@),
{
    let mut r = String::from_str("Error: Task with ID '");
    r.append(id);
    r.append("' not found");
    proof {
        assert(r@ =~= missing_task_message_spec(id@));
    }
    r
}

// ---------------------------------------------------------------------------
// The fixed catalog
// ---------------------------------------------------------------------------

pub open spec fn uv_lock_task_model() -> TaskModel {
    TaskModel { id: "uv_lock"@, name: "uv lock"@, action: TaskActionModel::Uv(seq!["lock"@]) }
}

pub open spec fn uv_run_task_model() -> TaskModel {
    TaskModel {
        id: "uv_run"@,
        name: "uv run main.py"@,
        action: TaskActionModel::Uv(seq!["run"@, "main.py"@]),
    }
}

pub open spec fn uv_build_task_model() -> TaskModel {
    TaskModel { id: "uv_build"@, name: "uv build"@, action: TaskActionModel::Uv(seq!["build"@]) }
}

pub open spec fn uv_ruff_check_task_model() -> TaskModel {
    TaskModel {
        id: "uv_ruff_check"@,
        name: "uvx ruff check"@,
        action: TaskActionModel::Uvx(seq!["ruff"@, "check"@]),
    }
}

pub open spec fn uv_ruff_format_task_model() -> TaskModel {
    TaskModel {
        id: "uv_ruff_format"@,
        name: "uvx ruff format"@,
        action: TaskActionModel::Uvx(seq!["ruff"@, "format"@]),
    }
}

pub open spec fn cargo_update_task_model() -> TaskModel {
    TaskModel {
        id: "cargo_update"@,
        name: "cargo update"@,
        action: TaskActionModel::Spawn("cargo"@, seq!["update"@]),
    }
}

pub open spec fn cargo_fmt_task_model() -> TaskModel {
    TaskModel {
        id: "cargo_fmt"@,
        name: "cargo fmt"@,
        action: TaskActionModel::Spawn("cargo"@, seq!["fmt"@]),
    }
}

pub open spec fn cargo_check_task_model() -> TaskModel {
    TaskModel {
        id: "cargo_check"@,
        name: "cargo check"@,
        action: TaskActionModel::Spawn("cargo"@, seq!["check"@]),
    }
}

pub open spec fn cargo_build_task_model() -> TaskModel {
    TaskModel {
        id: "cargo_build"@,
        name: "cargo build"@,
        action: TaskActionModel::Spawn("cargo"@, seq!["build"@]),
    }
}

pub open spec fn cargo_build_release_task_model() -> TaskModel {
    TaskModel {
        id: "cargo_build_release"@,
        name: "cargo build --release"@,
        action: TaskActionModel::Spawn("cargo"@, seq!["build"@, "--release"@]),
    }
}

pub open spec fn flang_build_dev_task_model() -> TaskModel {
    TaskModel {
        id: "flang_build_dev"@,
        name: "flang build dev"@,
        action: TaskActionModel::FlangBuild(false),
    }
}

pub open spec fn flang_build_release_task_model() -> TaskModel {
    TaskModel {
        id: "flang_build_release"@,
        name: "flang build release"@,
        action: TaskActionModel::FlangBuild(true),
    }
}

pub open spec fn fpm_build_release_task_model() -> TaskModel {
    TaskModel {
        id: "fpm_build_release"@,
        name: "fpm build --profile release"@,
        action: TaskActionModel::Spawn("fpm"@, seq!["build"@, "--profile"@, "release"@]),
    }
}

/// The whole catalog, in registry order.
pub open spec fn registry_model() -> Seq<TaskModel> {
    seq![
        uv_lock_task_model(),
        uv_run_task_model(),
        uv_build_task_model(),
        uv_ruff_check_task_model(),
        uv_ruff_format_task_model(),
        cargo_update_task_model(),
        cargo_fmt_task_model(),
        cargo_check_task_model(),
        cargo_build_task_model(),
        cargo_build_release_task_model(),
        flang_build_dev_task_model(),
        flang_build_release_task_model(),
        fpm_build_release_task_model(),
    ]
}

fn args1(a: &str) -> (r: Vec<String>)
    ensures
        r.deep_view() =~= seq![a@],
{
    let mut r: Vec<String> = Vec::new();
    r.push(String::from_str(a));
    r
}

fn args2(a: &str, b: &str) -> (r: Vec<String>)
    ensures
        r.deep_view() =~= seq![a@, b@],
{
    let mut r: Vec<String> = Vec::new();
    r.push(String::from_str(a));
    r.push(String::from_str(b));
    r
}

fn args3(a: &str, b: &str, c: &str) -> (r: Vec<String>)
    ensures
        r.deep_view() =~= seq![a@, b@, c@],
{
    let mut r: Vec<String> = Vec::new();
    r.push(String::from_str(a));
    r.push(String::from_str(b));
    r.push(String::from_str(c));
    r
}

pub fn create_uv_lock_task() -> (t: Task)
    ensures
        t@ == uv_lock_task_model(),
{
    let t = Task::new("uv_lock", "uv lock", TaskAction::Uv(args1("lock")));
    proof {
        assert(t@ =~= uv_lock_task_model());
    }
    t
}

pub fn create_uv_run_task() -> (t: Task)
    ensures
        t@ == uv_run_task_model(),
{
    let t = Task::new("uv_run", "uv run main.py", TaskAction::Uv(args2("run", "main.py")));
    proof {
        assert(t@ =~= uv_run_task_model());
    }
    t
}

pub fn create_uv_build_task() -> (t: Task)
    ensures
        t@ == uv_build_task_model(),
{
    let t = Task::new("uv_build", "uv build", TaskAction::Uv(args1("build")));
    proof {
        assert(t@ =~= uv_build_task_model());
    }
    t
}

pub fn create_uv_ruff_check_task() -> (t: Task)
    ensures
        t@ == uv_ruff_check_task_model(),
{
    let t = Task::new("uv_ruff_check", "uvx ruff check", TaskAction::Uvx(args2("ruff", "check")));
    proof {
        assert(t@ =~= uv_ruff_check_task_model());
    }
    t
}

pub fn create_uv_ruff_format_task() -> (t: Task)
    ensures
        t@ == uv_ruff_format_task_model(),
{
    let t = Task::new(
        "uv_ruff_format",
        "uvx ruff format",
        TaskAction::Uvx(args2("ruff", "format")),
    );
    proof {
        assert(t@ =~= uv_ruff_format_task_model());
    }
    t
}

pub fn create_cargo_update_task() -> (t: Task)
    ensures
        t@ == cargo_update_task_model(),
{
    let t = Task::new(
        "cargo_update",
        "cargo update",
        TaskAction::Spawn(String::from_str("cargo"), args1("update")),
    );
    proof {
        assert(t@ =~= cargo_update_task_model());
    }
    t
}

pub fn create_cargo_fmt_task() -> (t: Task)
    ensures
        t@ == cargo_fmt_task_model(),
{
    let t = Task::new(
        "cargo_fmt",
        "cargo fmt",
        TaskAction::Spawn(String::from_str("cargo"), args1("fmt")),
    );
    proof {
        assert(t@ =~= cargo_fmt_task_model());
    }
    t
}

pub fn create_cargo_check_task() -> (t: Task)
    ensures
        t@ == cargo_check_task_model(),
{
    let t = Task::new(
        "cargo_check",
        "cargo check",
        TaskAction::Spawn(String::from_str("cargo"), args1("check")),
    );
    proof {
        assert(t@ =~= cargo_check_task_model());
    }
    t
}

pub fn create_cargo_build_task() -> (t: Task)
    ensures
        t@ == cargo_build_task_model(),
{
    let t = Task::new(
        "cargo_build",
        "cargo build",
        TaskAction::Spawn(String::from_str("cargo"), args1("build")),
    );
    proof {
        assert(t@ =~= cargo_build_task_model());
    }
    t
}

pub fn create_cargo_build_release_task() -> (t: Task)
    ensures
        t@ == cargo_build_release_task_model(),
{
    let t = Task::new(
        "cargo_build_release",
        "cargo build --release",
        TaskAction::Spawn(String::from_str("cargo"), args2("build", "--release")),
    );
    proof {
        assert(t@ =~= cargo_build_release_task_model());
    }
    t
}

/// The dev Fortran build: compile in topological order, then link.  The
/// build machine below decides each step; `flang_compile_command` and
/// `flang_link_command` give the process invocations.
pub fn create_flang_build_dev_task() -> (t: Task)
    ensures
        t@ == flang_build_dev_task_model(),
{
    let t = Task::new("flang_build_dev", "flang build dev", TaskAction::FlangBuild(false));
    proof {
        assert(t@ =~= flang_build_dev_task_model());
    }
    t
}

/// The release Fortran build: as the dev build, with `-O3` and the release
/// target directory.
pub fn create_flang_build_release_task() -> (t: Task)
    ensures
        t@ == flang_build_release_task_model(),
{
    let t = Task::new(
        "flang_build_release",
        "flang build release",
        TaskAction::FlangBuild(true),
    );
    proof {
        assert(t@ =~= flang_build_release_task_model());
    }
    t
}

pub fn create_fpm_build_release_task() -> (t: Task)
    ensures
        t@ == fpm_build_release_task_model(),
{
    let t = Task::new(
        "fpm_build_release",
        "fpm build --profile release",
        TaskAction::Spawn(String::from_str("fpm"), args3("build", "--profile", "release")),
    );
    proof {
        assert(t@ =~= fpm_build_release_task_model());
    }
    t
}

// ---------------------------------------------------------------------------
// The registry
// ---------------------------------------------------------------------------

pub struct TaskRegistry {
    tasks: Vec<Task>,
}

impl View for TaskRegistry {
    type V = Seq<TaskModel>;

    closed spec fn view(&self) -> Seq<TaskModel> {
        Seq::new(self.tasks@.len(), |i: int| self.tasks@[i]@)
    }
}

/// Index of the first task carrying `id`, or -1.
pub open spec fn task_index(ts: Seq<TaskModel>, id: Seq<char>) -> int
    decreases ts.len(),
{
    if ts.len() == 0 {
        -1
    } else if ts.first().id == id {
        0
    } else {
        let r = task_index(ts.drop_first(), id);
        if r < 0 {
            -1
        } else {
            r + 1
        }
    }
}

pub proof fn lemma_task_index_found(ts: Seq<TaskModel>, id: Seq<char>, i: int)
    requires
        0 <= i < ts.len(),
        ts[i].id == id,
        forall|j: int| 0 <= j < i ==> (#[trigger] ts[j].id) != id,
    ensures
        task_index(ts, id) == i,
    decreases ts.len(),
{
    if i > 0 {
        assert(forall|j: int| 0 <= j < i - 1 ==> (#[trigger] ts.drop_first()[j].id) != id);
        lemma_task_index_found(ts.drop_first(), id, i - 1);
    }
}

pub proof fn lemma_task_index_absent(ts: Seq<TaskModel>, id: Seq<char>)
    requires
        forall|j: int| 0 <= j < ts.len() ==> (#[trigger] ts[j].id) != id,
    ensures
        task_index(ts, id) == -1,
    decreases ts.len(),
{
    if ts.len() > 0 {
        assert(forall|j: int| 0 <= j < ts.drop_first().len() ==> (#[trigger] ts.drop_first()[j].id)
            != id);
        lemma_task_index_absent(ts.drop_first(), id);
    }
}

impl TaskRegistry {
    /// The full catalog, rebuilt fresh.
    pub fn new() -> (r: TaskRegistry)
        ensures
            r@ == registry_model(),
    {
        let mut tasks: Vec<Task> = Vec::new();
        tasks.push(create_uv_lock_task());
        tasks.push(create_uv_run_task());
        tasks.push(create_uv_build_task());
        tasks.push(create_uv_ruff_check_task());
        tasks.push(create_uv_ruff_format_task());
        tasks.push(create_cargo_update_task());
        tasks.push(create_cargo_fmt_task());
        tasks.push(create_cargo_check_task());
        tasks.push(create_cargo_build_task());
        tasks.push(create_cargo_build_release_task());
        tasks.push(create_flang_build_dev_task());
        tasks.push(create_flang_build_release_task());
        tasks.push(create_fpm_build_release_task());
        let r = TaskRegistry { tasks };
        proof {
            assert(r@ =~= registry_model());
        }
        r
    }

    /// The first task carrying `id`, when the catalog has one.
    pub fn get_task_by_id(&self, id: &str) -> (r: Option<&Task>)
        ensures
            match r {
                Some(t) => {
                    let k = task_index(self@, id@);
                    &&& 0 <= k < self@.len()
                    &&& t@ == self@[k]
                    &&& t@.id == id@
                },
                None => task_index(self@, id@) == -1,
            },
    {
        let n = self.tasks.len();
        let mut i: usize = 0;
        while i < n
            invariant
                n == self.tasks@.len(),
                i <= n,
                forall|j: int| 0 <= j < i ==> (#[trigger] self@[j].id) != id@,
            decreases n - i,
        {
            proof {
                assert(self@[i as int] == self.tasks@[i as int]@);
            }
            if str_eq(self.tasks[i].id.as_str(), id) {
                proof {
                    lemma_task_index_found(self@, id@, i as int);
                }
                return Some(&self.tasks[i]);
            }
            i += 1;
        }
        proof {
            lemma_task_index_absent(self@, id@);
        }
        None
    }
}

// ---------------------------------------------------------------------------
// The interactive uv install: the decision, separated from the prompt
// ---------------------------------------------------------------------------

pub enum InstallAction {
    Canceled,
    ShellScript(String, Vec<String>),
    Unsupported,
}

#[verifier::ext_equal]
pub enum InstallActionModel {
    Canceled,
    ShellScript(Seq<char>, Seq<Seq<char>>),
    Unsupported,
}

impl View for InstallAction {
    type V = InstallActionModel;

    open spec fn view(&self) -> InstallActionModel {
        match self {
            InstallAction::Canceled => InstallActionModel::Canceled,
            InstallAction::ShellScript(prog, args) => InstallActionModel::ShellScript(
                prog@,
                args.deep_view(),
            ),
            InstallAction::Unsupported => InstallActionModel::Unsupported,
        }
    }
}

/// An empty answer, `y` or `yes` (after trimming and lowercasing) means
/// consent; then the platform decides the install command.
pub open spec fn install_uv_decision_spec(input: Seq<char>, os: Seq<char>) -> InstallActionModel {
    let t = lower_seq(trim_spec(input));
    if t != "y"@ && t != "yes"@ && t.len() != 0 {
        InstallActionModel::Canceled
    } else if os == "macos"@ || os == "linux"@ {
        InstallActionModel::ShellScript(
            "sh"@,
            seq!["-c"@, "curl -LsSf https://astral.sh/uv/install.sh | sh"@],
        )
    } else if os == "windows"@ {
        InstallActionModel::ShellScript(
            "powershell"@,
            seq![
                "-ExecutionPolicy"@,
                "ByPass"@,
                "-c"@,
                "irm https://astral.sh/uv/install.ps1 | iex"@,
            ],
        )
    } else {
        InstallActionModel::Unsupported
    }
}

pub fn install_uv_decision(input: &str, os: &str) -> (r: InstallAction)
    ensures
        r@ == install_uv_decision_spec(input@, os@),
{
    let t = to_lowercase_ascii(trim(input));
    let consent = str_eq(t.as_str(), "y") || str_eq(t.as_str(), "yes") || t.as_str().is_empty();
    if !consent {
        InstallAction::Canceled
    } else if str_eq(os, "macos") || str_eq(os, "linux") {
        let r = InstallAction::ShellScript(
            String::from_str("sh"),
            args2("-c", "curl -LsSf https://astral.sh/uv/install.sh | sh"),
        );
        proof {
            assert(r@ =~= install_uv_decision_spec(input@, os@));
        }
        r
    } else if str_eq(os, "windows") {
        let mut args: Vec<String> = Vec::new();
        args.push(String::from_str("-ExecutionPolicy"));
        args.push(String::from_str("ByPass"));
        args.push(String::from_str("-c"));
        args.push(String::from_str("irm https://astral.sh/uv/install.ps1 | iex"));
        let r = InstallAction::ShellScript(String::from_str("powershell"), args);
        proof {
            assert(r@ =~= install_uv_decision_spec(input@, os@));
        }
        r
    } else {
        InstallAction::Unsupported
    }
}

// ---------------------------------------------------------------------------
// The commands of the Fortran build steps
// ---------------------------------------------------------------------------

/// The object-file base name: the source name with its Fortran suffixes
/// removed.
pub open spec fn object_base_spec(file: Seq<char>) -> Seq<char> {
    remove_occurrences_spec(remove_occurrences_spec(file, ".f90"@), ".f"@)
}

pub open spec fn flang_compile_command_spec(file: Seq<char>, release: bool) -> Seq<Seq<char>> {
    seq![
        "flang"@,
        if release {
            "-O3"@
        } else {
            "-g"@
        },
        "-c"@,
        file,
        "-o"@,
        (if release {
            "./target/release/"@
        } else {
            "./target/dev/"@
        }) + object_base_spec(file) + ".o"@,
    ]
}

/// The per-file compile invocation of the Fortran build task.
pub fn flang_compile_command(file: &str, release: bool) -> (r: Vec<String>)
    ensures
        r.deep_view() == flang_compile_command_spec(file@, release),
{
    proof {
        reveal_strlit(".f90");
        reveal_strlit(".f");
    }
    let base = remove_occurrences(remove_occurrences(file, ".f90").as_str(), ".f");
    let mut out = String::from_str(if release {
        "./target/release/"
    } else {
        "./target/dev/"
    });
    out.append(base.as_str());
    out.append(".o");
    let mut r: Vec<String> = Vec::new();
    r.push(String::from_str("flang"));
    r.push(String::from_str(if release {
        "-O3"
    } else {
        "-g"
    }));
    r.push(String::from_str("-c"));
    r.push(String::from_str(file));
    r.push(String::from_str("-o"));
    r.push(out);
    proof {
        assert(r.deep_view() =~= flang_compile_command_spec(file@, release));
    }
    r
}

pub open spec fn flang_link_command_spec(
    objects: Seq<Seq<char>>,
    main_stem: Seq<char>,
    release: bool,
) -> Seq<Seq<char>> {
    seq![
        "flang"@,
        if release {
            "-O3"@
        } else {
            "-g"@
        },
    ] + objects + seq![
        "-o"@,
        (if release {
            "./target/release/"@
        } else {
            "./target/dev/"@
        }) + main_stem + ".out"@,
    ]
}

/// The final link invocation of the Fortran build task.
pub fn flang_link_command(objects: &Vec<String>, main_stem: &str, release: bool) -> (r: Vec<
    String,
>)
    ensures
        r.deep_view() == flang_link_command_spec(objects.deep_view(), main_stem@, release),
{
    let mut r: Vec<String> = Vec::new();
    r.push(String::from_str("flang"));
    r.push(String::from_str(if release {
        "-O3"
    } else {
        "-g"
    }));
    let n = objects.len();
    let mut i: usize = 0;
    while i < n
        invariant
            n == objects@.len(),
            i <= n,
            r.deep_view() =~= seq![
                "flang"@,
                if release {
                    "-O3"@
                } else {
                    "-g"@
                },
            ] + objects.deep_view().take(i as int),
        decreases n - i,
    {
        proof {
            assert(objects.deep_view()[i as int] == objects@[i as int]@);
        }
        let ghost prev = r.deep_view();
        r.push(objects[i].clone());
        proof {
            assert(r.deep_view() =~= prev.push(objects.deep_view()[i as int]));
            assert(r.deep_view() =~= seq![
                "flang"@,
                if release {
                    "-O3"@
                } else {
                    "-g"@
                },
            ] + objects.deep_view().take(i + 1));
        }
        i += 1;
    }
    let mut out = String::from_str(if release {
        "./target/release/"
    } else {
        "./target/dev/"
    });
    out.append(main_stem);
    out.append(".out");
    r.push(String::from_str("-o"));
    r.push(out);
    proof {
        assert(objects.deep_view().take(n as int) =~= objects.deep_view());
        assert(r.deep_view() =~= flang_link_command_spec(
            objects.deep_view(),
            main_stem@,
            release,
        ));
    }
    r
}

// ---------------------------------------------------------------------------
// Control of the Fortran build task
// ---------------------------------------------------------------------------

/// Where the Fortran build task stands: compiling the file at an index of
/// the compilation order, asking whether any object file was produced,
/// linking, or finished with its result.
#[derive(Clone, Copy, Debug, PartialEq, Eq, Structural)]
pub enum FlangBuildStep {
    Compile(usize),
    CheckObjects,
    Link,
    Finished(bool),
}

pub open spec fn flang_build_start_spec(order_len: usize) -> FlangBuildStep {
    if order_len == 0 {
        FlangBuildStep::CheckObjects
    } else {
        FlangBuildStep::Compile(0)
    }
}

/// The build task's first step: with no files to compile it goes straight to
/// the object check, else it compiles the first file of the order.
pub fn flang_build_start(order_len: usize) -> (r: FlangBuildStep)
    ensures
        r == flang_build_start_spec(order_len),
{
    if order_len == 0 {
        FlangBuildStep::CheckObjects
    } else {
        FlangBuildStep::Compile(0)
    }
}

/// One transition of the build task.  The event is the outcome of the step
/// just performed: the compile's exit success, whether an object file
/// exists, or the link's exit success.
pub open spec fn flang_build_next_spec(
    order_len: usize,
    state: FlangBuildStep,
    event: bool,
) -> FlangBuildStep {
    match state {
        FlangBuildStep::Compile(i) => {
            if !event {
                FlangBuildStep::Finished(false)
            } else if i + 1 < order_len {
                FlangBuildStep::Compile((i + 1) as usize)
            } else {
                FlangBuildStep::CheckObjects
            }
        },
        FlangBuildStep::CheckObjects => {
            if event {
                FlangBuildStep::Link
            } else {
                FlangBuildStep::Finished(true)
            }
        },
        FlangBuildStep::Link => FlangBuildStep::Finished(event),
        FlangBuildStep::Finished(b) => FlangBuildStep::Finished(b),
    }
}

/// The next step of the build task: a failing compile ends the task with
/// failure, so the files after it are never compiled; after the last
/// successful compile the link runs only when an object file exists; with
/// nothing to link the task ends successfully.
pub fn flang_build_next(order_len: usize, state: &FlangBuildStep, event: bool) -> (r:
    FlangBuildStep)
    ensures
        r == flang_build_next_spec(order_len, *state, event),
{
    match state {
        FlangBuildStep::Compile(i) => {
            if !event {
                FlangBuildStep::Finished(false)
            } else if order_len >= 1 && *i < order_len - 1 {
                FlangBuildStep::Compile(*i + 1)
            } else {
                FlangBuildStep::CheckObjects
            }
        },
        FlangBuildStep::CheckObjects => {
            if event {
                FlangBuildStep::Link
            } else {
                FlangBuildStep::Finished(true)
            }
        },
        FlangBuildStep::Link => FlangBuildStep::Finished(event),
        FlangBuildStep::Finished(b) => FlangBuildStep::Finished(*b),
    }
}

/// Index of the first failing compile status, or -1 when all succeed.
pub open spec fn first_false(s: Seq<bool>) -> int
    decreases s.len(),
{
    if s.len() == 0 {
        -1
    } else if !s.first() {
        0
    } else {
        let r = first_false(s.drop_first());
        if r < 0 {
            -1
        } else {
            r + 1
        }
    }
}

pub open spec fn machine_measure(order_len: usize, state: FlangBuildStep) -> int {
    match state {
        FlangBuildStep::Compile(i) => {
            if i < order_len {
                order_len - i + 2
            } else {
                3
            }
        },
        FlangBuildStep::CheckObjects => 2,
        FlangBuildStep::Link => 1,
        FlangBuildStep::Finished(_) => 0,
    }
}

/// The machine driven to its end from `state`, counting the compiles that
/// run; each compile's event is its entry of `compile_ok`.
pub open spec fn flang_machine_loop(
    order_len: usize,
    state: FlangBuildStep,
    compiled: int,
    compile_ok: Seq<bool>,
    objects_exist: bool,
    link_ok: bool,
) -> (int, bool)
    decreases machine_measure(order_len, state),
{
    match state {
        FlangBuildStep::Finished(b) => (compiled, b),
        FlangBuildStep::Compile(i) => flang_machine_loop(
            order_len,
            flang_build_next_spec(order_len, state, compile_ok[i as int]),
            compiled + 1,
            compile_ok,
            objects_exist,
            link_ok,
        ),
        FlangBuildStep::CheckObjects => flang_machine_loop(
            order_len,
            flang_build_next_spec(order_len, state, objects_exist),
            compiled,
            compile_ok,
            objects_exist,
            link_ok,
        ),
        FlangBuildStep::Link => flang_machine_loop(
            order_len,
            flang_build_next_spec(order_len, state, link_ok),
            compiled,
            compile_ok,
            objects_exist,
            link_ok,
        ),
    }
}

/// A whole run of the build task from its start state.
pub open spec fn flang_machine_run(
    order_len: usize,
    compile_ok: Seq<bool>,
    objects_exist: bool,
    link_ok: bool,
) -> (int, bool) {
    flang_machine_loop(
        order_len,
        flang_build_start_spec(order_len),
        0,
        compile_ok,
        objects_exist,
        link_ok,
    )
}

proof fn lemma_machine_from(
    order_len: usize,
    i: usize,
    compiled: int,
    compile_ok: Seq<bool>,
    objects_exist: bool,
    link_ok: bool,
)
    requires
        compile_ok.len() == order_len,
        i < order_len,
    ensures
        ({
            let r = flang_machine_loop(
                order_len,
                FlangBuildStep::Compile(i),
                compiled,
                compile_ok,
                objects_exist,
                link_ok,
            );
            let ff = first_false(compile_ok.skip(i as int));
            &&& ff >= 0 ==> r == (compiled + ff + 1, false)
            &&& ff < 0 ==> r == (
                compiled + (order_len - i),
                if objects_exist {
                    link_ok
                } else {
                    true
                },
            )
        }),
    decreases order_len - i,
{
    let t = compile_ok.skip(i as int);
    assert(t[0] == compile_ok[i as int]);
    assert(t.drop_first() =~= compile_ok.skip(i as int + 1));
    let here = flang_machine_loop(
        order_len,
        FlangBuildStep::Compile(i),
        compiled,
        compile_ok,
        objects_exist,
        link_ok,
    );
    let after = flang_build_next_spec(order_len, FlangBuildStep::Compile(i), compile_ok[i as int]);
    assert(here == flang_machine_loop(
        order_len,
        after,
        compiled + 1,
        compile_ok,
        objects_exist,
        link_ok,
    ));
    if !compile_ok[i as int] {
        assert(first_false(t) == 0);
        assert(after == FlangBuildStep::Finished(false));
        assert(here == (compiled + 1, false));
    } else if i + 1 < order_len {
        assert(after == FlangBuildStep::Compile((i + 1) as usize));
        lemma_machine_from(
            order_len,
            (i + 1) as usize,
            compiled + 1,
            compile_ok,
            objects_exist,
            link_ok,
        );
        let ff_rest = first_false(compile_ok.skip(i as int + 1));
        assert(first_false(t) == (if ff_rest < 0 {
            -1int
        } else {
            ff_rest + 1
        }));
    } else {
        assert(t.len() == 1);
        assert(first_false(t.drop_first()) == -1);
        assert(first_false(t) == -1);
        assert(after == FlangBuildStep::CheckObjects);
        lemma_machine_wrapup(order_len, compiled + 1, compile_ok, objects_exist, link_ok);
    }
}

/// From the object check, the machine ends in at most two steps: link if an
/// object exists, success otherwise.
proof fn lemma_machine_wrapup(
    order_len: usize,
    compiled: int,
    compile_ok: Seq<bool>,
    objects_exist: bool,
    link_ok: bool,
)
    ensures
        flang_machine_loop(
            order_len,
            FlangBuildStep::CheckObjects,
            compiled,
            compile_ok,
            objects_exist,
            link_ok,
        ) == (
            compiled,
            if objects_exist {
                link_ok
            } else {
                true
            },
        ),
{
    let check = flang_machine_loop(
        order_len,
        FlangBuildStep::CheckObjects,
        compiled,
        compile_ok,
        objects_exist,
        link_ok,
    );
    if objects_exist {
        let link = flang_machine_loop(
            order_len,
            FlangBuildStep::Link,
            compiled,
            compile_ok,
            objects_exist,
            link_ok,
        );
        let done = flang_machine_loop(
            order_len,
            FlangBuildStep::Finished(link_ok),
            compiled,
            compile_ok,
            objects_exist,
            link_ok,
        );
        assert(done == (compiled, link_ok));
        assert(link == done);
        assert(check == link);
    } else {
        let done = flang_machine_loop(
            order_len,
            FlangBuildStep::Finished(true),
            compiled,
            compile_ok,
            objects_exist,
            link_ok,
        );
        assert(done == (compiled, true));
        assert(check == done);
    }
}

/// Driven from its start state over the files of the compilation order, the
/// build task compiles them one by one: the first failing compile runs, ends
/// the task with failure, and every later file is skipped; when all compiles
/// succeed, the link runs exactly when an object file exists and its exit
/// success is the task's result; with nothing to link the task succeeds.
pub proof fn lemma_flang_build_control(
    order_len: usize,
    compile_ok: Seq<bool>,
    objects_exist: bool,
    link_ok: bool,
)
    requires
        compile_ok.len() == order_len,
    ensures
        ({
            let r = flang_machine_run(order_len, compile_ok, objects_exist, link_ok);
            let ff = first_false(compile_ok);
            &&& ff >= 0 ==> r == (ff + 1, false)
            &&& ff < 0 ==> r == (
                order_len as int,
                if objects_exist {
                    link_ok
                } else {
                    true
                },
            )
        }),
{
    if order_len == 0 {
        lemma_machine_wrapup(order_len, 0, compile_ok, objects_exist, link_ok);
    } else {
        lemma_machine_from(order_len, 0, 0, compile_ok, objects_exist, link_ok);
        assert(compile_ok.skip(0) =~= compile_ok);
    }
}

} // verus!
