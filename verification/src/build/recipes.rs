//! The five build recipes and their staging lists, in build order, plus the
//! text of a step's log file and failure report.

use vstd::prelude::*;

use crate::text::{join_path, owned, path_join, str_eq};

verus! {

/// One command a recipe runs, with the worktree as its working directory.
/// `name` labels the log file (`logs/<repo>-<name>.log`).
#[derive(Debug, Clone)]
pub struct Step {
    pub name: String,
    pub program: String,
    pub args: Vec<String>,
}

/// One binary a recipe stages into `dist/`: the worktree-relative path it is
/// built at, and the name it is staged under.
#[derive(Debug, Clone)]
pub struct Staged {
    pub name: String,
    pub source: String,
}

/// One repository's build recipe: the steps to run in order, and what to
/// stage afterwards.
#[derive(Debug, Clone)]
pub struct Recipe {
    pub repo: String,
    pub steps: Vec<Step>,
    pub staged: Vec<Staged>,
}

/// The mathematical form of a [`Step`].
pub struct StepView {
    pub name: Seq<char>,
    pub program: Seq<char>,
    pub args: Seq<Seq<char>>,
}

/// The mathematical form of a [`Staged`] entry.
pub struct StagedView {
    pub name: Seq<char>,
    pub source: Seq<char>,
}

/// The mathematical form of a [`Recipe`].
pub struct RecipeView {
    pub repo: Seq<char>,
    pub steps: Seq<StepView>,
    pub staged: Seq<StagedView>,
}

/// The views of a list of strings.
pub open spec fn strings_view(v: Seq<String>) -> Seq<Seq<char>> {
    v.map_values(|s: String| s@)
}

impl View for Step {
    type V = StepView;

    open spec fn view(&self) -> StepView {
        StepView { name: self.name@, program: self.program@, args: strings_view(self.args@) }
    }
}

impl View for Staged {
    type V = StagedView;

    open spec fn view(&self) -> StagedView {
        StagedView { name: self.name@, source: self.source@ }
    }
}

impl View for Recipe {
    type V = RecipeView;

    open spec fn view(&self) -> RecipeView {
        RecipeView {
            repo: self.repo@,
            steps: self.steps@.map_values(|s: Step| s@),
            staged: self.staged@.map_values(|s: Staged| s@),
        }
    }
}

/// The binary-producing repositories in build order. This is also the list
/// `--tip` resolves.
pub open spec fn build_order_spec() -> Seq<Seq<char>> {
    seq![
        "zl-zpr-compiler"@,
        "zl-zpr-visaservice"@,
        "zl-zpr-core"@,
        "zl-zpr-coredns"@,
        "zl-zpr-demo"@,
    ]
}

/// The binary-producing repositories in build order.
pub fn build_order() -> (r: Vec<&'static str>)
    ensures
        r@.map_values(|s: &'static str| s@) == build_order_spec(),
{
    let r = vec![
        "zl-zpr-compiler",
        "zl-zpr-visaservice",
        "zl-zpr-core",
        "zl-zpr-coredns",
        "zl-zpr-demo",
    ];
    assert(r@.map_values(|s: &'static str| s@) =~= build_order_spec());
    r
}

/// A step from literals.
fn step(name: &str, program: &str, args: Vec<&str>) -> (s: Step)
    ensures
        s@ == (StepView {
            name: name@,
            program: program@,
            args: args@.map_values(|a: &str| a@),
        }),
{
    let mut owned_args: Vec<String> = Vec::new();
    let mut i: usize = 0;
    while i < args.len()
        invariant
            i <= args.len(),
            strings_view(owned_args@) == args@.take(i as int).map_values(|a: &str| a@),
        decreases args.len() - i,
    {
        let ghost before = owned_args@;
        let o = owned(args[i]);
        owned_args.push(o);
        assert(owned_args@ == before.push(o));
        assert(strings_view(owned_args@) =~= strings_view(before).push(args@[i as int]@));
        assert(args@.take(i + 1) =~= args@.take(i as int).push(args@[i as int]));
        assert(strings_view(owned_args@) =~= args@.take(i + 1).map_values(|a: &str| a@));
        i = i + 1;
    }
    assert(args@.take(args.len() as int) =~= args@);
    Step { name: owned(name), program: owned(program), args: owned_args }
}

/// A staging entry from literals.
fn staged(name: &str, source: &str) -> (s: Staged)
    ensures
        s@ == (StagedView { name: name@, source: source@ }),
{
    Staged { name: owned(name), source: owned(source) }
}

/// The recipe table, in build order: the repository, its step programs and
/// arguments, and each staged `(name, source)`.
pub open spec fn recipe_table() -> Seq<RecipeView> {
    seq![
        RecipeView {
            repo: "zl-zpr-compiler"@,
            steps: seq![StepView { name: "build"@, program: "cargo"@, args: seq!["build"@, "--release"@] }],
            staged: seq![
                StagedView { name: "zplc"@, source: "target/release/zplc"@ },
                StagedView { name: "zpdump"@, source: "target/release/zpdump"@ },
            ],
        },
        RecipeView {
            repo: "zl-zpr-visaservice"@,
            steps: seq![StepView { name: "release"@, program: "make"@, args: seq!["release"@] }],
            staged: seq![
                StagedView { name: "vs"@, source: "build-release/vs"@ },
                StagedView { name: "vs-admin"@, source: "build-release/vs-admin"@ },
                StagedView { name: "vsapikey"@, source: "build-release/vsapikey"@ },
                StagedView { name: "zpt"@, source: "build-release/zpt"@ },
                StagedView { name: "zpr-dashboard"@, source: "build-release/zpr-dashboard"@ },
            ],
        },
        RecipeView {
            repo: "zl-zpr-core"@,
            steps: seq![StepView { name: "build"@, program: "cargo"@, args: seq!["build"@, "--release"@] }],
            staged: seq![
                StagedView { name: "ph"@, source: "target/release/ph"@ },
                StagedView { name: "ph-cli"@, source: "target/release/ph-cli"@ },
            ],
        },
        RecipeView {
            repo: "zl-zpr-coredns"@,
            steps: seq![StepView { name: "build"@, program: "make"@, args: seq!["build"@] }],
            staged: seq![StagedView { name: "coredns"@, source: "bin/coredns"@ }],
        },
        RecipeView { repo: "zl-zpr-demo"@, steps: seq![], staged: seq![] },
    ]
}

/// The recipe table, in build order. Step 1 comes first because the visa
/// service's `pregen` and the demo's policy compilation both need `zplc`; the
/// demo builds nothing because the docker tier copies `dist/` into it instead.
pub fn recipes() -> (r: Vec<Recipe>)
    ensures
        r@.map_values(|x: Recipe| x@) == recipe_table(),
{
    let build_release = step("build", "cargo", vec!["build", "--release"]);
    assert(build_release@.args =~= seq!["build"@, "--release"@]);
    let compiler = Recipe {
        repo: owned("zl-zpr-compiler"),
        steps: vec![build_release],
        staged: vec![staged("zplc", "target/release/zplc"), staged("zpdump", "target/release/zpdump")],
    };
    let release = step("release", "make", vec!["release"]);
    assert(release@.args =~= seq!["release"@]);
    let visaservice = Recipe {
        repo: owned("zl-zpr-visaservice"),
        steps: vec![release],
        staged: vec![
            staged("vs", "build-release/vs"),
            staged("vs-admin", "build-release/vs-admin"),
            staged("vsapikey", "build-release/vsapikey"),
            staged("zpt", "build-release/zpt"),
            staged("zpr-dashboard", "build-release/zpr-dashboard"),
        ],
    };
    let build_core = step("build", "cargo", vec!["build", "--release"]);
    assert(build_core@.args =~= seq!["build"@, "--release"@]);
    let core = Recipe {
        repo: owned("zl-zpr-core"),
        steps: vec![build_core],
        staged: vec![staged("ph", "target/release/ph"), staged("ph-cli", "target/release/ph-cli")],
    };
    let build_coredns = step("build", "make", vec!["build"]);
    assert(build_coredns@.args =~= seq!["build"@]);
    let coredns = Recipe {
        repo: owned("zl-zpr-coredns"),
        steps: vec![build_coredns],
        staged: vec![staged("coredns", "bin/coredns")],
    };
    let demo = Recipe { repo: owned("zl-zpr-demo"), steps: Vec::new(), staged: Vec::new() };
    let r = vec![compiler, visaservice, core, coredns, demo];
    proof {
        assert(r@[0]@.steps =~= recipe_table()[0].steps);
        assert(r@[0]@.steps[0].args =~= recipe_table()[0].steps[0].args);
        assert(r@[0]@.staged =~= recipe_table()[0].staged);
        assert(r@[1]@.steps =~= recipe_table()[1].steps);
        assert(r@[1]@.steps[0].args =~= recipe_table()[1].steps[0].args);
        assert(r@[1]@.staged =~= recipe_table()[1].staged);
        assert(r@[2]@.steps =~= recipe_table()[2].steps);
        assert(r@[2]@.steps[0].args =~= recipe_table()[2].steps[0].args);
        assert(r@[2]@.staged =~= recipe_table()[2].staged);
        assert(r@[3]@.steps =~= recipe_table()[3].steps);
        assert(r@[3]@.steps[0].args =~= recipe_table()[3].steps[0].args);
        assert(r@[3]@.staged =~= recipe_table()[3].staged);
        assert(r@[4]@.steps =~= recipe_table()[4].steps);
        assert(r@[4]@.staged =~= recipe_table()[4].staged);
        assert(r@.map_values(|x: Recipe| x@) =~= recipe_table());
    }
    r
}

/// The first recipe in `table` for `repo`, by index.
pub open spec fn recipe_index(table: Seq<RecipeView>, repo: Seq<char>) -> Option<int>
    decreases table.len(),
{
    if table.len() == 0 {
        None
    } else if table[0].repo == repo {
        Some(0)
    } else {
        match recipe_index(table.drop_first(), repo) {
            Some(i) => Some(i + 1),
            None => None,
        }
    }
}

/// The recipe for one repository, when the table has one. `None` is not an
/// error: a build set may resolve repositories outside the table.
pub fn recipe_for(repo: &str) -> (r: Option<Recipe>)
    ensures
        match r {
            Some(recipe) => recipe_index(recipe_table(), repo@) matches Some(i) && recipe@
                == recipe_table()[i],
            None => recipe_index(recipe_table(), repo@) is None,
        },
{
    let table = recipes();
    let ghost t = table@.map_values(|x: Recipe| x@);
    let mut i: usize = 0;
    assert(t.skip(0) =~= t);
    while i < table.len()
        invariant
            i <= table.len(),
            t == table@.map_values(|x: Recipe| x@),
            t == recipe_table(),
            recipe_index(t, repo@) == match recipe_index(t.skip(i as int), repo@) {
                Some(k) => Some(k + i),
                None => None::<int>,
            },
        decreases table.len() - i,
    {
        assert(t.skip(i as int)[0] == t[i as int]);
        assert(t.skip(i as int).drop_first() =~= t.skip(i + 1));
        if str_eq(table[i].repo.as_str(), repo) {
            let mut table = table;
            let recipe = table.remove(i);
            return Some(recipe);
        }
        i = i + 1;
    }
    None
}

/// `<logs>/<repo>-<name>.log`: where a step's combined output lands.
pub open spec fn log_path(logs: Seq<char>, repo: Seq<char>, name: Seq<char>) -> Seq<char> {
    path_join(logs, repo + "-"@ + name + ".log"@)
}

/// The log file of one step.
pub fn step_log_path(logs: &str, repo: &str, name: &str) -> (r: String)
    ensures
        r@ == log_path(logs@, repo@, name@),
{
    let mut file = owned(repo);
    file.append("-");
    file.append(name);
    file.append(".log");
    join_path(logs, file.as_str())
}

/// The error a failed step reports: the repository, the step, how the process
/// ended, and where its full output is.
pub fn step_failure(repo: &str, name: &str, status: &str, log: &str) -> (r: String)
    ensures
        r@ == repo@ + ": step `"@ + name@ + "` failed ("@ + status@ + "); full output in "@ + log@,
{
    let mut e = owned(repo);
    e.append(": step `");
    e.append(name);
    e.append("` failed (");
    e.append(status);
    e.append("); full output in ");
    e.append(log);
    e
}

/// The last `n` lines of a log, which a failed step echoes.
pub fn tail<'a>(lines: &Vec<&'a str>, n: usize) -> (r: Vec<&'a str>)
    ensures
        r@ == lines@.skip(if lines.len() > n { lines.len() - n } else { 0 }),
{
    let start = if lines.len() > n { lines.len() - n } else { 0 };
    let mut r: Vec<&'a str> = Vec::new();
    let mut i: usize = start;
    while i < lines.len()
        invariant
            start <= i <= lines.len(),
            r@ == lines@.subrange(start as int, i as int),
        decreases lines.len() - i,
    {
        r.push(lines[i]);
        assert(lines@.subrange(start as int, i + 1) =~= lines@.subrange(start as int, i as int).push(
            lines@[i as int],
        ));
        i = i + 1;
    }
    assert(lines@.subrange(start as int, lines.len() as int) =~= lines@.skip(start as int));
    r
}

/// The error for a staged source a build did not produce.
pub fn missing_stage_source(repo: &str, source: &str, expected_at: &str) -> (r: String)
    ensures
        r@ == repo@ + ": build did not produce "@ + source@ + " (expected at "@ + expected_at@
            + ")"@,
{
    let mut e = owned(repo);
    e.append(": build did not produce ");
    e.append(source);
    e.append(" (expected at ");
    e.append(expected_at);
    e.append(")");
    e
}


/// One process a step, a tier script or a prep build runs: the log label and
/// step name (`logs/<label>-<name>.log`), the program and its arguments, the
/// environment overrides set on the child alone, the inherited variables
/// removed from it, and its working directory. Running it is I/O; building it
/// is what the plans and runners decide.
#[derive(Debug)]
pub struct Command {
    pub label: String,
    pub name: String,
    pub program: String,
    pub args: Vec<String>,
    pub env: Vec<(String, String)>,
    pub env_remove: Vec<String>,
    pub dir: String,
}

/// The mathematical form of a [`Command`].
pub struct CommandView {
    pub label: Seq<char>,
    pub name: Seq<char>,
    pub program: Seq<char>,
    pub args: Seq<Seq<char>>,
    pub env: Seq<(Seq<char>, Seq<char>)>,
    pub env_remove: Seq<Seq<char>>,
    pub dir: Seq<char>,
}

/// The views of a list of string pairs.
pub open spec fn pairs_view(v: Seq<(String, String)>) -> Seq<(Seq<char>, Seq<char>)> {
    v.map_values(|p: (String, String)| (p.0@, p.1@))
}

impl View for Command {
    type V = CommandView;

    open spec fn view(&self) -> CommandView {
        CommandView {
            label: self.label@,
            name: self.name@,
            program: self.program@,
            args: strings_view(self.args@),
            env: pairs_view(self.env@),
            env_remove: strings_view(self.env_remove@),
            dir: self.dir@,
        }
    }
}

/// The command `run` executed and what it answered: an `Ok` or an error text.
/// Says nothing of how the closure ran it, only that this was a possible
/// answer for a command with this view.
pub open spec fn ran<F: Fn(&Command) -> Result<(), String>>(
    run: F,
    cmd: CommandView,
    result: Result<(), Seq<char>>,
) -> bool {
    exists|c: Command, r: Result<(), String>|
        #[trigger] call_ensures(run, (&c,), r) && c@ == cmd && match (r, result) {
            (Ok(_), Ok(_)) => true,
            (Err(e), Err(t)) => e@ == t,
            _ => false,
        }
}

/// A copy of a list of strings.
pub fn clone_strings(v: &Vec<String>) -> (r: Vec<String>)
    ensures
        strings_view(r@) == strings_view(v@),
{
    let mut r: Vec<String> = Vec::new();
    let mut i: usize = 0;
    while i < v.len()
        invariant
            i <= v.len(),
            strings_view(r@) == strings_view(v@).take(i as int),
        decreases v.len() - i,
    {
        let ghost before = r@;
        let s = owned(v[i].as_str());
        r.push(s);
        assert(strings_view(r@) =~= strings_view(before).push(s@));
        assert(strings_view(r@) =~= strings_view(v@).take(i + 1));
        i = i + 1;
    }
    assert(strings_view(v@).take(v.len() as int) =~= strings_view(v@));
    r
}

/// A copy of a recipe.
pub fn clone_recipe(r: &Recipe) -> (c: Recipe)
    ensures
        c@ == r@,
{
    let mut steps: Vec<Step> = Vec::new();
    let mut i: usize = 0;
    while i < r.steps.len()
        invariant
            i <= r.steps.len(),
            steps@.map_values(|s: Step| s@) == r.steps@.map_values(|s: Step| s@).take(i as int),
        decreases r.steps.len() - i,
    {
        let s = &r.steps[i];
        let copy = Step { name: owned(s.name.as_str()), program: owned(s.program.as_str()), args: clone_strings(&s.args) };
        let ghost before = steps@;
        steps.push(copy);
        assert(steps@.map_values(|s: Step| s@) =~= before.map_values(|s: Step| s@).push(copy@));
        assert(copy@ == r.steps@[i as int]@);
        assert(steps@.map_values(|s: Step| s@) =~= r.steps@.map_values(|s: Step| s@).take(i + 1));
        i = i + 1;
    }
    let mut staged: Vec<Staged> = Vec::new();
    let mut j: usize = 0;
    while j < r.staged.len()
        invariant
            j <= r.staged.len(),
            staged@.map_values(|s: Staged| s@) == r.staged@.map_values(|s: Staged| s@).take(j as int),
        decreases r.staged.len() - j,
    {
        let s = &r.staged[j];
        let copy = Staged { name: owned(s.name.as_str()), source: owned(s.source.as_str()) };
        let ghost before = staged@;
        staged.push(copy);
        assert(staged@.map_values(|s: Staged| s@) =~= before.map_values(|s: Staged| s@).push(copy@));
        assert(copy@ == r.staged@[j as int]@);
        assert(staged@.map_values(|s: Staged| s@) =~= r.staged@.map_values(|s: Staged| s@).take(j + 1));
        j = j + 1;
    }
    assert(r.steps@.map_values(|s: Step| s@).take(i as int) =~= r.steps@.map_values(|s: Step| s@));
    assert(r.staged@.map_values(|s: Staged| s@).take(j as int) =~= r.staged@.map_values(|s: Staged| s@));
    let c = Recipe { repo: owned(r.repo.as_str()), steps, staged };
    assert(c@.steps =~= r@.steps);
    assert(c@.staged =~= r@.staged);
    c
}

/// A copy of a list of string pairs.
pub fn clone_pairs(v: &Vec<(String, String)>) -> (r: Vec<(String, String)>)
    ensures
        pairs_view(r@) == pairs_view(v@),
{
    let mut r: Vec<(String, String)> = Vec::new();
    let mut i: usize = 0;
    while i < v.len()
        invariant
            i <= v.len(),
            pairs_view(r@) == pairs_view(v@).take(i as int),
        decreases v.len() - i,
    {
        let ghost before = r@;
        let p = (owned(v[i].0.as_str()), owned(v[i].1.as_str()));
        r.push(p);
        assert(pairs_view(r@) =~= pairs_view(before).push((p.0@, p.1@)));
        assert(pairs_view(r@) =~= pairs_view(v@).take(i + 1));
        i = i + 1;
    }
    assert(pairs_view(v@).take(v.len() as int) =~= pairs_view(v@));
    r
}

/// Strings from literals.
pub fn strings_of(v: &Vec<&str>) -> (r: Vec<String>)
    ensures
        strings_view(r@) == v@.map_values(|s: &str| s@),
{
    let mut r: Vec<String> = Vec::new();
    let mut i: usize = 0;
    while i < v.len()
        invariant
            i <= v.len(),
            strings_view(r@) == v@.map_values(|s: &str| s@).take(i as int),
        decreases v.len() - i,
    {
        let ghost before = r@;
        let s = owned(v[i]);
        r.push(s);
        assert(strings_view(r@) =~= strings_view(before).push(s@));
        assert(strings_view(r@) =~= v@.map_values(|s: &str| s@).take(i + 1));
        i = i + 1;
    }
    assert(v@.map_values(|s: &str| s@).take(v.len() as int) =~= v@.map_values(|s: &str| s@));
    r
}

/// The command one recipe step runs: labelled by the repository, in the
/// worktree, with nothing added to or removed from the environment.
pub open spec fn step_command(repo: Seq<char>, step: StepView, worktree: Seq<char>) -> CommandView {
    CommandView {
        label: repo,
        name: step.name,
        program: step.program,
        args: step.args,
        env: seq![],
        env_remove: seq![],
        dir: worktree,
    }
}

/// Runs one step with `worktree` as the working directory through `run`,
/// which executes the command, writes its log and reports failure as the
/// error text. What comes back is exactly what `run` answered for that
/// command.
pub fn run_step<F: Fn(&Command) -> Result<(), String>>(
    repo: &str,
    step: &Step,
    worktree: &str,
    run: &F,
) -> (r: Result<(), String>)
    requires
        forall|c: &Command| call_requires(*run, (c,)),
    ensures
        ran(*run, step_command(repo@, step@, worktree@), match r {
            Ok(_) => Ok(()),
            Err(e) => Err(e@),
        }),
{
    let cmd = Command {
        label: owned(repo),
        name: owned(step.name.as_str()),
        program: owned(step.program.as_str()),
        args: clone_strings(&step.args),
        env: Vec::new(),
        env_remove: Vec::new(),
        dir: owned(worktree),
    };
    assert(cmd@.env =~= Seq::<(Seq<char>, Seq<char>)>::empty());
    assert(cmd@.env_remove =~= Seq::<Seq<char>>::empty());
    let r = run(&cmd);
    assert(call_ensures(*run, (&cmd,), r));
    r
}

} // verus!
