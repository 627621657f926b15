//! The dispatch table: which marker stands for which build tool.

use vstd::prelude::*;
use crate::model::{lemma_views_push, views, Facts, ProbeView};
use crate::plan::{plan, plan_of, Step, StepView};
use crate::rules::{
    advise_if_file_and_folder_exist, file_rule, hint_rule, run_program_if_exists,
    run_program_if_file_exists, script_rule, Rule, RuleView,
};

verus! {

/// The number of rules in the table.
pub open spec fn standard_len() -> int {
    14
}

/// The line printed for a CMake project that already has a build folder.
pub open spec fn out_of_tree_line() -> Seq<char> {
    "Run this: cd build && cmake .. && make"@
}

/// The rule at position `i` of the table. The position is the priority:
/// local scripts first, then just, make, cargo, sbt, gradle, dune, bazel,
/// and CMake last, where an existing build folder only earns advice.
pub open spec fn standard_rule(i: int) -> RuleView {
    if i == 0 {
        script_rule("./build.sh"@, true)
    } else if i == 1 {
        script_rule("./make.sh"@, true)
    } else if i == 2 {
        file_rule("just"@, Seq::empty(), true, "Justfile"@)
    } else if i == 3 {
        file_rule("just"@, Seq::empty(), true, "justfile"@)
    } else if i == 4 {
        file_rule("make"@, Seq::empty(), true, "Makefile"@)
    } else if i == 5 {
        file_rule("make"@, Seq::empty(), true, "makefile"@)
    } else if i == 6 {
        file_rule("make"@, Seq::empty(), true, "GNUmakefile"@)
    } else if i == 7 {
        file_rule("cargo"@, seq!["build"@], true, "Cargo.toml"@)
    } else if i == 8 {
        file_rule("sbt"@, seq!["compile"@], true, "build.sbt"@)
    } else if i == 9 {
        file_rule("gradle"@, seq!["build"@], true, "build.gradle"@)
    } else if i == 10 {
        file_rule("dune"@, seq!["build"@], true, "dune"@)
    } else if i == 11 {
        file_rule("bazel"@, seq!["build"@, "--spawn_strategy=local"@, "//..."@], true, "BUILD"@)
    } else if i == 12 {
        hint_rule(out_of_tree_line(), 0, "CMakeLists.txt"@, "build"@)
    } else {
        file_rule("cmake"@, seq!["."@], true, "CMakeLists.txt"@)
    }
}

/// The table as a sequence.
pub open spec fn standard_table() -> Seq<RuleView> {
    Seq::new(standard_len() as nat, |i: int| standard_rule(i))
}

/// No fixed arguments.
fn no_args() -> (args: Vec<String>)
    ensures
        views(args@) == Seq::<Seq<char>>::empty(),
{
    let args: Vec<String> = Vec::new();
    assert(views(args@) =~= Seq::<Seq<char>>::empty());
    args
}

/// A single fixed argument.
fn one_arg(arg: &str) -> (args: Vec<String>)
    ensures
        views(args@) == seq![arg@],
{
    let mut args: Vec<String> = Vec::new();
    args.push(arg.to_owned());
    assert(views(args@) =~= seq![arg@]);
    args
}

/// The dispatch table, in priority order.
pub fn standard_rules() -> (rules: Vec<Rule>)
    ensures
        views(rules@) == standard_table(),
{
    let mut bazel_args = one_arg("build");
    let strategy = "--spawn_strategy=local".to_owned();
    let target = "//...".to_owned();
    proof {
        lemma_views_push(bazel_args@, strategy);
        lemma_views_push(bazel_args@.push(strategy), target);
    }
    bazel_args.push(strategy);
    bazel_args.push(target);
    assert(views(bazel_args@) =~= seq!["build"@, "--spawn_strategy=local"@, "//..."@]);

    let mut rules: Vec<Rule> = Vec::new();
    // custom build script
    rules.push(run_program_if_exists("./build.sh", true));
    // custom make script
    rules.push(run_program_if_exists("./make.sh", true));
    // just
    rules.push(run_program_if_file_exists("just", no_args(), true, "Justfile"));
    rules.push(run_program_if_file_exists("just", no_args(), true, "justfile"));
    // the venerable make
    rules.push(run_program_if_file_exists("make", no_args(), true, "Makefile"));
    rules.push(run_program_if_file_exists("make", no_args(), true, "makefile"));
    rules.push(run_program_if_file_exists("make", no_args(), true, "GNUmakefile"));
    // cargo
    rules.push(run_program_if_file_exists("cargo", one_arg("build"), true, "Cargo.toml"));
    // sbt (Scala)
    rules.push(run_program_if_file_exists("sbt", one_arg("compile"), true, "build.sbt"));
    // gradle
    rules.push(run_program_if_file_exists("gradle", one_arg("build"), true, "build.gradle"));
    // dune (OCaml)
    rules.push(run_program_if_file_exists("dune", one_arg("build"), true, "dune"));
    // bazel
    rules.push(run_program_if_file_exists("bazel", bazel_args, true, "BUILD"));
    // cmake with a build folder: advice only, nothing is built
    rules.push(
        advise_if_file_and_folder_exist(
            "Run this: cd build && cmake .. && make",
            0,
            "CMakeLists.txt",
            "build",
        ),
    );
    // cmake in the source tree
    rules.push(run_program_if_file_exists("cmake", one_arg("."), true, "CMakeLists.txt"));
    assert(views(rules@) =~= standard_table());
    rules
}

/// The plan for a working directory under the dispatch table: what to say,
/// which build tool to run with which arguments, and how to leave.
pub fn build_plan(facts: &Facts, trailing: &Vec<String>) -> (steps: Vec<Step>)
    ensures
        views(steps@) == plan_of(standard_table(), facts@, views(trailing@)),
{
    let rules = standard_rules();
    plan(&rules, facts, trailing)
}

} // verus!
