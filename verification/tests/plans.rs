use buildpick::model::{Facts, Kind, Probe};
use buildpick::plan::{
    advice, delegate, forward, plan, required_probes, submodule_check, turn, turn_probes, walk, Step,
};
use buildpick::rules::{
    advise_if_file_and_folder_exist, run_program_if_exists, run_program_if_file_exists, Effect,
    Marker, Rule,
};
use buildpick::table::{build_plan, standard_rules};

const ADVICE: &str = "You may want to run: git submodule --init --recursive";
const UNKNOWN: &str = "I don't know how to build this project!";
const OUT_OF_TREE: &str = "Run this: cd build && cmake .. && make";

fn strings(items: &[&str]) -> Vec<String> {
    items.iter().map(|s| s.to_string()).collect()
}

fn facts_of(held: &[(Kind, &str)]) -> Facts {
    let mut facts = Facts::new();
    for (kind, path) in held {
        facts.record(Probe::new(*kind, path), true);
    }
    facts
}

fn run(program: &str, args: &[&str]) -> Step {
    Step::Run { program: program.to_string(), args: strings(args), exit_with_status: true }
}

fn say(line: &str) -> Step {
    Step::Say(line.to_string())
}

fn sole_file(file: &str, program: &str, args: &[&str]) {
    let facts = facts_of(&[(Kind::File, file)]);
    assert_eq!(build_plan(&facts, &strings(&[])), vec![run(program, args)]);
    let mut forwarded = strings(args);
    forwarded.push("-j4".to_string());
    forwarded.push("all".to_string());
    assert_eq!(
        build_plan(&facts, &strings(&["-j4", "all"])),
        vec![Step::Run {
            program: program.to_string(),
            args: forwarded,
            exit_with_status: true
        }]
    );
}

#[test]
fn sole_build_script_is_run() {
    let facts = facts_of(&[(Kind::Executable, "./build.sh")]);
    assert_eq!(build_plan(&facts, &strings(&[])), vec![run("./build.sh", &[])]);
}

#[test]
fn sole_make_script_is_run() {
    let facts = facts_of(&[(Kind::Executable, "./make.sh")]);
    assert_eq!(build_plan(&facts, &strings(&["x"])), vec![run("./make.sh", &["x"])]);
}

#[test]
fn script_that_is_only_a_file_is_not_run() {
    let facts = facts_of(&[(Kind::File, "./build.sh"), (Kind::File, "./make.sh")]);
    assert_eq!(build_plan(&facts, &strings(&[])), vec![say(UNKNOWN)]);
}

#[test]
fn sole_justfile_runs_just() {
    sole_file("Justfile", "just", &[]);
    sole_file("justfile", "just", &[]);
}

#[test]
fn sole_makefile_runs_make() {
    sole_file("Makefile", "make", &[]);
    sole_file("makefile", "make", &[]);
    sole_file("GNUmakefile", "make", &[]);
}

#[test]
fn sole_cargo_manifest_runs_cargo_build() {
    sole_file("Cargo.toml", "cargo", &["build"]);
}

#[test]
fn sole_sbt_file_runs_sbt_compile() {
    sole_file("build.sbt", "sbt", &["compile"]);
}

#[test]
fn sole_gradle_file_runs_gradle_build() {
    sole_file("build.gradle", "gradle", &["build"]);
}

#[test]
fn sole_dune_file_runs_dune_build() {
    sole_file("dune", "dune", &["build"]);
}

#[test]
fn sole_bazel_file_runs_bazel_build() {
    sole_file("BUILD", "bazel", &["build", "--spawn_strategy=local", "//..."]);
}

#[test]
fn sole_cmake_file_runs_cmake_in_place() {
    sole_file("CMakeLists.txt", "cmake", &["."]);
}

#[test]
fn marker_names_are_case_sensitive() {
    let facts = facts_of(&[(Kind::File, "cargo.toml"), (Kind::File, "build"), (Kind::File, "Dune")]);
    assert_eq!(build_plan(&facts, &strings(&[])), vec![say(UNKNOWN)]);
}

#[test]
fn build_script_wins_over_makefile() {
    let facts = facts_of(&[(Kind::File, "Makefile"), (Kind::Executable, "./build.sh")]);
    assert_eq!(build_plan(&facts, &strings(&[])), vec![run("./build.sh", &[])]);
}

#[test]
fn higher_rule_wins_whatever_else_exists() {
    let facts = facts_of(&[
        (Kind::File, "CMakeLists.txt"),
        (Kind::Folder, "build"),
        (Kind::File, "BUILD"),
        (Kind::File, "Cargo.toml"),
        (Kind::File, "makefile"),
    ]);
    assert_eq!(build_plan(&facts, &strings(&["-k"])), vec![run("make", &["-k"])]);
    let facts = facts_of(&[(Kind::File, "build.gradle"), (Kind::File, "build.sbt")]);
    assert_eq!(build_plan(&facts, &strings(&[])), vec![run("sbt", &["compile"])]);
    let facts = facts_of(&[(Kind::Executable, "./make.sh"), (Kind::File, "Justfile")]);
    assert_eq!(build_plan(&facts, &strings(&[])), vec![run("./make.sh", &[])]);
}

#[test]
fn cmake_with_build_folder_only_advises() {
    let facts = facts_of(&[(Kind::File, "CMakeLists.txt"), (Kind::Folder, "build")]);
    let steps = build_plan(&facts, &strings(&["--fresh"]));
    assert_eq!(steps, vec![say(OUT_OF_TREE), Step::Exit(0)]);
    assert!(!steps.iter().any(|s| matches!(s, Step::Run { .. })));
}

#[test]
fn cmake_without_build_folder_runs_cmake() {
    let facts = facts_of(&[(Kind::File, "CMakeLists.txt"), (Kind::File, "build")]);
    assert_eq!(build_plan(&facts, &strings(&[])), vec![run("cmake", &["."])]);
    assert_eq!(
        build_plan(&facts, &strings(&["-G", "Ninja"])),
        vec![run("cmake", &[".", "-G", "Ninja"])]
    );
}

#[test]
fn build_folder_alone_is_no_marker() {
    let facts = facts_of(&[(Kind::Folder, "build")]);
    assert_eq!(build_plan(&facts, &strings(&[])), vec![say(UNKNOWN)]);
}

#[test]
fn empty_directory_is_unknown() {
    let steps = build_plan(&Facts::new(), &strings(&["--release"]));
    assert_eq!(steps, vec![say(UNKNOWN)]);
}

#[test]
fn trailing_arguments_follow_fixed_ones_once() {
    let facts = facts_of(&[(Kind::File, "Cargo.toml")]);
    assert_eq!(
        build_plan(&facts, &strings(&["--release"])),
        vec![run("cargo", &["build", "--release"])]
    );
    assert_eq!(
        build_plan(&facts, &strings(&["--", "a b", "", "--release", "--release"])),
        vec![run("cargo", &["build", "--", "a b", "", "--release", "--release"])]
    );
}

#[test]
fn forward_concatenates() {
    assert_eq!(forward(&strings(&[]), &strings(&[])), strings(&[]));
    assert_eq!(forward(&strings(&["a"]), &strings(&[])), strings(&["a"]));
    assert_eq!(forward(&strings(&[]), &strings(&["b"])), strings(&["b"]));
    assert_eq!(
        forward(&strings(&["a", "b"]), &strings(&["c", "a"])),
        strings(&["a", "b", "c", "a"])
    );
}

#[test]
fn delegate_builds_the_run_step() {
    assert_eq!(
        delegate("bazel", &strings(&["build"]), &strings(&["//x"]), false),
        Step::Run {
            program: "bazel".to_string(),
            args: strings(&["build", "//x"]),
            exit_with_status: false
        }
    );
    assert_eq!(delegate("make", &strings(&[]), &strings(&[]), true), run("make", &[]));
}

#[test]
fn submodule_advice_comes_first_and_once() {
    let cases: Vec<Vec<(Kind, &str)>> = vec![
        vec![],
        vec![(Kind::File, "Makefile")],
        vec![(Kind::Executable, "./build.sh"), (Kind::File, "Cargo.toml")],
        vec![(Kind::File, "CMakeLists.txt"), (Kind::Folder, "build")],
        vec![(Kind::File, "CMakeLists.txt")],
    ];
    for held in cases {
        let without = build_plan(&facts_of(&held), &strings(&["-v"]));
        let mut with_file = held.clone();
        with_file.push((Kind::File, ".gitmodules"));
        let with = build_plan(&facts_of(&with_file), &strings(&["-v"]));
        assert_eq!(with[0], say(ADVICE));
        assert_eq!(with[1..].to_vec(), without);
        assert_eq!(with.iter().filter(|s| **s == say(ADVICE)).count(), 1);
        assert_eq!(without.iter().filter(|s| **s == say(ADVICE)).count(), 0);
    }
}

#[test]
fn gitmodules_folder_gives_no_advice() {
    let facts = facts_of(&[(Kind::Folder, ".gitmodules"), (Kind::Executable, ".gitmodules")]);
    assert_eq!(build_plan(&facts, &strings(&[])), vec![say(UNKNOWN)]);
}

#[test]
fn submodules_in_unknown_project() {
    let facts = facts_of(&[(Kind::File, ".gitmodules")]);
    assert_eq!(build_plan(&facts, &strings(&[])), vec![say(ADVICE), say(UNKNOWN)]);
}

#[test]
fn walk_gives_no_advice() {
    let facts = facts_of(&[(Kind::File, ".gitmodules"), (Kind::File, "dune")]);
    let rules = standard_rules();
    assert_eq!(walk(&rules, &facts, &strings(&[])), vec![run("dune", &["build"])]);
    assert_eq!(
        plan(&rules, &facts, &strings(&[])),
        vec![say(ADVICE), run("dune", &["build"])]
    );
}

#[test]
fn rule_that_does_not_exit_lets_the_walk_go_on() {
    let rules = vec![
        run_program_if_file_exists("first", strings(&["a"]), false, "one"),
        run_program_if_exists("./second", false),
        run_program_if_file_exists("third", strings(&[]), true, "three"),
        run_program_if_file_exists("fourth", strings(&[]), true, "one"),
    ];
    let facts = facts_of(&[(Kind::File, "one"), (Kind::File, "three")]);
    assert_eq!(
        walk(&rules, &facts, &strings(&["t"])),
        vec![
            Step::Run {
                program: "first".to_string(),
                args: strings(&["a", "t"]),
                exit_with_status: false
            },
            run("third", &["t"]),
        ]
    );
    let facts = facts_of(&[(Kind::File, "one"), (Kind::Executable, "./second")]);
    assert_eq!(
        walk(&rules, &facts, &strings(&[])),
        vec![
            Step::Run { program: "first".to_string(), args: strings(&["a"]), exit_with_status: false },
            Step::Run { program: "./second".to_string(), args: strings(&[]), exit_with_status: false },
            run("fourth", &[]),
        ]
    );
    let rules = vec![run_program_if_file_exists("first", strings(&[]), false, "one")];
    let facts = facts_of(&[(Kind::File, "one")]);
    assert_eq!(
        walk(&rules, &facts, &strings(&[])),
        vec![
            Step::Run { program: "first".to_string(), args: strings(&[]), exit_with_status: false },
            say(UNKNOWN),
        ]
    );
}

#[test]
fn walk_over_no_rules_is_unknown() {
    let facts = facts_of(&[(Kind::File, "Makefile")]);
    assert_eq!(walk(&Vec::new(), &facts, &strings(&["x"])), vec![say(UNKNOWN)]);
}

#[test]
fn hint_prints_and_leaves_with_its_code() {
    let rules = vec![
        advise_if_file_and_folder_exist("look here", 3, "f", "d"),
        run_program_if_file_exists("tool", strings(&[]), true, "f"),
    ];
    let facts = facts_of(&[(Kind::File, "f"), (Kind::Folder, "d")]);
    assert_eq!(walk(&rules, &facts, &strings(&[])), vec![say("look here"), Step::Exit(3)]);
    let facts = facts_of(&[(Kind::File, "f"), (Kind::File, "d")]);
    assert_eq!(walk(&rules, &facts, &strings(&[])), vec![run("tool", &[])]);
    let facts = facts_of(&[(Kind::Folder, "d")]);
    assert_eq!(walk(&rules, &facts, &strings(&[])), vec![say(UNKNOWN)]);
}

#[test]
fn required_probes_lists_every_check_in_order() {
    let asked = required_probes(&standard_rules());
    let expected = vec![
        Probe::new(Kind::File, ".gitmodules"),
        Probe::new(Kind::Executable, "./build.sh"),
        Probe::new(Kind::Executable, "./make.sh"),
        Probe::new(Kind::File, "Justfile"),
        Probe::new(Kind::File, "justfile"),
        Probe::new(Kind::File, "Makefile"),
        Probe::new(Kind::File, "makefile"),
        Probe::new(Kind::File, "GNUmakefile"),
        Probe::new(Kind::File, "Cargo.toml"),
        Probe::new(Kind::File, "build.sbt"),
        Probe::new(Kind::File, "build.gradle"),
        Probe::new(Kind::File, "dune"),
        Probe::new(Kind::File, "BUILD"),
        Probe::new(Kind::File, "CMakeLists.txt"),
        Probe::new(Kind::Folder, "build"),
        Probe::new(Kind::File, "CMakeLists.txt"),
    ];
    assert_eq!(asked, expected);
    assert_eq!(required_probes(&Vec::new()), vec![Probe::new(Kind::File, ".gitmodules")]);
}

#[test]
fn standard_rules_are_the_table() {
    let rules = standard_rules();
    assert_eq!(rules.len(), 14);
    assert_eq!(rules[0], run_program_if_exists("./build.sh", true));
    assert_eq!(
        rules[7],
        Rule {
            marker: Marker::One(Probe { kind: Kind::File, path: "Cargo.toml".to_string() }),
            effect: Effect::Run {
                program: "cargo".to_string(),
                fixed_args: strings(&["build"]),
                should_exit: true
            },
        }
    );
    assert_eq!(
        rules[12],
        Rule {
            marker: Marker::Both(
                Probe { kind: Kind::File, path: "CMakeLists.txt".to_string() },
                Probe { kind: Kind::Folder, path: "build".to_string() }
            ),
            effect: Effect::Hint { message: OUT_OF_TREE.to_string(), code: 0 },
        }
    );
    for rule in &rules {
        assert!(rule.effect.ends_run());
    }
}

#[test]
fn unrelated_entries_do_not_matter() {
    let facts = facts_of(&[
        (Kind::File, "README.md"),
        (Kind::Folder, "src"),
        (Kind::File, "Cargo.toml"),
        (Kind::Executable, "./run.sh"),
        (Kind::Folder, "Makefile"),
    ]);
    assert_eq!(build_plan(&facts, &strings(&[])), vec![run("cargo", &["build"])]);
}

#[test]
fn plan_reads_the_required_probes_only() {
    let rules = standard_rules();
    let everything = facts_of(&[
        (Kind::File, ".gitmodules"),
        (Kind::File, "BUILD"),
        (Kind::Folder, "build"),
        (Kind::File, "notes.txt"),
        (Kind::Executable, "build.sh"),
        (Kind::Folder, "BUILD"),
    ]);
    let mut asked_only = Facts::new();
    for probe in required_probes(&rules) {
        let held = everything.holds(&probe);
        asked_only.record(probe, held);
    }
    let trailing = strings(&["//app"]);
    assert_eq!(plan(&rules, &everything, &trailing), plan(&rules, &asked_only, &trailing));
    assert_eq!(
        plan(&rules, &asked_only, &trailing),
        vec![say(ADVICE), run("bazel", &["build", "--spawn_strategy=local", "//...", "//app"])]
    );
}

#[test]
fn steps_and_rules_can_be_copied() {
    let step = run("cargo", &["build", "--release"]);
    assert_eq!(step.clone(), step);
    assert_eq!(say(UNKNOWN).clone(), say(UNKNOWN));
    assert_eq!(Step::Exit(7).clone(), Step::Exit(7));
    let rules = standard_rules();
    for rule in &rules {
        assert_eq!(rule.clone(), *rule);
    }
}

#[test]
fn turn_at_absent_marker_goes_on() {
    let rules = standard_rules();
    let facts = facts_of(&[(Kind::File, "Cargo.toml")]);
    for at in 0..7 {
        assert_eq!(turn(&rules, at, &facts, &strings(&["x"])), (vec![], Some(at + 1)));
    }
    assert_eq!(turn(&rules, 13, &facts, &strings(&[])), (vec![], Some(14)));
}

#[test]
fn turn_at_present_marker_ends_the_walk() {
    let rules = standard_rules();
    let facts = facts_of(&[(Kind::File, "Cargo.toml"), (Kind::File, "Makefile")]);
    assert_eq!(
        turn(&rules, 7, &facts, &strings(&["--release"])),
        (vec![run("cargo", &["build", "--release"])], None)
    );
    assert_eq!(turn(&rules, 4, &facts, &strings(&[])), (vec![run("make", &[])], None));
    let facts = facts_of(&[(Kind::File, "CMakeLists.txt"), (Kind::Folder, "build")]);
    assert_eq!(
        turn(&rules, 12, &facts, &strings(&[])),
        (vec![say(OUT_OF_TREE), Step::Exit(0)], None)
    );
}

#[test]
fn turn_past_the_last_rule_is_unknown() {
    let rules = standard_rules();
    let facts = facts_of(&[(Kind::File, "Cargo.toml")]);
    assert_eq!(turn(&rules, 14, &facts, &strings(&[])), (vec![say(UNKNOWN)], None));
    assert_eq!(turn(&rules, usize::MAX, &facts, &strings(&[])), (vec![say(UNKNOWN)], None));
    assert_eq!(turn(&Vec::new(), 0, &facts, &strings(&[])), (vec![say(UNKNOWN)], None));
}

#[test]
fn turn_at_rule_that_does_not_exit_goes_on() {
    let rules = vec![run_program_if_file_exists("first", strings(&["a"]), false, "one")];
    let facts = facts_of(&[(Kind::File, "one")]);
    assert_eq!(
        turn(&rules, 0, &facts, &strings(&["t"])),
        (
            vec![Step::Run {
                program: "first".to_string(),
                args: strings(&["a", "t"]),
                exit_with_status: false
            }],
            Some(1)
        )
    );
}

#[test]
fn turns_add_up_to_the_walk() {
    let rules = standard_rules();
    let trailing = strings(&["-v"]);
    let cases: Vec<Vec<(Kind, &str)>> = vec![
        vec![],
        vec![(Kind::File, "BUILD"), (Kind::File, "dune")],
        vec![(Kind::File, "CMakeLists.txt"), (Kind::Folder, "build")],
        vec![(Kind::Executable, "./make.sh")],
    ];
    for held in cases {
        let facts = facts_of(&held);
        let mut steps = Vec::new();
        let mut at = 0;
        loop {
            let (more, next) = turn(&rules, at, &facts, &trailing);
            steps.extend(more);
            match next {
                Some(position) => at = position,
                None => break,
            }
        }
        assert_eq!(steps, walk(&rules, &facts, &trailing));
    }
}

#[test]
fn turn_probes_are_those_of_the_rule() {
    let rules = standard_rules();
    assert_eq!(turn_probes(&rules, 0), vec![Probe::new(Kind::Executable, "./build.sh")]);
    assert_eq!(turn_probes(&rules, 11), vec![Probe::new(Kind::File, "BUILD")]);
    assert_eq!(
        turn_probes(&rules, 12),
        vec![Probe::new(Kind::File, "CMakeLists.txt"), Probe::new(Kind::Folder, "build")]
    );
    assert_eq!(turn_probes(&rules, 14), vec![]);
}

#[test]
fn advice_is_given_for_a_gitmodules_file() {
    assert_eq!(submodule_check(), Probe::new(Kind::File, ".gitmodules"));
    assert_eq!(advice(&Facts::new()), vec![]);
    assert_eq!(advice(&facts_of(&[(Kind::Folder, ".gitmodules")])), vec![]);
    assert_eq!(advice(&facts_of(&[(Kind::File, ".gitmodules")])), vec![say(ADVICE)]);
}
