//! What holds of every plan.

use vstd::prelude::*;
use crate::model::{Kind, ProbeView};
use crate::plan::{
    advisory, effect_steps, plan_of, probes_at, probes_from, probes_of, submodule_advice_line,
    submodule_probe, turn_next, turn_steps, unknown_project_line, walk_from, StepView,
};
use crate::rules::{ends_run, marker_holds, marker_probes, EffectView, MarkerView, RuleView};
use crate::table::{out_of_tree_line, standard_len, standard_rule, standard_table};

verus! {

/// The first rule whose marker is present decides: if no rule from `from`
/// up to `k` has its marker among the facts, rule `k` has, and its effect
/// ends the run, then the walk gives the steps of rule `k` and nothing else,
/// whatever the rules below `k` would say.
pub proof fn lemma_first_match_wins(
    rules: Seq<RuleView>,
    facts: Set<ProbeView>,
    trailing: Seq<Seq<char>>,
    from: int,
    k: int,
)
    requires
        0 <= from <= k < rules.len(),
        forall|j: int| from <= j < k ==> !marker_holds(#[trigger] rules[j].marker, facts),
        marker_holds(rules[k].marker, facts),
        ends_run(rules[k].effect),
    ensures
        walk_from(rules, from, facts, trailing) == effect_steps(rules[k].effect, trailing),
    decreases k - from,
{
    if from < k {
        assert(!marker_holds(rules[from].marker, facts));
        lemma_first_match_wins(rules, facts, trailing, from + 1, k);
    }
}

/// Where no rule from `from` on has its marker among the facts, the walk
/// only says that the project is unknown: nothing is run.
pub proof fn lemma_no_match_is_unknown(
    rules: Seq<RuleView>,
    facts: Set<ProbeView>,
    trailing: Seq<Seq<char>>,
    from: int,
)
    requires
        0 <= from,
        forall|j: int| from <= j < rules.len() ==> !marker_holds(#[trigger] rules[j].marker, facts),
    ensures
        walk_from(rules, from, facts, trailing) == seq![StepView::Say(unknown_project_line())],
    decreases rules.len() - from,
{
    if from < rules.len() {
        assert(!marker_holds(rules[from].marker, facts));
        lemma_no_match_is_unknown(rules, facts, trailing, from + 1);
    }
}

/// A walk is made of turns: the steps of the rule at `at` by itself, and
/// then the walk from the position that the turn names, if it names one.
pub proof fn lemma_walk_by_turns(
    rules: Seq<RuleView>,
    facts: Set<ProbeView>,
    trailing: Seq<Seq<char>>,
    at: int,
)
    requires
        0 <= at,
    ensures
        walk_from(rules, at, facts, trailing) == turn_steps(rules, at, facts, trailing)
            + match turn_next(rules, at, facts) {
            Some(next) => walk_from(rules, next, facts, trailing),
            None => Seq::empty(),
        },
{
    let rest = match turn_next(rules, at, facts) {
        Some(next) => walk_from(rules, next, facts, trailing),
        None => Seq::empty(),
    };
    assert(walk_from(rules, at, facts, trailing) =~= turn_steps(rules, at, facts, trailing)
        + rest);
}

/// A turn reads the facts only through the probes of its rule: two sets of
/// facts that answer each of those alike give the same steps and the same
/// position to go on at.
pub proof fn lemma_turn_reads_own_probes(
    rules: Seq<RuleView>,
    facts: Set<ProbeView>,
    other: Set<ProbeView>,
    trailing: Seq<Seq<char>>,
    at: int,
)
    requires
        forall|probe: ProbeView|
            #[trigger] probes_at(rules, at).contains(probe) ==> facts.contains(probe)
                == other.contains(probe),
    ensures
        turn_steps(rules, at, facts, trailing) == turn_steps(rules, at, other, trailing),
        turn_next(rules, at, facts) == turn_next(rules, at, other),
{
    if 0 <= at < rules.len() {
        let own = probes_at(rules, at);
        match rules[at].marker {
            MarkerView::One(p) => {
                assert(own[0] == p);
                assert(own.contains(p));
            },
            MarkerView::Both(p, q) => {
                assert(own[0] == p);
                assert(own[1] == q);
                assert(own.contains(p));
                assert(own.contains(q));
            },
        }
    }
}

/// Whether `step` is one of the steps of a rule at `from` or below whose
/// marker is present.
pub open spec fn comes_from_rule(
    step: StepView,
    rules: Seq<RuleView>,
    from: int,
    facts: Set<ProbeView>,
    trailing: Seq<Seq<char>>,
) -> bool {
    exists|j: int|
        from <= j < rules.len() && marker_holds(rules[j].marker, facts) && (#[trigger] effect_steps(
            rules[j].effect,
            trailing,
        )).contains(step)
}

/// Every step of a walk is a step of a rule whose marker is present, or the
/// line for an unknown project.
pub proof fn lemma_steps_come_from_rules(
    rules: Seq<RuleView>,
    facts: Set<ProbeView>,
    trailing: Seq<Seq<char>>,
    from: int,
)
    requires
        0 <= from,
    ensures
        forall|k: int|
            0 <= k < walk_from(rules, from, facts, trailing).len() ==> {
                let step = #[trigger] walk_from(rules, from, facts, trailing)[k];
                step == StepView::Say(unknown_project_line()) || comes_from_rule(
                    step,
                    rules,
                    from,
                    facts,
                    trailing,
                )
            },
    decreases rules.len() - from,
{
    let walk = walk_from(rules, from, facts, trailing);
    if from < rules.len() {
        let own = effect_steps(rules[from].effect, trailing);
        let rest = walk_from(rules, from + 1, facts, trailing);
        lemma_steps_come_from_rules(rules, facts, trailing, from + 1);
        assert forall|k: int| 0 <= k < rest.len() && comes_from_rule(
            rest[k],
            rules,
            from + 1,
            facts,
            trailing,
        ) implies comes_from_rule(rest[k], rules, from, facts, trailing) by {
            let j = choose|j: int|
                from + 1 <= j < rules.len() && marker_holds(rules[j].marker, facts) && (
                #[trigger] effect_steps(rules[j].effect, trailing)).contains(rest[k]);
            assert(effect_steps(rules[j].effect, trailing).contains(rest[k]));
        }
        assert forall|k: int| 0 <= k < walk.len() implies {
            let step = #[trigger] walk[k];
            step == StepView::Say(unknown_project_line()) || comes_from_rule(
                step,
                rules,
                from,
                facts,
                trailing,
            )
        } by {
            if marker_holds(rules[from].marker, facts) {
                if k < own.len() {
                    assert(walk[k] == own[k]);
                    assert(effect_steps(rules[from].effect, trailing).contains(walk[k]));
                } else {
                    assert(!ends_run(rules[from].effect));
                    assert(walk[k] == rest[k - own.len()]);
                }
            } else {
                assert(walk[k] == rest[k]);
            }
        }
    }
}

/// Whether `step` runs the program of `rule` with the rule's fixed
/// arguments followed by `trailing`.
pub open spec fn forwards(step: StepView, rule: RuleView, trailing: Seq<Seq<char>>) -> bool {
    match (step, rule.effect) {
        (
            StepView::Run { program, args, exit_with_status },
            EffectView::Run { program: tool, fixed_args, should_exit },
        ) => program == tool && args == fixed_args + trailing && exit_with_status == should_exit,
        _ => false,
    }
}

/// Every program that a walk runs is the program of a rule whose marker is
/// present, and its arguments are that rule's fixed arguments followed by
/// the trailing arguments: these are handed on once, at the end, unchanged.
pub proof fn lemma_runs_forward_trailing(
    rules: Seq<RuleView>,
    facts: Set<ProbeView>,
    trailing: Seq<Seq<char>>,
)
    ensures
        forall|k: int|
            0 <= k < walk_from(rules, 0, facts, trailing).len() && (#[trigger] walk_from(
                rules,
                0,
                facts,
                trailing,
            )[k]) is Run ==> exists|j: int|
                0 <= j < rules.len() && marker_holds(rules[j].marker, facts) && forwards(
                    walk_from(rules, 0, facts, trailing)[k],
                    #[trigger] rules[j],
                    trailing,
                ),
{
    let walk = walk_from(rules, 0, facts, trailing);
    lemma_steps_come_from_rules(rules, facts, trailing, 0);
    assert forall|k: int| 0 <= k < walk.len() && (#[trigger] walk[k]) is Run implies exists|j: int|
        0 <= j < rules.len() && marker_holds(rules[j].marker, facts) && forwards(
            walk[k],
            #[trigger] rules[j],
            trailing,
        ) by {
        assert(comes_from_rule(walk[k], rules, 0, facts, trailing));
        let j = choose|j: int|
            0 <= j < rules.len() && marker_holds(rules[j].marker, facts) && (
            #[trigger] effect_steps(rules[j].effect, trailing)).contains(walk[k]);
        let own = effect_steps(rules[j].effect, trailing);
        let at = choose|at: int| 0 <= at < own.len() && own[at] == walk[k];
        assert(forwards(walk[k], rules[j], trailing));
    }
}

/// A walk depends on the facts only through the markers of its rules: two
/// sets of facts under which every rule's marker fares alike give the same
/// steps.
pub proof fn lemma_walk_reads_markers_only(
    rules: Seq<RuleView>,
    facts: Set<ProbeView>,
    other: Set<ProbeView>,
    trailing: Seq<Seq<char>>,
    from: int,
)
    requires
        0 <= from,
        forall|j: int|
            from <= j < rules.len() ==> marker_holds(#[trigger] rules[j].marker, facts)
                == marker_holds(rules[j].marker, other),
    ensures
        walk_from(rules, from, facts, trailing) == walk_from(rules, from, other, trailing),
    decreases rules.len() - from,
{
    if from < rules.len() {
        assert(marker_holds(rules[from].marker, facts) == marker_holds(rules[from].marker, other));
        lemma_walk_reads_markers_only(rules, facts, other, trailing, from + 1);
    }
}

/// The probes of every rule at `from` or below are among those that the
/// rules from `from` on depend on.
proof fn lemma_probes_from_has(rules: Seq<RuleView>, from: int, j: int, probe: ProbeView)
    requires
        0 <= from <= j < rules.len(),
        marker_probes(rules[j].marker).contains(probe),
    ensures
        probes_from(rules, from).contains(probe),
    decreases j - from,
{
    let own = marker_probes(rules[from].marker);
    let rest = probes_from(rules, from + 1);
    if from == j {
        let at = choose|at: int| 0 <= at < own.len() && own[at] == probe;
        assert((own + rest)[at] == probe);
    } else {
        lemma_probes_from_has(rules, from + 1, j, probe);
        let at = choose|at: int| 0 <= at < rest.len() && rest[at] == probe;
        assert((own + rest)[own.len() + at] == probe);
    }
}

/// A plan depends on the facts only through the probes that its rules ask
/// for: two sets of facts that answer each of those alike give the same
/// plan, whatever else they hold.
pub proof fn lemma_plan_reads_required_probes(
    rules: Seq<RuleView>,
    facts: Set<ProbeView>,
    other: Set<ProbeView>,
    trailing: Seq<Seq<char>>,
)
    requires
        forall|probe: ProbeView|
            #[trigger] probes_of(rules).contains(probe) ==> facts.contains(probe)
                == other.contains(probe),
    ensures
        plan_of(rules, facts, trailing) == plan_of(rules, other, trailing),
{
    let asked = probes_of(rules);
    let first = seq![submodule_probe()];
    let rest = probes_from(rules, 0);
    assert(asked[0] == submodule_probe());
    assert(asked.contains(submodule_probe()));
    assert forall|j: int| 0 <= j < rules.len() implies marker_holds(
        #[trigger] rules[j].marker,
        facts,
    ) == marker_holds(rules[j].marker, other) by {
        let own = marker_probes(rules[j].marker);
        assert forall|at: int| 0 <= at < own.len() implies facts.contains(#[trigger] own[at])
            == other.contains(own[at]) by {
            assert(own.contains(own[at]));
            lemma_probes_from_has(rules, 0, j, own[at]);
            let k = choose|k: int| 0 <= k < rest.len() && rest[k] == own[at];
            assert((first + rest)[1 + k] == own[at]);
            assert(asked.contains(own[at]));
        }
        match rules[j].marker {
            MarkerView::One(p) => {
                assert(own[0] == p);
            },
            MarkerView::Both(p, q) => {
                assert(own[0] == p);
                assert(own[1] == q);
            },
        }
    }
    lemma_walk_reads_markers_only(rules, facts, other, trailing, 0);
}


/// The length and the first character of each path and line of the table:
/// enough to tell any two of them apart.
proof fn lemma_table_texts()
    ensures
        "./build.sh"@.len() == 10 && "./build.sh"@[0] == '.',
        "./make.sh"@.len() == 9 && "./make.sh"@[0] == '.',
        "Justfile"@.len() == 8 && "Justfile"@[0] == 'J',
        "justfile"@.len() == 8 && "justfile"@[0] == 'j',
        "Makefile"@.len() == 8 && "Makefile"@[0] == 'M',
        "makefile"@.len() == 8 && "makefile"@[0] == 'm',
        "GNUmakefile"@.len() == 11 && "GNUmakefile"@[0] == 'G',
        "Cargo.toml"@.len() == 10 && "Cargo.toml"@[0] == 'C',
        "build.sbt"@.len() == 9 && "build.sbt"@[0] == 'b',
        "build.gradle"@.len() == 12 && "build.gradle"@[0] == 'b',
        "dune"@.len() == 4 && "dune"@[0] == 'd',
        "BUILD"@.len() == 5 && "BUILD"@[0] == 'B',
        "CMakeLists.txt"@.len() == 14 && "CMakeLists.txt"@[0] == 'C',
        ".gitmodules"@.len() == 11 && ".gitmodules"@[0] == '.',
        submodule_advice_line().len() == 53 && submodule_advice_line()[0] == 'Y',
        unknown_project_line().len() == 39 && unknown_project_line()[0] == 'I',
        out_of_tree_line().len() == 38 && out_of_tree_line()[0] == 'R',
{
    reveal_strlit("./build.sh");
    reveal_strlit("./make.sh");
    reveal_strlit("Justfile");
    reveal_strlit("justfile");
    reveal_strlit("Makefile");
    reveal_strlit("makefile");
    reveal_strlit("GNUmakefile");
    reveal_strlit("Cargo.toml");
    reveal_strlit("build.sbt");
    reveal_strlit("build.gradle");
    reveal_strlit("dune");
    reveal_strlit("BUILD");
    reveal_strlit("CMakeLists.txt");
    reveal_strlit(".gitmodules");
    reveal_strlit("You may want to run: git submodule --init --recursive");
    reveal_strlit("I don't know how to build this project!");
    reveal_strlit("Run this: cd build && cmake .. && make");
}

/// Whether the marker depends on the probe.
pub open spec fn marker_asks(marker: MarkerView, probe: ProbeView) -> bool {
    match marker {
        MarkerView::One(p) => probe == p,
        MarkerView::Both(p, q) => probe == p || probe == q,
    }
}

/// Whether a plan under the table may depend on the probe.
pub open spec fn table_asks(probe: ProbeView) -> bool {
    probe == submodule_probe() || exists|j: int|
        0 <= j < standard_len() && marker_asks(#[trigger] standard_rule(j).marker, probe)
}

/// In a working directory that holds the marker of one rule and nothing
/// else that the table looks for, the plan is exactly what that rule says:
/// its program, run with its fixed arguments followed by the trailing ones.
pub proof fn lemma_sole_marker(
    i: int,
    probe: ProbeView,
    facts: Set<ProbeView>,
    trailing: Seq<Seq<char>>,
)
    requires
        0 <= i < standard_len(),
        standard_rule(i).marker == MarkerView::One(probe),
        facts.contains(probe),
        forall|other: ProbeView|
            facts.contains(other) && other != probe ==> !#[trigger] table_asks(other),
    ensures
        plan_of(standard_table(), facts, trailing) == effect_steps(
            standard_rule(i).effect,
            trailing,
        ),
        standard_rule(i).effect is Run,
{
    lemma_table_texts();
    let rules = standard_table();
    assert(!facts.contains(submodule_probe())) by {
        assert(table_asks(submodule_probe()));
    }
    assert forall|j: int| 0 <= j < i implies !marker_holds(#[trigger] rules[j].marker, facts) by {
        assert(rules[j] == standard_rule(j));
        match standard_rule(j).marker {
            MarkerView::One(p) => {
                assert(marker_asks(standard_rule(j).marker, p));
                assert(table_asks(p));
            },
            MarkerView::Both(p, q) => {
                assert(marker_asks(standard_rule(j).marker, q));
                assert(table_asks(q));
            },
        }
    }
    assert(rules[i] == standard_rule(i));
    lemma_first_match_wins(rules, facts, trailing, 0, i);
    assert(plan_of(rules, facts, trailing) =~= walk_from(rules, 0, facts, trailing));
}

/// A local build script that may be executed comes before everything else:
/// it is run with the trailing arguments, whatever other markers exist.
pub proof fn lemma_build_script_first(facts: Set<ProbeView>, trailing: Seq<Seq<char>>)
    requires
        facts.contains(ProbeView { kind: Kind::Executable, path: "./build.sh"@ }),
    ensures
        walk_from(standard_table(), 0, facts, trailing) == seq![
            StepView::Run { program: "./build.sh"@, args: trailing, exit_with_status: true },
        ],
{
    let rules = standard_table();
    assert(rules[0] == standard_rule(0));
    lemma_first_match_wins(rules, facts, trailing, 0, 0);
    assert(Seq::<Seq<char>>::empty() + trailing =~= trailing);
}

/// Whether none of the rules above the ones for CMake has its marker among
/// the facts.
pub open spec fn nothing_before_cmake(facts: Set<ProbeView>) -> bool {
    forall|j: int| 0 <= j < 12 ==> !marker_holds(#[trigger] standard_rule(j).marker, facts)
}

/// A CMake project that already has a build folder only gets advice: the
/// line on building out of tree, then exit code 0, and no program is run.
pub proof fn lemma_cmake_with_build_folder(facts: Set<ProbeView>, trailing: Seq<Seq<char>>)
    requires
        nothing_before_cmake(facts),
        facts.contains(ProbeView { kind: Kind::File, path: "CMakeLists.txt"@ }),
        facts.contains(ProbeView { kind: Kind::Folder, path: "build"@ }),
    ensures
        walk_from(standard_table(), 0, facts, trailing) == seq![
            StepView::Say(out_of_tree_line()),
            StepView::Exit(0),
        ],
{
    let rules = standard_table();
    assert forall|j: int| 0 <= j < 12 implies !marker_holds(#[trigger] rules[j].marker, facts) by {
        assert(rules[j] == standard_rule(j));
        assert(!marker_holds(standard_rule(j).marker, facts));
    }
    assert(rules[12] == standard_rule(12));
    lemma_first_match_wins(rules, facts, trailing, 0, 12);
}

/// A CMake project without a build folder is configured in place: `cmake`
/// is run with `.` followed by the trailing arguments.
pub proof fn lemma_cmake_in_tree(facts: Set<ProbeView>, trailing: Seq<Seq<char>>)
    requires
        nothing_before_cmake(facts),
        facts.contains(ProbeView { kind: Kind::File, path: "CMakeLists.txt"@ }),
        !facts.contains(ProbeView { kind: Kind::Folder, path: "build"@ }),
    ensures
        walk_from(standard_table(), 0, facts, trailing) == seq![
            StepView::Run {
                program: "cmake"@,
                args: seq!["."@] + trailing,
                exit_with_status: true,
            },
        ],
{
    let rules = standard_table();
    assert forall|j: int| 0 <= j < 13 implies !marker_holds(#[trigger] rules[j].marker, facts) by {
        assert(rules[j] == standard_rule(j));
        if j < 12 {
            assert(!marker_holds(standard_rule(j).marker, facts));
        }
    }
    assert(rules[13] == standard_rule(13));
    lemma_first_match_wins(rules, facts, trailing, 0, 13);
}

/// Where no marker of the table is present, the walk says that the project
/// is unknown and does nothing else: no step runs a program or leaves.
pub proof fn lemma_unknown_project(facts: Set<ProbeView>, trailing: Seq<Seq<char>>)
    requires
        forall|j: int|
            0 <= j < standard_len() ==> !marker_holds(#[trigger] standard_rule(j).marker, facts),
    ensures
        walk_from(standard_table(), 0, facts, trailing) == seq![
            StepView::Say(unknown_project_line()),
        ],
{
    let rules = standard_table();
    assert forall|j: int| 0 <= j < rules.len() implies !marker_holds(
        #[trigger] rules[j].marker,
        facts,
    ) by {
        assert(rules[j] == standard_rule(j));
        assert(!marker_holds(standard_rule(j).marker, facts));
    }
    lemma_no_match_is_unknown(rules, facts, trailing, 0);
}

/// The advice on submodules is given exactly when `.gitmodules` is a file,
/// then as the first step and never again; and the rest of the plan is the
/// same with and without that file.
pub proof fn lemma_submodule_advice_once(facts: Set<ProbeView>, trailing: Seq<Seq<char>>)
    ensures
        ({
            let plan = plan_of(standard_table(), facts, trailing);
            let advice = StepView::Say(submodule_advice_line());
            let walk = walk_from(standard_table(), 0, facts, trailing);
            &&& facts.contains(submodule_probe()) ==> plan == seq![advice] + walk
            &&& !facts.contains(submodule_probe()) ==> plan == walk
            &&& forall|k: int| 0 <= k < walk.len() ==> #[trigger] walk[k] != advice
            &&& walk == walk_from(standard_table(), 0, facts.insert(submodule_probe()), trailing)
            &&& walk == walk_from(standard_table(), 0, facts.remove(submodule_probe()), trailing)
        }),
{
    lemma_table_texts();
    let rules = standard_table();
    let walk = walk_from(rules, 0, facts, trailing);
    let advice = StepView::Say(submodule_advice_line());
    assert(plan_of(rules, facts, trailing) =~= advisory(facts) + walk);
    assert(Seq::<StepView>::empty() + walk =~= walk);
    lemma_steps_come_from_rules(rules, facts, trailing, 0);
    assert forall|k: int| 0 <= k < walk.len() implies #[trigger] walk[k] != advice by {
        if walk[k] != StepView::Say(unknown_project_line()) {
            assert(comes_from_rule(walk[k], rules, 0, facts, trailing));
            let j = choose|j: int|
                0 <= j < rules.len() && marker_holds(rules[j].marker, facts) && (
                #[trigger] effect_steps(rules[j].effect, trailing)).contains(walk[k]);
            assert(rules[j] == standard_rule(j));
            let own = effect_steps(rules[j].effect, trailing);
            let at = choose|at: int| 0 <= at < own.len() && own[at] == walk[k];
        }
    }
    let with = facts.insert(submodule_probe());
    let without = facts.remove(submodule_probe());
    assert forall|j: int| 0 <= j < rules.len() implies marker_holds(
        #[trigger] rules[j].marker,
        facts,
    ) == marker_holds(rules[j].marker, with) && marker_holds(rules[j].marker, facts)
        == marker_holds(rules[j].marker, without) by {
        assert(rules[j] == standard_rule(j));
    }
    lemma_walk_reads_markers_only(rules, facts, with, trailing, 0);
    lemma_walk_reads_markers_only(rules, facts, without, trailing, 0);
}

} // verus!
