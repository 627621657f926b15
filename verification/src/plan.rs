//! From rules and facts to the steps that are carried out.

use vstd::prelude::*;
use crate::model::{
    copy_texts, lemma_views_add, lemma_views_push, views, Facts, Kind, Probe, ProbeView,
};
use crate::rules::{ends_run, marker_holds, marker_probes, Effect, EffectView, Rule, RuleView};

verus! {

/// One thing for the caller to do. Steps are carried out in order, and
/// nothing follows a step that leaves.
#[derive(Debug, PartialEq, Eq)]
pub enum Step {
    /// Write the line to the diagnostic stream.
    Say(String),
    /// Run `program` with `args`, wait for it, and, with `exit_with_status`,
    /// leave with its exit code.
    Run { program: String, args: Vec<String>, exit_with_status: bool },
    /// Leave with the code.
    Exit(i32),
}

pub enum StepView {
    Say(Seq<char>),
    Run { program: Seq<char>, args: Seq<Seq<char>>, exit_with_status: bool },
    Exit(i32),
}

impl View for Step {
    type V = StepView;

    open spec fn view(&self) -> StepView {
        match self {
            Step::Say(line) => StepView::Say(line@),
            Step::Run { program, args, exit_with_status } => StepView::Run {
                program: program@,
                args: views(args@),
                exit_with_status: *exit_with_status,
            },
            Step::Exit(code) => StepView::Exit(*code),
        }
    }
}

impl Clone for Step {
    fn clone(&self) -> (step: Step)
        ensures
            step@ == self@,
    {
        match self {
            Step::Say(line) => Step::Say(line.clone()),
            Step::Run { program, args, exit_with_status } => Step::Run {
                program: program.clone(),
                args: copy_texts(args),
                exit_with_status: *exit_with_status,
            },
            Step::Exit(code) => Step::Exit(*code),
        }
    }
}

/// The line printed when no rule applies.
pub open spec fn unknown_project_line() -> Seq<char> {
    "I don't know how to build this project!"@
}

/// The line printed when the project has submodules.
pub open spec fn submodule_advice_line() -> Seq<char> {
    "You may want to run: git submodule --init --recursive"@
}

/// The probe that tells whether the project has submodules.
pub open spec fn submodule_probe() -> ProbeView {
    ProbeView { kind: Kind::File, path: ".gitmodules"@ }
}

/// The steps of one effect: a run gets the fixed arguments followed by the
/// trailing ones; a hint prints and leaves.
pub open spec fn effect_steps(effect: EffectView, trailing: Seq<Seq<char>>) -> Seq<StepView> {
    match effect {
        EffectView::Run { program, fixed_args, should_exit } => seq![
            StepView::Run { program, args: fixed_args + trailing, exit_with_status: should_exit },
        ],
        EffectView::Hint { message, code } => seq![StepView::Say(message), StepView::Exit(code)],
    }
}

/// The steps that the rules from position `from` on give, top to bottom:
/// a rule whose marker is absent gives none; one whose marker is present
/// gives the steps of its effect, and ends the walk if that effect leaves;
/// past the last rule the project is unknown.
pub open spec fn walk_from(
    rules: Seq<RuleView>,
    from: int,
    facts: Set<ProbeView>,
    trailing: Seq<Seq<char>>,
) -> Seq<StepView>
    decreases rules.len() - from,
{
    if from < 0 || from >= rules.len() {
        seq![StepView::Say(unknown_project_line())]
    } else if marker_holds(rules[from].marker, facts) {
        if ends_run(rules[from].effect) {
            effect_steps(rules[from].effect, trailing)
        } else {
            effect_steps(rules[from].effect, trailing) + walk_from(
                rules,
                from + 1,
                facts,
                trailing,
            )
        }
    } else {
        walk_from(rules, from + 1, facts, trailing)
    }
}

/// The advice on submodules, given first and whatever the rules say.
pub open spec fn advisory(facts: Set<ProbeView>) -> Seq<StepView> {
    if facts.contains(submodule_probe()) {
        seq![StepView::Say(submodule_advice_line())]
    } else {
        Seq::empty()
    }
}

/// The whole plan: the advisory, then the walk over all the rules.
pub open spec fn plan_of(
    rules: Seq<RuleView>,
    facts: Set<ProbeView>,
    trailing: Seq<Seq<char>>,
) -> Seq<StepView> {
    advisory(facts) + walk_from(rules, 0, facts, trailing)
}

/// The probes that the rules from position `from` on depend on, rule by rule.
pub open spec fn probes_from(rules: Seq<RuleView>, from: int) -> Seq<ProbeView>
    decreases rules.len() - from,
{
    if from < 0 || from >= rules.len() {
        Seq::empty()
    } else {
        marker_probes(rules[from].marker) + probes_from(rules, from + 1)
    }
}

/// Every probe a plan may depend on: the one for submodules, then those of
/// the rules.
pub open spec fn probes_of(rules: Seq<RuleView>) -> Seq<ProbeView> {
    seq![submodule_probe()] + probes_from(rules, 0)
}

/// The argument list handed to a delegated program: the rule's fixed
/// arguments, then the caller's trailing arguments, each exactly once.
pub fn forward(fixed_args: &Vec<String>, trailing: &Vec<String>) -> (args: Vec<String>)
    ensures
        views(args@) == views(fixed_args@) + views(trailing@),
{
    let mut args: Vec<String> = Vec::new();
    let mut i: usize = 0;
    while i < fixed_args.len()
        invariant
            i <= fixed_args@.len(),
            views(args@) == views(fixed_args@).take(i as int),
        decreases fixed_args@.len() - i,
    {
        proof {
            lemma_views_push(args@, fixed_args@[i as int]);
        }
        args.push(fixed_args[i].clone());
        i += 1;
        assert(views(args@) =~= views(fixed_args@).take(i as int));
    }
    assert(views(fixed_args@).take(i as int) =~= views(fixed_args@));
    let mut j: usize = 0;
    while j < trailing.len()
        invariant
            j <= trailing@.len(),
            views(args@) == views(fixed_args@) + views(trailing@).take(j as int),
        decreases trailing@.len() - j,
    {
        proof {
            lemma_views_push(args@, trailing@[j as int]);
        }
        args.push(trailing[j].clone());
        j += 1;
        assert(views(args@) =~= views(fixed_args@) + views(trailing@).take(j as int));
    }
    assert(views(trailing@).take(j as int) =~= views(trailing@));
    args
}

/// The step that delegates to `program`: its arguments are `fixed_args`
/// followed by `trailing`, and `should_exit` says whether its exit code
/// ends the run.
pub fn delegate(
    program: &str,
    fixed_args: &Vec<String>,
    trailing: &Vec<String>,
    should_exit: bool,
) -> (step: Step)
    ensures
        step@ == (StepView::Run {
            program: program@,
            args: views(fixed_args@) + views(trailing@),
            exit_with_status: should_exit,
        }),
{
    Step::Run {
        program: program.to_owned(),
        args: forward(fixed_args, trailing),
        exit_with_status: should_exit,
    }
}

impl Effect {
    /// Whether nothing is looked at any more after this effect.
    pub fn ends_run(&self) -> (ends: bool)
        ensures
            ends == ends_run(self@),
    {
        match self {
            Effect::Run { should_exit, .. } => *should_exit,
            Effect::Hint { .. } => true,
        }
    }

    /// Appends the steps of this effect to `steps`.
    pub fn append_steps(&self, trailing: &Vec<String>, steps: &mut Vec<Step>)
        ensures
            views(final(steps)@) == views(old(steps)@) + effect_steps(self@, views(trailing@)),
    {
        match self {
            Effect::Run { program, fixed_args, should_exit } => {
                steps.push(delegate(program.as_str(), fixed_args, trailing, *should_exit));
            },
            Effect::Hint { message, code } => {
                steps.push(Step::Say(message.clone()));
                steps.push(Step::Exit(*code));
            },
        }
        assert(views(steps@) =~= views(old(steps)@) + effect_steps(self@, views(trailing@)));
    }
}

/// The steps that the rule at position `at` gives by itself: those of its
/// effect where its marker is present, none where it is absent, and past
/// the last rule the line for an unknown project.
pub open spec fn turn_steps(
    rules: Seq<RuleView>,
    at: int,
    facts: Set<ProbeView>,
    trailing: Seq<Seq<char>>,
) -> Seq<StepView> {
    if at < 0 || at >= rules.len() {
        seq![StepView::Say(unknown_project_line())]
    } else if marker_holds(rules[at].marker, facts) {
        effect_steps(rules[at].effect, trailing)
    } else {
        Seq::empty()
    }
}

/// The position at which the walk goes on after the rule at `at`, if it
/// does: it ends past the last rule, and at a rule whose marker is present
/// and whose effect ends the run.
pub open spec fn turn_next(rules: Seq<RuleView>, at: int, facts: Set<ProbeView>) -> Option<int> {
    if at < 0 || at >= rules.len() {
        None
    } else if marker_holds(rules[at].marker, facts) && ends_run(rules[at].effect) {
        None
    } else {
        Some(at + 1)
    }
}

/// The probes that the rule at position `at` depends on; none past the
/// last rule.
pub open spec fn probes_at(rules: Seq<RuleView>, at: int) -> Seq<ProbeView> {
    if at < 0 || at >= rules.len() {
        Seq::empty()
    } else {
        marker_probes(rules[at].marker)
    }
}

/// The probe that tells whether the project has submodules.
pub fn submodule_check() -> (probe: Probe)
    ensures
        probe@ == submodule_probe(),
{
    Probe::new(Kind::File, ".gitmodules")
}

/// The advice on submodules, where the facts call for it.
pub fn advice(facts: &Facts) -> (steps: Vec<Step>)
    ensures
        views(steps@) == advisory(facts@),
{
    let mut steps: Vec<Step> = Vec::new();
    if facts.holds(&submodule_check()) {
        steps.push(
            Step::Say("You may want to run: git submodule --init --recursive".to_owned()),
        );
    }
    assert(views(steps@) =~= advisory(facts@));
    steps
}

/// The probes whose answers decide the rule at position `at`.
pub fn turn_probes(rules: &Vec<Rule>, at: usize) -> (asked: Vec<Probe>)
    ensures
        views(asked@) == probes_at(views(rules@), at as int),
{
    if at < rules.len() {
        rules[at].marker.probes()
    } else {
        let asked: Vec<Probe> = Vec::new();
        assert(views(asked@) =~= Seq::<ProbeView>::empty());
        asked
    }
}

/// One turn of the walk: looks at the rule at position `at` alone and gives
/// its steps together with the position to go on at, if the walk goes on.
/// Only the answers to the probes of that rule are read, so a caller may
/// gather the facts rule by rule, each just before its turn.
pub fn turn(rules: &Vec<Rule>, at: usize, facts: &Facts, trailing: &Vec<String>) -> (out: (
    Vec<Step>,
    Option<usize>,
))
    ensures
        views(out.0@) == turn_steps(views(rules@), at as int, facts@, views(trailing@)),
        match out.1 {
            Some(next) => turn_next(views(rules@), at as int, facts@) == Some(next as int),
            None => turn_next(views(rules@), at as int, facts@) is None,
        },
{
    let mut steps: Vec<Step> = Vec::new();
    assert(views(steps@) =~= Seq::<StepView>::empty());
    if at >= rules.len() {
        steps.push(Step::Say("I don't know how to build this project!".to_owned()));
        assert(views(steps@) =~= seq![StepView::Say(unknown_project_line())]);
        return (steps, None);
    }
    let rule = &rules[at];
    assert(views(rules@)[at as int] == rule@);
    if rule.marker.matches(facts) {
        rule.effect.append_steps(trailing, &mut steps);
        assert(views(steps@) =~= effect_steps(rule@.effect, views(trailing@)));
        if rule.effect.ends_run() {
            return (steps, None);
        }
    }
    (steps, Some(at + 1))
}

/// Walks the rules top to bottom over the facts and gives the steps to
/// carry out, ending with the line for an unknown project where no rule
/// has ended the run.
pub fn walk(rules: &Vec<Rule>, facts: &Facts, trailing: &Vec<String>) -> (steps: Vec<Step>)
    ensures
        views(steps@) == walk_from(views(rules@), 0, facts@, views(trailing@)),
{
    let ghost table = views(rules@);
    let ghost extra = views(trailing@);
    let mut steps: Vec<Step> = Vec::new();
    assert(views(steps@) =~= Seq::<StepView>::empty());
    let mut at: usize = 0;
    let mut going = true;
    while going
        invariant
            at <= rules@.len(),
            table == views(rules@),
            extra == views(trailing@),
            going ==> views(steps@) + walk_from(table, at as int, facts@, extra) == walk_from(
                table,
                0,
                facts@,
                extra,
            ),
            !going ==> views(steps@) == walk_from(table, 0, facts@, extra),
        decreases rules@.len() - at + if going { 1int } else { 0int },
    {
        let ghost before = views(steps@);
        let ghost rest = walk_from(table, at as int, facts@, extra);
        let (mut more, next) = turn(rules, at, facts, trailing);
        proof {
            lemma_views_add(steps@, more@);
        }
        steps.append(&mut more);
        match next {
            Some(n) => {
                assert(views(steps@) + walk_from(table, n as int, facts@, extra) =~= before
                    + rest);
                at = n;
            },
            None => {
                assert(views(steps@) =~= before + rest);
                going = false;
            },
        }
    }
    steps
}

/// The whole plan for a working directory: the advice on submodules where
/// the project has them, then the walk over the rules.
pub fn plan(rules: &Vec<Rule>, facts: &Facts, trailing: &Vec<String>) -> (steps: Vec<Step>)
    ensures
        views(steps@) == plan_of(views(rules@), facts@, views(trailing@)),
{
    let mut steps = advice(facts);
    let mut rest = walk(rules, facts, trailing);
    proof {
        lemma_views_add(steps@, rest@);
    }
    steps.append(&mut rest);
    steps
}

/// Every probe whose answer the plan for these rules may depend on, in the
/// order in which they are asked.
pub fn required_probes(rules: &Vec<Rule>) -> (asked: Vec<Probe>)
    ensures
        views(asked@) == probes_of(views(rules@)),
{
    let ghost table = views(rules@);
    let mut asked: Vec<Probe> = Vec::new();
    asked.push(submodule_check());
    assert(views(asked@) =~= seq![submodule_probe()]);
    let mut at: usize = 0;
    while at < rules.len()
        invariant
            at <= rules@.len(),
            table == views(rules@),
            views(asked@) + probes_from(table, at as int) == probes_of(table),
        decreases rules@.len() - at,
    {
        let ghost before = views(asked@);
        let ghost rest = probes_from(table, at as int);
        let ghost next = probes_from(table, at + 1);
        let mut own = turn_probes(rules, at);
        proof {
            lemma_views_add(asked@, own@);
        }
        asked.append(&mut own);
        assert(views(asked@) + next =~= before + rest);
        at += 1;
    }
    assert(views(asked@) =~= probes_of(table));
    asked
}

} // verus!
