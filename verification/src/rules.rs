//! Rules: a marker that is looked for, and what is done when it is found.

use vstd::prelude::*;
use crate::model::{copy_texts, views, Facts, Kind, Probe, ProbeView};

verus! {

/// The condition under which a rule applies.
#[derive(Debug, PartialEq, Eq)]
pub enum Marker {
    /// A single probe holds.
    One(Probe),
    /// Both probes hold.
    Both(Probe, Probe),
}

pub enum MarkerView {
    One(ProbeView),
    Both(ProbeView, ProbeView),
}

impl View for Marker {
    type V = MarkerView;

    open spec fn view(&self) -> MarkerView {
        match self {
            Marker::One(p) => MarkerView::One(p@),
            Marker::Both(p, q) => MarkerView::Both(p@, q@),
        }
    }
}

impl Clone for Marker {
    fn clone(&self) -> (marker: Marker)
        ensures
            marker@ == self@,
    {
        match self {
            Marker::One(p) => Marker::One(p.clone()),
            Marker::Both(p, q) => Marker::Both(p.clone(), q.clone()),
        }
    }
}

/// Whether the marker is present among the facts.
pub open spec fn marker_holds(marker: MarkerView, facts: Set<ProbeView>) -> bool {
    match marker {
        MarkerView::One(p) => facts.contains(p),
        MarkerView::Both(p, q) => facts.contains(p) && facts.contains(q),
    }
}

/// The probes a marker depends on, in the order in which they are asked.
pub open spec fn marker_probes(marker: MarkerView) -> Seq<ProbeView> {
    match marker {
        MarkerView::One(p) => seq![p],
        MarkerView::Both(p, q) => seq![p, q],
    }
}

impl Marker {
    /// Whether the marker is present among the facts.
    pub fn matches(&self, facts: &Facts) -> (found: bool)
        ensures
            found == marker_holds(self@, facts@),
    {
        match self {
            Marker::One(p) => facts.holds(p),
            Marker::Both(p, q) => facts.holds(p) && facts.holds(q),
        }
    }

    /// The probes whose answers decide this marker.
    pub fn probes(&self) -> (asked: Vec<Probe>)
        ensures
            views(asked@) == marker_probes(self@),
    {
        let mut asked: Vec<Probe> = Vec::new();
        match self {
            Marker::One(p) => {
                asked.push(p.clone());
            },
            Marker::Both(p, q) => {
                asked.push(p.clone());
                asked.push(q.clone());
            },
        }
        assert(views(asked@) =~= marker_probes(self@));
        asked
    }
}

/// What a rule does once its marker is found.
#[derive(Debug, PartialEq, Eq)]
pub enum Effect {
    /// Run `program` with `fixed_args` followed by the caller's own
    /// arguments. With `should_exit` the program's exit code ends the whole
    /// run; without it the rules below are still looked at.
    Run { program: String, fixed_args: Vec<String>, should_exit: bool },
    /// Print `message` and leave with `code`, running nothing.
    Hint { message: String, code: i32 },
}

pub enum EffectView {
    Run { program: Seq<char>, fixed_args: Seq<Seq<char>>, should_exit: bool },
    Hint { message: Seq<char>, code: i32 },
}

impl View for Effect {
    type V = EffectView;

    open spec fn view(&self) -> EffectView {
        match self {
            Effect::Run { program, fixed_args, should_exit } => EffectView::Run {
                program: program@,
                fixed_args: views(fixed_args@),
                should_exit: *should_exit,
            },
            Effect::Hint { message, code } => EffectView::Hint { message: message@, code: *code },
        }
    }
}

impl Clone for Effect {
    fn clone(&self) -> (effect: Effect)
        ensures
            effect@ == self@,
    {
        match self {
            Effect::Run { program, fixed_args, should_exit } => Effect::Run {
                program: program.clone(),
                fixed_args: copy_texts(fixed_args),
                should_exit: *should_exit,
            },
            Effect::Hint { message, code } => Effect::Hint {
                message: message.clone(),
                code: *code,
            },
        }
    }
}

/// Whether nothing is looked at any more after the effect.
pub open spec fn ends_run(effect: EffectView) -> bool {
    match effect {
        EffectView::Run { should_exit, .. } => should_exit,
        EffectView::Hint { .. } => true,
    }
}

/// One entry of the dispatch table.
#[derive(Debug, PartialEq, Eq)]
pub struct Rule {
    pub marker: Marker,
    pub effect: Effect,
}

pub struct RuleView {
    pub marker: MarkerView,
    pub effect: EffectView,
}

impl View for Rule {
    type V = RuleView;

    open spec fn view(&self) -> RuleView {
        RuleView { marker: self.marker@, effect: self.effect@ }
    }
}

impl Clone for Rule {
    fn clone(&self) -> (rule: Rule)
        ensures
            rule@ == self@,
    {
        Rule { marker: self.marker.clone(), effect: self.effect.clone() }
    }
}

/// The rule that runs `program` when `file` is a regular file.
pub open spec fn file_rule(
    program: Seq<char>,
    fixed_args: Seq<Seq<char>>,
    should_exit: bool,
    file: Seq<char>,
) -> RuleView {
    RuleView {
        marker: MarkerView::One(ProbeView { kind: Kind::File, path: file }),
        effect: EffectView::Run { program, fixed_args, should_exit },
    }
}

/// The rule that runs `program`, with no fixed arguments, when `program`
/// itself is present and executable.
pub open spec fn script_rule(program: Seq<char>, should_exit: bool) -> RuleView {
    RuleView {
        marker: MarkerView::One(ProbeView { kind: Kind::Executable, path: program }),
        effect: EffectView::Run { program, fixed_args: Seq::empty(), should_exit },
    }
}

/// The rule that prints `message` and leaves with `code` when `file` is a
/// regular file and `folder` a directory.
pub open spec fn hint_rule(
    message: Seq<char>,
    code: i32,
    file: Seq<char>,
    folder: Seq<char>,
) -> RuleView {
    RuleView {
        marker: MarkerView::Both(
            ProbeView { kind: Kind::File, path: file },
            ProbeView { kind: Kind::Folder, path: folder },
        ),
        effect: EffectView::Hint { message, code },
    }
}

/// Builds the rule that runs `program` with `args` when `file` exists.
pub fn run_program_if_file_exists(
    program: &str,
    args: Vec<String>,
    should_exit: bool,
    file: &str,
) -> (rule: Rule)
    ensures
        rule@ == file_rule(program@, views(args@), should_exit, file@),
{
    Rule {
        marker: Marker::One(Probe::new(Kind::File, file)),
        effect: Effect::Run { program: program.to_owned(), fixed_args: args, should_exit },
    }
}

/// Builds the rule that runs the local script `program` when it is present
/// and executable.
pub fn run_program_if_exists(program: &str, should_exit: bool) -> (rule: Rule)
    ensures
        rule@ == script_rule(program@, should_exit),
{
    let fixed_args: Vec<String> = Vec::new();
    assert(views(fixed_args@) =~= Seq::<Seq<char>>::empty());
    Rule {
        marker: Marker::One(Probe::new(Kind::Executable, program)),
        effect: Effect::Run { program: program.to_owned(), fixed_args, should_exit },
    }
}

/// Builds the rule that only advises: when `file` exists beside the
/// directory `folder`, `message` is printed and the run ends with `code`.
pub fn advise_if_file_and_folder_exist(
    message: &str,
    code: i32,
    file: &str,
    folder: &str,
) -> (rule: Rule)
    ensures
        rule@ == hint_rule(message@, code, file@, folder@),
{
    Rule {
        marker: Marker::Both(Probe::new(Kind::File, file), Probe::new(Kind::Folder, folder)),
        effect: Effect::Hint { message: message.to_owned(), code },
    }
}

} // verus!
