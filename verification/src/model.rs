//! The data the rule table is made of, and the facts it is evaluated on.

use vstd::prelude::*;

verus! {

/// What is asked of a path in the working directory.
#[derive(Clone, Copy, Debug, PartialEq, Eq, Structural)]
pub enum Kind {
    /// The path names an existing regular file.
    File,
    /// The path names an existing directory.
    Folder,
    /// The path names a program that is present and may be executed.
    Executable,
}

/// One existence check: a kind of thing and the path it is expected at.
#[derive(Debug, PartialEq, Eq)]
pub struct Probe {
    pub kind: Kind,
    pub path: String,
}

pub struct ProbeView {
    pub kind: Kind,
    pub path: Seq<char>,
}

impl View for Probe {
    type V = ProbeView;

    open spec fn view(&self) -> ProbeView {
        ProbeView { kind: self.kind, path: self.path@ }
    }
}

/// The views of the elements of a sequence, in order.
pub open spec fn views<T: View>(items: Seq<T>) -> Seq<T::V> {
    Seq::new(items.len(), |i: int| items[i]@)
}

/// Taking views commutes with appending an element.
pub proof fn lemma_views_push<T: View>(items: Seq<T>, item: T)
    ensures
        views(items.push(item)) == views(items).push(item@),
{
    assert(views(items.push(item)) =~= views(items).push(item@));
}

/// Taking views commutes with concatenation.
pub proof fn lemma_views_add<T: View>(front: Seq<T>, back: Seq<T>)
    ensures
        views(front + back) == views(front) + views(back),
{
    assert(views(front + back) =~= views(front) + views(back));
}

impl Probe {
    pub fn new(kind: Kind, path: &str) -> (probe: Probe)
        ensures
            probe@ == (ProbeView { kind, path: path@ }),
    {
        Probe { kind, path: path.to_owned() }
    }

    /// Whether two probes ask the same thing of the same path.
    pub fn same_as(&self, other: &Probe) -> (same: bool)
        ensures
            same == (self@ == other@),
    {
        self.kind == other.kind && self.path == other.path
    }
}

impl Clone for Probe {
    fn clone(&self) -> (probe: Probe)
        ensures
            probe@ == self@,
    {
        Probe { kind: self.kind, path: self.path.clone() }
    }
}

/// A copy of a list of strings.
pub fn copy_texts(texts: &Vec<String>) -> (copy: Vec<String>)
    ensures
        views(copy@) == views(texts@),
{
    let mut copy: Vec<String> = Vec::new();
    let mut i: usize = 0;
    while i < texts.len()
        invariant
            i <= texts@.len(),
            views(copy@) == views(texts@).take(i as int),
        decreases texts@.len() - i,
    {
        proof {
            lemma_views_push(copy@, texts@[i as int]);
        }
        copy.push(texts[i].clone());
        i += 1;
        assert(views(copy@) =~= views(texts@).take(i as int));
    }
    assert(views(texts@).take(i as int) =~= views(texts@));
    copy
}

/// Whether some element of `held` has the view `probe`.
pub open spec fn listed(held: Seq<Probe>, probe: ProbeView) -> bool {
    exists|i: int| 0 <= i < held.len() && (#[trigger] held[i])@ == probe
}

/// The probes that were found to hold in the working directory. A probe that
/// was never recorded counts as not holding: absence is an ordinary answer.
#[derive(Debug)]
pub struct Facts {
    held: Vec<Probe>,
}

impl View for Facts {
    type V = Set<ProbeView>;

    closed spec fn view(&self) -> Set<ProbeView> {
        Set::new(|probe: ProbeView| listed(self.held@, probe))
    }
}

impl Facts {
    /// The empty working directory: nothing holds.
    pub fn new() -> (facts: Facts)
        ensures
            facts@ == Set::<ProbeView>::empty(),
    {
        let facts = Facts { held: Vec::new() };
        assert(facts@ =~= Set::<ProbeView>::empty());
        facts
    }

    /// Records the answer to one probe. A positive answer adds the probe to
    /// the facts; a negative one leaves them as they are.
    pub fn record(&mut self, probe: Probe, answer: bool)
        ensures
            final(self)@ == if answer {
                old(self)@.insert(probe@)
            } else {
                old(self)@
            },
    {
        if answer {
            let ghost before = self.held@;
            let ghost added = probe@;
            self.held.push(probe);
            proof {
                let after = self.held@;
                assert forall|p: ProbeView| listed(after, p) <==> (p == added || listed(before, p)) by {
                    if listed(after, p) {
                        let i = choose|i: int| 0 <= i < after.len() && (#[trigger] after[i])@ == p;
                        if i < before.len() {
                            assert(before[i]@ == p);
                        }
                    }
                    if listed(before, p) {
                        let i = choose|i: int| 0 <= i < before.len() && (#[trigger] before[i])@ == p;
                        assert(after[i]@ == p);
                    }
                    if p == added {
                        assert(after[before.len() as int]@ == p);
                    }
                }
                assert(self@ =~= old(self)@.insert(added));
            }
        }
    }

    /// Whether the probe was recorded as holding.
    pub fn holds(&self, probe: &Probe) -> (held: bool)
        ensures
            held == self@.contains(probe@),
    {
        let mut i: usize = 0;
        while i < self.held.len()
            invariant
                i <= self.held@.len(),
                forall|j: int| 0 <= j < i ==> (#[trigger] self.held@[j])@ != probe@,
            decreases self.held@.len() - i,
        {
            if self.held[i].same_as(probe) {
                return true;
            }
            i += 1;
        }
        false
    }
}

} // verus!
