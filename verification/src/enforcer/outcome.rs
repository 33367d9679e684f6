//! What the policy says of one dependency.

use vstd::prelude::*;

verus! {

/// How serious a finding is, from no finding at all to an error.
#[derive(Copy, Clone, Debug, PartialEq, Eq, PartialOrd, Ord, Hash, Structural)]
pub enum Severity {
    /// No finding at all.
    Nothing,
    Advice,
    Warning,
    Error,
}

impl Severity {
    /// The place of this severity on the scale, starting at zero for `Nothing`.
    pub open spec fn rank(self) -> int {
        match self {
            Severity::Nothing => 0,
            Severity::Advice => 1,
            Severity::Warning => 2,
            Severity::Error => 3,
        }
    }

    /// The more serious of two severities.
    pub open spec fn stronger(self, other: Severity) -> Severity {
        if self.rank() >= other.rank() {
            self
        } else {
            other
        }
    }

    /// The place of this severity on the scale.
    pub fn level(self) -> (level: u8)
        ensures
            level == self.rank(),
    {
        match self {
            Severity::Nothing => 0,
            Severity::Advice => 1,
            Severity::Warning => 2,
            Severity::Error => 3,
        }
    }

    /// The more serious of two severities.
    pub fn max(self, other: Severity) -> (top: Severity)
        ensures
            top == self.stronger(other),
    {
        if self.level() >= other.level() {
            self
        } else {
            other
        }
    }

    /// The severity of a plain verdict, for an engine that knows no degrees: nothing where
    /// the rule is satisfied, and an error where it is not.
    pub fn of_verdict(satisfied: bool) -> (severity: Severity)
        ensures
            severity == (if satisfied {
                Severity::Nothing
            } else {
                Severity::Error
            }),
    {
        if satisfied {
            Severity::Nothing
        } else {
            Severity::Error
        }
    }

    /// The name of this severity in lower case.
    pub fn name(self) -> (name: &'static str)
        ensures
            name@ == self.label(),
    {
        match self {
            Severity::Nothing => "none",
            Severity::Advice => "advice",
            Severity::Warning => "warning",
            Severity::Error => "error",
        }
    }

    /// The name of this severity in lower case.
    pub open spec fn label(self) -> Seq<char> {
        match self {
            Severity::Nothing => "none"@,
            Severity::Advice => "advice"@,
            Severity::Warning => "warning"@,
            Severity::Error => "error"@,
        }
    }
}

/// Why a rule came to its result, as a tree of plain values: the rule, its severity and its
/// reason, and below it the findings of the rules that it relied on.
pub struct Finding {
    pub name: Seq<char>,
    pub severity: Severity,
    pub reason: Seq<char>,
    pub below: Seq<Finding>,
}

impl Finding {
    /// The highest severity among the first `count` findings below this one, each taken
    /// with everything below it.
    pub open spec fn highest_below(self, count: nat) -> Severity
        decreases self, count,
    {
        if count == 0 || count > self.below.len() {
            Severity::Nothing
        } else {
            self.below[count - 1].highest().stronger(self.highest_below((count - 1) as nat))
        }
    }

    /// The highest severity anywhere in this tree.
    pub open spec fn highest(self) -> Severity
        decreases self, self.below.len() + 1,
    {
        self.severity.stronger(self.highest_below(self.below.len()))
    }

    /// The findings of severity `level` among the first `count` findings below this one,
    /// in order.
    pub open spec fn picked_below(self, level: Severity, count: nat) -> Seq<Finding>
        decreases self, count,
    {
        if count == 0 || count > self.below.len() {
            Seq::empty()
        } else {
            self.picked_below(level, (count - 1) as nat) + self.below[count - 1].picked(level)
        }
    }

    /// The topmost findings of severity `level` in this tree, in order: this finding where
    /// it has that severity, and else those of the findings below it.
    pub open spec fn picked(self, level: Severity) -> Seq<Finding>
        decreases self, self.below.len() + 1,
    {
        if self.severity == level {
            seq![self]
        } else {
            self.picked_below(level, self.below.len())
        }
    }
}

/// What a list of rationales looks like to a reader.
pub open spec fn findings(list: Seq<Rationale>) -> Seq<Finding> {
    Seq::new(list.len(), |i: int| list[i]@)
}

/// The reasons of a list of findings, in order.
pub open spec fn reasons(list: Seq<Finding>) -> Seq<Seq<char>> {
    Seq::new(list.len(), |i: int| list[i].reason)
}

/// Why a rule came to its result: the rule, its severity and its reason, and below it the
/// rationales of the rules that it relied on.
#[derive(Debug, PartialEq, Eq)]
pub struct Rationale {
    /// The name of the policy rule.
    pub name: String,
    pub severity: Severity,
    /// What the rule has to say.
    pub reason: String,
    /// The rationales of the rules below this one.
    pub rationale: Vec<Rationale>,
}

impl Rationale {
    /// The first `count` rationales below this one, as findings.
    pub open spec fn views_below(self, count: nat) -> Seq<Finding>
        decreases self, count,
    {
        if count == 0 || count > self.rationale@.len() {
            Seq::empty()
        } else {
            self.views_below((count - 1) as nat).push(self.rationale@[count - 1].as_finding())
        }
    }

    /// This rationale as a tree of plain values.
    pub open spec fn as_finding(self) -> Finding
        decreases self, self.rationale@.len() + 1,
    {
        Finding {
            name: self.name@,
            severity: self.severity,
            reason: self.reason@,
            below: self.views_below(self.rationale@.len()),
        }
    }

    /// The findings below number as many as were asked for, and each is the view of the
    /// rationale at its place.
    pub proof fn lemma_views_below(self, count: nat)
        requires
            count <= self.rationale@.len(),
        ensures
            self.views_below(count).len() == count,
            forall|i: int| 0 <= i < count ==> self.views_below(count)[i] == self.rationale@[i].as_finding(),
        decreases count,
    {
        if count > 0 {
            self.lemma_views_below((count - 1) as nat);
        }
    }

    /// The highest severity anywhere in this tree.
    pub fn highest_severity(&self) -> (top: Severity)
        ensures
            top == self@.highest(),
        decreases self,
    {
        let mut top = Severity::Nothing;
        let mut i: usize = 0;
        proof {
            self.lemma_views_below(self.rationale@.len());
        }
        while i < self.rationale.len()
            invariant
                i <= self.rationale.len(),
                self@.below.len() == self.rationale.len(),
                forall|k: int| 0 <= k < self.rationale.len() ==> self@.below[k] == self.rationale@[k]@,
                top == self@.highest_below(i as nat),
            decreases self.rationale.len() - i,
        {
            let below = self.rationale[i].highest_severity();
            top = below.max(top);
            i += 1;
        }
        self.severity.max(top)
    }
}

impl Rationale {
    /// Adds to `into` the topmost rationales of severity `level` in this tree, in order.
    pub fn collect(&self, level: Severity, into: &mut Vec<Rationale>)
        ensures
            findings(final(into)@) == findings(old(into)@) + self@.picked(level),
        decreases self,
    {
        let ghost before = findings(into@);
        if self.severity.level() == level.level() {
            let ghost held = into@;
            into.push(self.clone());
            assert(findings(into@) =~= findings(held).push(self@));
            assert(before + self@.picked(level) =~= before.push(self@));
        } else {
            proof {
                self.lemma_views_below(self.rationale@.len());
            }
            let mut i: usize = 0;
            while i < self.rationale.len()
                invariant
                    i <= self.rationale.len(),
                    before == findings(old(into)@),
                    self@.below.len() == self.rationale.len(),
                    forall|k: int| 0 <= k < self.rationale.len() ==> self@.below[k] == self.rationale@[k]@,
                    findings(into@) == before + self@.picked_below(level, i as nat),
                decreases self.rationale.len() - i,
            {
                let ghost so_far = self@.picked_below(level, i as nat);
                self.rationale[i].collect(level, into);
                assert(before + so_far + self.rationale@[i as int]@.picked(level) =~= before + self@.picked_below(
                    level,
                    (i + 1) as nat,
                ));
                i += 1;
            }
        }
    }

    /// The topmost rationales of the highest severity in this tree, in order.
    pub fn collect_highest(&self) -> (list: Vec<Rationale>)
        ensures
            findings(list@) == self@.picked(self@.highest()),
    {
        let level = self.highest_severity();
        let mut list: Vec<Rationale> = Vec::new();
        self.collect(level, &mut list);
        assert(findings(Seq::<Rationale>::empty()) + self@.picked(level) =~= self@.picked(level));
        list
    }
}

impl View for Rationale {
    type V = Finding;

    open spec fn view(&self) -> Finding {
        self.as_finding()
    }
}

impl Clone for Rationale {
    fn clone(&self) -> (copy: Self)
        ensures
            copy@ == self@,
        decreases self,
    {
        let mut below: Vec<Rationale> = Vec::new();
        let mut i: usize = 0;
        while i < self.rationale.len()
            invariant
                i <= self.rationale.len(),
                below.len() == i,
                forall|k: int| 0 <= k < i ==> below@[k]@ == self.rationale@[k]@,
            decreases self.rationale.len() - i,
        {
            below.push(self.rationale[i].clone());
            i += 1;
        }
        let copy = Rationale { name: self.name.clone(), severity: self.severity, reason: self.reason.clone(),
            rationale: below };
        proof {
            self.lemma_views_below(self.rationale@.len());
            copy.lemma_views_below(copy.rationale@.len());
            assert(copy@.below =~= self@.below);
        }
        copy
    }
}

/// The result of checking one dependency, as plain values.
pub enum Judgement {
    Satisfied,
    Rejected(Finding),
    ConfigurationError(Seq<char>),
}

/// The result of checking one dependency against the policy.
#[derive(Debug, PartialEq, Eq)]
pub enum Outcome {
    /// The dependency satisfies the policy.
    Satisfied,
    /// The dependency does not satisfy the policy, for the reasons given.
    Rejected(Rationale),
    /// The policy itself could not be applied.
    ConfigurationError(String),
}

impl View for Outcome {
    type V = Judgement;

    open spec fn view(&self) -> Judgement {
        match self {
            Outcome::Satisfied => Judgement::Satisfied,
            Outcome::Rejected(rationale) => Judgement::Rejected(rationale@),
            Outcome::ConfigurationError(message) => Judgement::ConfigurationError(message@),
        }
    }
}

impl Clone for Outcome {
    fn clone(&self) -> (copy: Self)
        ensures
            copy@ == self@,
    {
        match self {
            Outcome::Satisfied => Outcome::Satisfied,
            Outcome::Rejected(rationale) => Outcome::Rejected(rationale.clone()),
            Outcome::ConfigurationError(message) => Outcome::ConfigurationError(message.clone()),
        }
    }
}

impl Judgement {
    /// How serious this result is: nothing where the dependency is fine, the highest
    /// severity of the rationale where it is rejected, an error where the policy failed.
    pub open spec fn severity(self) -> Severity {
        match self {
            Judgement::Satisfied => Severity::Nothing,
            Judgement::Rejected(finding) => finding.highest(),
            Judgement::ConfigurationError(_) => Severity::Error,
        }
    }
}

impl Outcome {
    /// How serious this result is.
    pub fn severity(&self) -> (severity: Severity)
        ensures
            severity == self@.severity(),
    {
        match self {
            Outcome::Satisfied => Severity::Nothing,
            Outcome::Rejected(rationale) => rationale.highest_severity(),
            Outcome::ConfigurationError(_) => Severity::Error,
        }
    }
}

/// What the policy engine answers for one dependency.
#[derive(Debug, PartialEq, Eq)]
pub struct Response {
    /// Whether the required rule is satisfied.
    pub satisfied: bool,
    /// How the engine came to its answer.
    pub rationale: Rationale,
}

/// The result that an answer of the engine stands for: satisfied where the engine says so,
/// and else rejected with the engine's whole rationale.
pub open spec fn judged(satisfied: bool, finding: Finding) -> Judgement {
    if satisfied {
        Judgement::Satisfied
    } else {
        Judgement::Rejected(finding)
    }
}

impl Response {
    /// Reads the engine's answer as a result.
    pub fn into_outcome(self) -> (outcome: Outcome)
        ensures
            outcome@ == judged(self.satisfied, self.rationale@),
    {
        if self.satisfied {
            Outcome::Satisfied
        } else {
            Outcome::Rejected(self.rationale)
        }
    }
}

} // verus!
