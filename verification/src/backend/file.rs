//! One manifest of a project: its dependencies and what the policy finds in them.

use crate::backend::notification::UpdatedDependenciesParameters;
use crate::backend::publisher::{bucketed, published, notices, singles_of, Category, DiagnosticPublisher, Target};
use crate::diagnostic::{Diagnostic, DiagnosticSeverity};
use crate::enforcer::dependency::{purls, Dependency};
use crate::enforcer::outcome::{findings, reasons, Finding, Judgement, Outcome, Rationale, Severity};
use crate::enforcer::render::{rendered, ResponseRenderer};
use crate::highlight::Range;
use crate::protocol::{Report, SHOW_REPORT};
use crate::utils::location::{file_url, file_url_of};
use crate::utils::paths::{parent, parent_of};
use crate::utils::text::{decimal, decimal_text};
use vstd::prelude::*;

verus! {

/// Why the dependencies of a manifest could not be checked.
#[derive(Debug)]
pub enum Error {
    /// The dependencies could not be gathered.
    Source(String),
    /// The evaluation failed.
    Enforcer(crate::enforcer::error::Error),
    /// A file could not be read.
    Io(String),
}

impl Error {
    /// The failure in words.
    pub open spec fn text(self) -> Seq<char> {
        match self {
            Error::Source(reason) => "failed to gather dependencies: "@ + reason@,
            Error::Enforcer(error) => "enforcer error: "@ + error.text(),
            Error::Io(reason) => "I/O error: "@ + reason@,
        }
    }

    /// The failure in words.
    pub fn to_text(&self) -> (text: String)
        ensures
            text@ == self.text(),
    {
        match self {
            Error::Source(reason) => {
                let mut text = String::from_str("failed to gather dependencies: ");
                text.append(reason.as_str());
                text
            },
            Error::Enforcer(error) => {
                let mut text = String::from_str("enforcer error: ");
                let reason = error.to_text();
                text.append(reason.as_str());
                text
            },
            Error::Io(reason) => {
                let mut text = String::from_str("I/O error: ");
                text.append(reason.as_str());
                text
            },
        }
    }
}

/// One dependency with everything that is known of it after a check.
#[derive(Debug)]
pub struct Checked {
    pub dependency: Dependency,
    /// What the policy says of the dependency.
    pub outcome: Outcome,
    /// Where the manifest declares the dependency: the document and the range in it. Nothing
    /// where that could not be found out.
    pub place: Option<(String, Range)>,
    /// The engine's answer as it came, for the curious.
    pub raw: String,
}

/// The dependencies of a list of checked dependencies, by package URL.
pub open spec fn checked_purls(results: Seq<Checked>) -> Seq<Seq<char>> {
    Seq::new(results.len(), |i: int| results[i].dependency@)
}

/// How the editor shows a severity.
pub open spec fn shown_severity(severity: Severity) -> Option<DiagnosticSeverity> {
    match severity {
        Severity::Nothing => None,
        Severity::Advice => Some(DiagnosticSeverity::Information),
        Severity::Warning => Some(DiagnosticSeverity::Warning),
        Severity::Error => Some(DiagnosticSeverity::Error),
    }
}

/// The first `count` of `parts`, with `separator` between each two.
pub open spec fn joined_text(parts: Seq<Seq<char>>, separator: Seq<char>, count: nat) -> Seq<char>
    decreases count,
{
    if count == 0 || count > parts.len() {
        Seq::empty()
    } else if count == 1 {
        parts[0]
    } else {
        joined_text(parts, separator, (count - 1) as nat) + separator + parts[count - 1]
    }
}

/// The findings that a result rests on: the topmost ones of the highest severity in the
/// rationale of a rejection, and none for any other result.
pub open spec fn grounds(result: Judgement) -> Seq<Finding> {
    match result {
        Judgement::Rejected(finding) => finding.picked(finding.highest()),
        _ => Seq::empty(),
    }
}

/// What a result has to say in one line: the reasons that a rejection rests on, with a
/// comma between each two, or the message of a failed policy.
pub open spec fn summary(result: Judgement) -> Seq<char> {
    match result {
        Judgement::Satisfied => Seq::empty(),
        Judgement::Rejected(_) => joined_text(reasons(grounds(result)), ", "@, grounds(result).len()),
        Judgement::ConfigurationError(message) => message,
    }
}

/// The report on a result as HTML: the findings that it rests on, then the engine's answer
/// as it came.
pub open spec fn report_html(result: Judgement, raw: Seq<char>) -> Seq<char> {
    "\n<div class=\"swe-response\">\n    <div class=\"swe-reasons\">\n        "@ + rendered(grounds(result))
        + "\n    </div>\n    <div class=\"swe-response-raw\">\n        <details>\n            <summary>Raw JSON</summary>\n            <code><pre>"@
        + raw + "</pre></code>\n        </details>\n    </div>\n</div>\n"@
}

/// Whether a checked dependency is shown to the user: its result is a finding of some
/// severity, and the place of the dependency is known.
pub open spec fn is_shown(checked: Checked) -> bool {
    checked.outcome@.severity() != Severity::Nothing && checked.place.is_some()
}

/// Whether `diagnostic` tells of `checked` at `location`.
pub open spec fn tells_of(location: String, diagnostic: Diagnostic, checked: Checked) -> bool {
    &&& checked.place matches Some(place) && location == place.0 && diagnostic.range == place.1
    &&& diagnostic.severity == shown_severity(checked.outcome@.severity())
    &&& diagnostic.message@ == checked.dependency@ + ": "@ + summary(checked.outcome@)
    &&& diagnostic.data matches Some(report) && report.title@ == checked.dependency@ && report.html@ == report_html(
        checked.outcome@,
        checked.raw@,
    )
}

/// The checked dependencies that are shown, in order.
pub open spec fn shown(results: Seq<Checked>) -> Seq<Checked>
    decreases results.len(),
{
    if results.len() == 0 {
        Seq::empty()
    } else if is_shown(results.last()) {
        shown(results.drop_last()).push(results.last())
    } else {
        shown(results.drop_last())
    }
}

/// Whether `list` holds one diagnostic for each of `wanted`, in order.
pub open spec fn tell_of_all(list: Seq<(String, Diagnostic)>, wanted: Seq<Checked>) -> bool {
    &&& list.len() == wanted.len()
    &&& forall|i: int| 0 <= i < wanted.len() ==> tells_of((#[trigger] list[i]).0, list[i].1, wanted[i])
}

/// The reasons of `list`, with a comma between each two.
fn join_reasons(list: &Vec<Rationale>) -> (text: String)
    ensures
        text@ == joined_text(reasons(findings(list@)), ", "@, list@.len()),
{
    let mut text = String::new();
    let ghost parts = reasons(findings(list@));
    let mut i: usize = 0;
    while i < list.len()
        invariant
            i <= list.len(),
            parts == reasons(findings(list@)),
            text@ == joined_text(parts, ", "@, i as nat),
        decreases list.len() - i,
    {
        let ghost before = text@;
        if i > 0 {
            text.append(", ");
        }
        text.append(list[i].reason.as_str());
        proof {
            list[i as int].lemma_views_below(list[i as int].rationale@.len());
            assert(parts[i as int] == list[i as int].reason@);
            if i == 0 {
                assert(text@ =~= parts[0]);
            }
        }
        i += 1;
    }
    text
}

/// The rationales that an outcome rests on.
fn grounds_of(outcome: &Outcome) -> (list: Vec<Rationale>)
    ensures
        findings(list@) == grounds(outcome@),
{
    match outcome {
        Outcome::Rejected(rationale) => rationale.collect_highest(),
        _ => {
            let list: Vec<Rationale> = Vec::new();
            assert(findings(list@) =~= Seq::empty());
            list
        },
    }
}

/// The diagnostic that tells of one checked dependency, with the document that it belongs
/// to; nothing where the dependency is not shown.
pub fn render_finding(checked: &Checked) -> (told: Option<(String, Diagnostic)>)
    ensures
        match told {
            Some((location, diagnostic)) => is_shown(*checked) && tells_of(location, diagnostic, *checked),
            None => !is_shown(*checked),
        },
{
    let severity = match checked.outcome.severity() {
        Severity::Nothing => return None,
        Severity::Advice => DiagnosticSeverity::Information,
        Severity::Warning => DiagnosticSeverity::Warning,
        Severity::Error => DiagnosticSeverity::Error,
    };
    let (location, range) = match &checked.place {
        Some((location, range)) => (location.clone(), *range),
        None => return None,
    };
    let collected = grounds_of(&checked.outcome);
    let mut message = checked.dependency.to_text();
    message.append(": ");
    match &checked.outcome {
        Outcome::Satisfied => {},
        Outcome::Rejected(_) => {
            let said = join_reasons(&collected);
            message.append(said.as_str());
        },
        Outcome::ConfigurationError(reason) => {
            message.append(reason.as_str());
        },
    }
    assert(message@ =~= checked.dependency@ + ": "@ + summary(checked.outcome@));
    let mut html = String::from_str("\n<div class=\"swe-response\">\n    <div class=\"swe-reasons\">\n        ");
    let response = ResponseRenderer(&collected).render();
    html.append(response.as_str());
    html.append(
        "\n    </div>\n    <div class=\"swe-response-raw\">\n        <details>\n            <summary>Raw JSON</summary>\n            <code><pre>",
    );
    html.append(checked.raw.as_str());
    html.append("</pre></code>\n        </details>\n    </div>\n</div>\n");
    let report = Report { title: checked.dependency.to_text(), html };
    Some((location, Diagnostic { severity: Some(severity), message, range, data: Some(report) }))
}

/// The diagnostics that tell of the checked dependencies that are shown, in order, each
/// with the document that it belongs to.
pub fn render_findings(results: &Vec<Checked>) -> (list: Vec<(String, Diagnostic)>)
    ensures
        tell_of_all(list@, shown(results@)),
{
    let mut list: Vec<(String, Diagnostic)> = Vec::new();
    let mut i: usize = 0;
    assert(results@.take(0) =~= Seq::empty());
    while i < results.len()
        invariant
            i <= results.len(),
            tell_of_all(list@, shown(results@.take(i as int))),
        decreases results.len() - i,
    {
        assert(results@.take(i + 1).drop_last() =~= results@.take(i as int));
        assert(results@.take(i + 1).last() == results@[i as int]);
        match render_finding(&results[i]) {
            Some(told) => list.push(told),
            None => {},
        }
        i += 1;
    }
    assert(results@.take(results.len() as int) =~= results@);
    list
}

/// A command for the editor to run.
#[derive(Debug, PartialEq, Eq)]
pub struct Command {
    /// What the user sees.
    pub title: String,
    /// The name of the command.
    pub command: String,
    /// The reports to show.
    pub arguments: Vec<Report>,
}

/// A command offered at a range of a document.
#[derive(Debug, PartialEq, Eq)]
pub struct CodeLens {
    pub range: Range,
    pub command: Option<Command>,
}

/// The title of the command that shows `count` reports.
pub open spec fn report_title(count: nat) -> Seq<char> {
    "Show Report ("@ + decimal_text(count) + " entries)"@
}

/// The place of the first group for `range`, if there is one.
pub open spec fn group_of(groups: Seq<(Range, Seq<Report>)>, range: Range) -> Option<int>
    decreases groups.len(),
{
    if groups.len() == 0 {
        None
    } else {
        match group_of(groups.drop_last(), range) {
            Some(at) => Some(at),
            None => if groups.last().0 == range {
                Some(groups.len() - 1)
            } else {
                None
            },
        }
    }
}

/// The reports of a list of diagnostics, grouped by range: the ranges in the order in which
/// the list first has them, each with the reports of its diagnostics in order. A diagnostic
/// without a report adds nothing to its group.
pub open spec fn grouped(diags: Seq<Diagnostic>) -> Seq<(Range, Seq<Report>)>
    decreases diags.len(),
{
    if diags.len() == 0 {
        Seq::empty()
    } else {
        let before = grouped(diags.drop_last());
        let range = diags.last().range;
        let more = match diags.last().data {
            Some(report) => seq![report],
            None => Seq::empty(),
        };
        match group_of(before, range) {
            Some(at) => before.update(at, (range, before[at].1 + more)),
            None => before.push((range, more)),
        }
    }
}

/// Whether `lens` offers the reports of `group` at the range of the group.
pub open spec fn offers(lens: CodeLens, group: (Range, Seq<Report>)) -> bool {
    &&& lens.range == group.0
    &&& lens.command matches Some(command) && command.title@ == report_title(group.1.len()) && command.command@
        == SHOW_REPORT@ && command.arguments@ == group.1
}

/// Whether `lenses` offer the reports of `groups`, one for one and in order.
pub open spec fn offer_all(lenses: Seq<CodeLens>, groups: Seq<(Range, Seq<Report>)>) -> bool {
    &&& lenses.len() == groups.len()
    &&& forall|i: int| 0 <= i < lenses.len() ==> offers(#[trigger] lenses[i], groups[i])
}

/// Lenses for one list of groups followed by lenses for another are lenses for both.
pub proof fn lemma_offer_all_joined(
    first: Seq<CodeLens>,
    groups: Seq<(Range, Seq<Report>)>,
    second: Seq<CodeLens>,
    more: Seq<(Range, Seq<Report>)>,
)
    requires
        offer_all(first, groups),
        offer_all(second, more),
    ensures
        offer_all(first + second, groups + more),
{
    assert forall|i: int| 0 <= i < (first + second).len() implies offers(#[trigger] (first + second)[i], (groups
        + more)[i]) by {
        if i < first.len() {
            assert((first + second)[i] == first[i]);
        } else {
            assert((first + second)[i] == second[i - first.len()]);
        }
    }
}

/// The first group for a range, where there is one, is a group for that range.
proof fn lemma_group_of(groups: Seq<(Range, Seq<Report>)>, range: Range)
    ensures
        match group_of(groups, range) {
            Some(at) => 0 <= at < groups.len() && groups[at].0 == range && forall|k: int|
                0 <= k < at ==> (#[trigger] groups[k]).0 != range,
            None => forall|k: int| 0 <= k < groups.len() ==> (#[trigger] groups[k]).0 != range,
        },
    decreases groups.len(),
{
    if groups.len() > 0 {
        lemma_group_of(groups.drop_last(), range);
        match group_of(groups.drop_last(), range) {
            Some(at) => {
                assert(groups.drop_last()[at] == groups[at]);
                assert forall|k: int| 0 <= k < at implies (#[trigger] groups[k]).0 != range by {
                    assert(groups.drop_last()[k] == groups[k]);
                }
            },
            None => {
                assert forall|k: int| 0 <= k < groups.len() - 1 implies (#[trigger] groups[k]).0 != range by {
                    assert(groups.drop_last()[k] == groups[k]);
                }
            },
        }
    }
}

/// What a list of groups looks like to a reader.
spec fn groups_of(groups: Seq<(Range, Vec<Report>)>) -> Seq<(Range, Seq<Report>)> {
    Seq::new(groups.len(), |i: int| (groups[i].0, groups[i].1@))
}

/// The index of the first group for `range`.
fn first_group(groups: &Vec<(Range, Vec<Report>)>, range: Range) -> (found: Option<usize>)
    ensures
        match found {
            Some(at) => at < groups.len() && groups[at as int].0 == range && forall|k: int|
                0 <= k < at ==> (#[trigger] groups[k]).0 != range,
            None => forall|k: int| 0 <= k < groups.len() ==> (#[trigger] groups[k]).0 != range,
        },
{
    let mut at: usize = 0;
    while at < groups.len()
        invariant
            at <= groups.len(),
            forall|k: int| 0 <= k < at ==> (#[trigger] groups[k]).0 != range,
        decreases groups.len() - at,
    {
        let here = groups[at].0;
        if here.start.line == range.start.line && here.start.position == range.start.position && here.end.line
            == range.end.line && here.end.position == range.end.position {
            return Some(at);
        }
        at += 1;
    }
    None
}

/// The command that shows `report`.
pub fn create_report_command(report: Vec<Report>) -> (command: Command)
    ensures
        command.title@ == report_title(report@.len()),
        command.command@ == SHOW_REPORT@,
        command.arguments == report,
{
    let mut title = String::from_str("Show Report (");
    let count = decimal(report.len());
    title.append(count.as_str());
    title.append(" entries)");
    Command { title, command: String::from_str(SHOW_REPORT), arguments: report }
}

/// The commands to offer for a list of diagnostics: for each range that the diagnostics
/// have, one command that shows the reports of the diagnostics at that range.
pub fn collect_code_lens(diags: &Vec<Diagnostic>) -> (lenses: Vec<CodeLens>)
    ensures
        offer_all(lenses@, grouped(diags@)),
{
    let mut reports: Vec<(Range, Vec<Report>)> = Vec::new();
    let mut i: usize = 0;
    assert(diags@.take(0) =~= Seq::empty());
    assert(groups_of(reports@) =~= Seq::empty());
    while i < diags.len()
        invariant
            i <= diags.len(),
            groups_of(reports@) == grouped(diags@.take(i as int)),
        decreases diags.len() - i,
    {
        let ghost before = groups_of(reports@);
        let range = diags[i].range;
        assert(diags@.take(i + 1).drop_last() =~= diags@.take(i as int));
        assert(diags@.take(i + 1).last() == diags@[i as int]);
        proof {
            lemma_group_of(before, range);
        }
        let slot = first_group(&reports, range);
        let at = match slot {
            Some(at) => {
                assert(before[at as int].0 == range);
                at
            },
            None => {
                assert(group_of(before, range).is_none()) by {
                    match group_of(before, range) {
                        Some(first) => {
                            assert(before[first].0 == reports[first].0);
                        },
                        None => {},
                    }
                }
                reports.push((range, Vec::new()));
                assert(groups_of(reports@) =~= before.push((range, Seq::empty())));
                reports.len() - 1
            },
        };
        proof {
            if slot.is_some() {
                match group_of(before, range) {
                    Some(first) => {
                        if first < at {
                            assert(before[first].0 == reports[first].0);
                        }
                    },
                    None => {
                        assert(before[at as int].0 == range);
                    },
                }
            }
        }
        let ghost middle = groups_of(reports@);
        match &diags[i].data {
            Some(report) => {
                reports[at].1.push(report.clone());
                assert(groups_of(reports@) =~= middle.update(at as int, (range, middle[at as int].1.push(*report))));
                assert(middle[at as int].1 + seq![*report] =~= middle[at as int].1.push(*report));
            },
            None => {
                assert(middle[at as int].1 + Seq::<Report>::empty() =~= middle[at as int].1);
                assert(middle.update(at as int, (range, middle[at as int].1)) =~= middle);
            },
        }
        assert(groups_of(reports@) =~= grouped(diags@.take(i + 1)));
        i += 1;
    }
    assert(diags@.take(diags.len() as int) =~= diags@);
    let ghost groups = groups_of(reports@);
    let mut lenses: Vec<CodeLens> = Vec::new();
    while reports.len() > 0
        invariant
            lenses.len() + reports.len() == groups.len(),
            forall|k: int| 0 <= k < reports.len() ==> ((#[trigger] reports[k]).0, reports[k].1@)
                == groups[lenses.len() + k],
            forall|k: int| 0 <= k < lenses.len() ==> offers(#[trigger] lenses[k], groups[k]),
        decreases reports.len(),
    {
        let (range, list) = reports.remove(0);
        lenses.push(CodeLens { range, command: Some(create_report_command(list)) });
    }
    lenses
}

/// A manifest of a project whose dependencies are checked.
#[derive(Debug)]
pub struct File {
    path: String,
    dependencies: Vec<Dependency>,
    diagnostics: Vec<(String, Diagnostic)>,
}

/// The diagnostics of `list` that belong to the document `location`, in order.
pub open spec fn diagnostics_at(list: Seq<(String, Diagnostic)>, location: Seq<char>) -> Seq<Diagnostic>
    decreases list.len(),
{
    if list.len() == 0 {
        Seq::empty()
    } else if list.last().0@ == location {
        diagnostics_at(list.drop_last(), location).push(list.last().1)
    } else {
        diagnostics_at(list.drop_last(), location)
    }
}

/// Whether `list` holds nothing but the report of a failed run against `location`.
pub open spec fn is_failure_report(list: Seq<(String, Diagnostic)>, location: Seq<char>, error: Error) -> bool {
    &&& list.len() == 1
    &&& list[0].0@ == location
    &&& list[0].1.message@ == "Failed to run enforcer: "@ + error.text()
    &&& list[0].1.severity == Some(DiagnosticSeverity::Error)
    &&& list[0].1.range == Range::origin()
    &&& list[0].1.data.is_none()
}

impl File {
    /// The path of the manifest.
    pub closed spec fn location(&self) -> Seq<char> {
        self.path@
    }

    /// The dependencies that the manifest declared when it was last checked.
    pub closed spec fn declared(&self) -> Seq<Dependency> {
        self.dependencies@
    }

    /// The diagnostics of the last check, each with the document that it belongs to.
    pub closed spec fn findings(&self) -> Seq<(String, Diagnostic)> {
        self.diagnostics@
    }

    /// The reports to offer for this manifest, grouped by range: those of the diagnostics
    /// that belong to the manifest itself. None where the manifest has no `file:` URL.
    pub open spec fn lens_groups(&self) -> Seq<(Range, Seq<Report>)> {
        match file_url_of(self.location()) {
            None => Seq::empty(),
            Some(root) => grouped(diagnostics_at(self.findings(), root)),
        }
    }

    /// A manifest that has not been checked yet.
    pub fn new(path: String) -> (file: Self)
        ensures
            file.location() == path@,
            file.declared().len() == 0,
            file.findings().len() == 0,
    {
        File { path, dependencies: Vec::new(), diagnostics: Vec::new() }
    }

    /// The path of the manifest.
    pub fn path(&self) -> (path: &str)
        ensures
            path@ == self.location(),
    {
        self.path.as_str()
    }

    /// The dependencies that the manifest declared when it was last checked.
    pub fn dependencies(&self) -> (list: &Vec<Dependency>)
        ensures
            list@ == self.declared(),
    {
        &self.dependencies
    }

    /// The diagnostics of the last check, each with the document that it belongs to.
    pub fn diagnostics(&self) -> (list: &Vec<(String, Diagnostic)>)
        ensures
            list@ == self.findings(),
    {
        &self.diagnostics
    }

    /// Takes the results of a check: the dependencies are those checked, and the
    /// diagnostics tell of each one that is shown.
    pub fn process(&mut self, results: &Vec<Checked>)
        ensures
            final(self).location() == old(self).location(),
            purls(final(self).declared()) == checked_purls(results@),
            tell_of_all(final(self).findings(), shown(results@)),
    {
        let mut dependencies: Vec<Dependency> = Vec::new();
        let mut i: usize = 0;
        while i < results.len()
            invariant
                i <= results.len(),
                dependencies.len() == i,
                forall|k: int| 0 <= k < i ==> (#[trigger] dependencies[k])@ == results[k].dependency@,
            decreases results.len() - i,
        {
            dependencies.push(results[i].dependency.clone());
            i += 1;
        }
        assert(purls(dependencies@) =~= checked_purls(results@));
        self.dependencies = dependencies;
        self.diagnostics = render_findings(results);
    }

    /// Takes what became of a check of this manifest, and publishes the diagnostics.
    ///
    /// Where the manifest has no `file:` URL nothing happens at all. Else the results are
    /// taken over; a failed check leaves no dependencies and one error against the
    /// manifest; a manifest without a directory above it keeps what it had. The diagnostics
    /// are then published as everything that the source has to say, and the dependencies
    /// are handed back for the editor to be told.
    pub fn build<T: Target>(&mut self, publisher: &mut DiagnosticPublisher<T>, results: Result<Vec<Checked>,
        Error>) -> (update: Option<
        UpdatedDependenciesParameters,
    >)
        requires
            old(publisher).wf(),
        ensures
            final(publisher).wf(),
            final(self).location() == old(self).location(),
            match file_url_of(old(self).location()) {
                None => {
                    &&& update.is_none()
                    &&& *final(self) == *old(self)
                    &&& *final(publisher) == *old(publisher)
                },
                Some(root) => {
                    &&& update matches Some(told) && told.root@ == root && purls(told.dependencies@) == purls(
                        final(self).declared(),
                    )
                    &&& match (parent_of(old(self).location()), results) {
                        (None, _) => final(self).declared() == old(self).declared() && final(self).findings() == old(
                            self,
                        ).findings(),
                        (Some(_), Ok(list)) => purls(final(self).declared()) == checked_purls(list@) && tell_of_all(
                            final(self).findings(),
                            shown(list@),
                        ),
                        (Some(_), Err(error)) => final(self).declared().len() == 0 && is_failure_report(
                            final(self).findings(),
                            root,
                            error,
                        ),
                    }
                    &&& final(publisher)@ == published(
                        old(publisher)@,
                        Category::Source,
                        bucketed(singles_of(final(self).findings())),
                    )
                    &&& final(publisher).sink().received() == old(publisher).sink().received() + notices(final(publisher)@)
                },
            },
    {
        let root = match file_url(self.path.as_str()) {
            Some(root) => root,
            None => return None,
        };
        match parent(self.path.as_str()) {
            None => {},
            Some(_) => match results {
                Ok(list) => self.process(&list),
                Err(error) => {
                    self.dependencies = Vec::new();
                    let mut message = String::from_str("Failed to run enforcer: ");
                    let reason = error.to_text();
                    message.append(reason.as_str());
                    let mut diagnostics: Vec<(String, Diagnostic)> = Vec::new();
                    diagnostics.push((root.clone(), Diagnostic::plain(DiagnosticSeverity::Error, message)));
                    self.diagnostics = diagnostics;
                },
            },
        }
        let list = copy_singles(&self.diagnostics);
        publisher.publish_list(Category::Source, list);
        let dependencies = self.dependencies.clone();
        assert(purls(dependencies@) =~= purls(self.dependencies@));
        Some(UpdatedDependenciesParameters { root, dependencies })
    }

    /// The commands to offer for this manifest: those for the diagnostics that belong to
    /// the manifest itself. None where the manifest has no `file:` URL.
    pub fn code_lens(&self) -> (lenses: Vec<CodeLens>)
        ensures
            offer_all(lenses@, self.lens_groups()),
    {
        let root = match file_url(self.path.as_str()) {
            Some(root) => root,
            None => return Vec::new(),
        };
        let mut own: Vec<Diagnostic> = Vec::new();
        let mut i: usize = 0;
        assert(self.diagnostics@.take(0) =~= Seq::empty());
        while i < self.diagnostics.len()
            invariant
                i <= self.diagnostics.len(),
                own@ == diagnostics_at(self.diagnostics@.take(i as int), root@),
            decreases self.diagnostics.len() - i,
        {
            assert(self.diagnostics@.take(i + 1).drop_last() =~= self.diagnostics@.take(i as int));
            assert(self.diagnostics@.take(i + 1).last() == self.diagnostics@[i as int]);
            if self.diagnostics[i].0 == root {
                own.push(self.diagnostics[i].1.clone());
            }
            i += 1;
        }
        assert(self.diagnostics@.take(self.diagnostics.len() as int) =~= self.diagnostics@);
        collect_code_lens(&own)
    }

    /// The actions to offer for a range of this manifest: none.
    pub fn code_action(&self, _range: &Range) -> (actions: Vec<Command>)
        ensures
            actions.len() == 0,
    {
        Vec::new()
    }
}

/// A copy of a list of single diagnostics.
fn copy_singles(list: &Vec<(String, Diagnostic)>) -> (copy: Vec<(String, Diagnostic)>)
    ensures
        singles_of(copy@) == singles_of(list@),
{
    let mut copy: Vec<(String, Diagnostic)> = Vec::new();
    let mut i: usize = 0;
    while i < list.len()
        invariant
            i <= list.len(),
            copy.len() == i,
            forall|k: int| 0 <= k < i ==> (#[trigger] copy[k]).0@ == list[k].0@ && copy[k].1 == list[k].1,
        decreases list.len() - i,
    {
        copy.push((list[i].0.clone(), list[i].1.clone()));
        i += 1;
    }
    assert(singles_of(copy@) =~= singles_of(list@));
    copy
}

} // verus!
