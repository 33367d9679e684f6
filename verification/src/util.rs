//! The result of a scan as Markdown.

use crate::backend::file::grounds;
use crate::command::once::{details_of, AggregatedResult, Outcome, PolicyResult};
use crate::enforcer::outcome::{findings, Finding, Judgement, Rationale, Severity};
use vstd::prelude::*;

verus! {

/// The sign that stands for a severity.
pub open spec fn emoji(severity: Severity) -> Seq<char> {
    match severity {
        Severity::Nothing => "✔"@,
        Severity::Advice => "💡"@,
        Severity::Warning => "⚠️"@,
        Severity::Error => "❌"@,
    }
}

/// The sign that stands for a severity.
pub fn severity_as_emoji(severity: Severity) -> (sign: &'static str)
    ensures
        sign@ == emoji(severity),
{
    match severity {
        Severity::Nothing => "✔",
        Severity::Advice => "💡",
        Severity::Warning => "⚠️",
        Severity::Error => "❌",
    }
}

/// One finding in a cell of the table: the rule in backticks, a colon, the reason.
pub open spec fn cell(finding: Finding) -> Seq<char> {
    "`"@ + finding.name + "` : "@ + finding.reason
}

/// The first `count` findings in a cell of the table, a line break between each two.
pub open spec fn cells(list: Seq<Finding>, count: nat) -> Seq<char>
    decreases count,
{
    if count == 0 || count > list.len() {
        Seq::empty()
    } else if count == 1 {
        cell(list[0])
    } else {
        cells(list, (count - 1) as nat) + "<br>"@ + cell(list[count - 1])
    }
}

/// What a result has to say in the table: the findings that a rejection rests on, or the
/// message of a failed policy.
pub open spec fn remarks(result: Judgement) -> Seq<char> {
    match result {
        Judgement::Satisfied => Seq::empty(),
        Judgement::Rejected(_) => cells(grounds(result), grounds(result).len()),
        Judgement::ConfigurationError(message) => message,
    }
}

/// The row of the table for one dependency.
pub open spec fn row(purl: Seq<char>, result: Judgement) -> Seq<char> {
    if result.severity() == Severity::Nothing {
        "| "@ + emoji(Severity::Nothing) + " | "@ + purl + " | | \n"@
    } else {
        "| "@ + emoji(result.severity()) + " | "@ + purl + " | "@ + remarks(result) + " | \n"@
    }
}

/// The rows of the table for the first `count` dependencies.
pub open spec fn rows(details: Seq<(Seq<char>, Judgement)>, count: nat) -> Seq<char>
    decreases count,
{
    if count == 0 || count > details.len() {
        Seq::empty()
    } else {
        rows(details, (count - 1) as nat) + row(details[count - 1].0, details[count - 1].1)
    }
}

/// The title of the report.
pub open spec fn title() -> Seq<char> {
    "# Seedwing Enforcer Dependency analysis\n\n"@
}

/// The head of the table.
pub open spec fn table_head() -> Seq<char> {
    "\n\n"@ + "| Satisfied | Package URL | Reason |\n"@ + "| --------- | ----------- | ------ |\n"@
}

/// The result of a scan as Markdown: the title, the verdict, and a table with one row for
/// each dependency. A configuration error has no table.
pub open spec fn markdown(status: AggregatedResult, details: Seq<(Seq<char>, Judgement)>) -> Seq<char> {
    match status {
        AggregatedResult::Accepted => title() + "✔ Accepted ✔️\n"@ + table_head() + rows(details, details.len()),
        AggregatedResult::Rejected => title() + "❌ Rejected ❌\n"@ + table_head() + rows(details, details.len()),
        AggregatedResult::ConfigError(_) => title() + "Configuration Error ❌\n"@,
    }
}

/// The findings of `list` in a cell of the table.
fn write_cells(list: &Vec<Rationale>) -> (text: String)
    ensures
        text@ == cells(findings(list@), list@.len()),
{
    let mut text = String::new();
    let ghost shown = findings(list@);
    let mut i: usize = 0;
    while i < list.len()
        invariant
            i <= list.len(),
            shown == findings(list@),
            text@ == cells(shown, i as nat),
        decreases list.len() - i,
    {
        let ghost before = text@;
        if i > 0 {
            text.append("<br>");
        }
        text.append("`");
        text.append(list[i].name.as_str());
        text.append("` : ");
        text.append(list[i].reason.as_str());
        proof {
            list[i as int].lemma_views_below(list[i as int].rationale@.len());
            assert(shown[i as int].name == list[i as int].name@);
            assert(shown[i as int].reason == list[i as int].reason@);
            if i == 0 {
                assert(text@ =~= cell(shown[0]));
            } else {
                assert(text@ =~= before + "<br>"@ + cell(shown[i as int]));
            }
        }
        i += 1;
    }
    text
}

/// The row of the table for one dependency.
fn write_row(result: &PolicyResult) -> (text: String)
    ensures
        text@ == row(result.dependency@, result.response@),
{
    let severity = result.response.severity();
    let mut text = String::from_str("| ");
    text.append(severity_as_emoji(severity));
    text.append(" | ");
    text.append(result.dependency.cache_key());
    match severity {
        Severity::Nothing => {
            text.append(" | | \n");
        },
        _ => {
            text.append(" | ");
            match &result.response {
                crate::enforcer::outcome::Outcome::Satisfied => {},
                crate::enforcer::outcome::Outcome::Rejected(rationale) => {
                    let collected = rationale.collect_highest();
                    let said = write_cells(&collected);
                    text.append(said.as_str());
                },
                crate::enforcer::outcome::Outcome::ConfigurationError(message) => {
                    text.append(message.as_str());
                },
            }
            text.append(" | \n");
        },
    }
    assert(text@ =~= row(result.dependency@, result.response@));
    text
}

/// Writes the result of a scan as Markdown.
pub fn result_to_markdown(data: &Outcome) -> (text: String)
    ensures
        text@ == markdown(data.status, details_of(data.details@)),
{
    let mut text = String::new();
    text.append("# Seedwing Enforcer Dependency analysis\n\n");
    match &data.status {
        AggregatedResult::Accepted => text.append("✔ Accepted ✔️\n"),
        AggregatedResult::Rejected => text.append("❌ Rejected ❌\n"),
        AggregatedResult::ConfigError(_) => {
            text.append("Configuration Error ❌\n");
            assert(text@ =~= markdown(data.status, details_of(data.details@)));
            return text;
        },
    }
    text.append("\n\n");
    text.append("| Satisfied | Package URL | Reason |\n");
    text.append("| --------- | ----------- | ------ |\n");
    let ghost head = text@;
    let ghost details = details_of(data.details@);
    let mut i: usize = 0;
    while i < data.details.len()
        invariant
            i <= data.details.len(),
            details == details_of(data.details@),
            text@ == head + rows(details, i as nat),
        decreases data.details.len() - i,
    {
        let line = write_row(&data.details[i]);
        text.append(line.as_str());
        assert(text@ =~= head + rows(details, (i + 1) as nat));
        i += 1;
    }
    assert(text@ =~= markdown(data.status, details));
    text
}

} // verus!
