//! Rationales as HTML.

use crate::enforcer::outcome::{findings, Finding, Rationale};
use vstd::prelude::*;

verus! {

/// One finding as a list item: its severity, its rule and its reason, then the findings
/// below it as a list of their own.
pub open spec fn item(finding: Finding) -> Seq<char>
    decreases finding, 0nat,
{
    "<li class=\"swe-severity-"@ + finding.severity.label() + "\">"@
        + "\n<div class=\"swe-info\">\n    <code class=\"swe-name\">"@ + finding.name
        + "</code>\n    <span class=\"swe-severity\">("@ + finding.severity.label()
        + ")</span>\n    <span class=\"swe-reason\">: "@ + finding.reason + "</span>\n</div>\n"@
        + rendered(finding.below) + "</li>"@
}

/// The first `count` findings of a list as list items, one after the other.
pub open spec fn items(list: Seq<Finding>, count: nat) -> Seq<char>
    decreases list, count,
{
    if count == 0 || count > list.len() {
        Seq::empty()
    } else {
        items(list, (count - 1) as nat) + item(list[count - 1])
    }
}

/// A list of findings as an HTML list.
pub open spec fn rendered(list: Seq<Finding>) -> Seq<char>
    decreases list, list.len() + 1,
{
    "<ul class=\"swe-response\">"@ + items(list, list.len()) + "</ul>"@
}

/// Renders rationales as a nested HTML list.
pub struct ResponseRenderer<'r>(pub &'r Vec<Rationale>);

impl<'r> ResponseRenderer<'r> {
    /// The rationales as HTML.
    pub fn render(self) -> (text: String)
        ensures
            text@ == rendered(findings(self.0@)),
    {
        let mut text = String::new();
        render_into(self.0, &mut text);
        assert(Seq::<char>::empty() + rendered(findings(self.0@)) =~= rendered(findings(self.0@)));
        text
    }
}

/// Adds the rationales as HTML to the end of `text`.
fn render_into(list: &Vec<Rationale>, text: &mut String)
    ensures
        final(text)@ == old(text)@ + rendered(findings(list@)),
    decreases list,
{
    let ghost before = text@;
    let ghost shown = findings(list@);
    text.append("<ul class=\"swe-response\">");
    let mut i: usize = 0;
    while i < list.len()
        invariant
            i <= list.len(),
            shown == findings(list@),
            text@ == before + "<ul class=\"swe-response\">"@ + items(shown, i as nat),
        decreases list.len() - i,
    {
        let ghost so_far = text@;
        let entry = &list[i];
        proof {
            entry.lemma_views_below(entry.rationale@.len());
            assert(entry@.below =~= findings(entry.rationale@));
        }
        text.append("<li class=\"swe-severity-");
        text.append(entry.severity.name());
        text.append("\">");
        text.append("\n<div class=\"swe-info\">\n    <code class=\"swe-name\">");
        text.append(entry.name.as_str());
        text.append("</code>\n    <span class=\"swe-severity\">(");
        text.append(entry.severity.name());
        text.append(")</span>\n    <span class=\"swe-reason\">: ");
        text.append(entry.reason.as_str());
        text.append("</span>\n</div>\n");
        render_into(&entry.rationale, text);
        text.append("</li>");
        assert(text@ =~= so_far + item(shown[i as int]));
        assert(so_far + item(shown[i as int]) =~= before + "<ul class=\"swe-response\">"@ + items(shown, (i + 1) as nat));
        i += 1;
    }
    text.append("</ul>");
    assert(text@ =~= before + rendered(shown));
}

} // verus!
