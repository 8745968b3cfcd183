//! How a conformance report reads.
use vstd::prelude::*;

use crate::diff;
use crate::diff::{ConformanceReport, Finding, FindingModel};
use crate::key_set::KeySet;
use crate::text;
use crate::text::{decimal_text, integer_text};
use crate::transcript::TargetNames;

verus! {

/// A string as `{:?}` shows it: in quotes, with what would not print escaped.
pub uninterp spec fn quoted_form(s: Seq<char>) -> Seq<char>;

/// Whether a string is printable ASCII without quotes and backslashes.
pub open spec fn unescaped(s: Seq<char>) -> bool {
    forall|i: int|
        0 <= i < s.len() ==> {
            let c = #[trigger] s[i];
            ' ' <= c <= '~' && c != '"' && c != '\'' && c != '\\'
        }
}

/// A string in quotes: as it is where nothing in it would be escaped, and else as `{:?}` shows
/// it.
pub open spec fn quoted_text(s: Seq<char>) -> Seq<char> {
    if unescaped(s) {
        "\""@ + s + "\""@
    } else {
        quoted_form(s)
    }
}

/// `<str as Debug>::fmt` of std, called by `format!`: the text depends on the string alone. A
/// string of printable ASCII without quotes and backslashes stands between quotes as it is. How
/// other characters are escaped is left unsaid.
#[verifier::external_body]
fn debug(s: &str) -> (r: String)
    ensures
        r@ == quoted_form(s@),
        unescaped(s@) ==> r@ == "\""@ + s@ + "\""@,
{
    format!("{:?}", s)
}

/// A string in quotes.
pub(crate) fn quoted(s: &str) -> (r: String)
    ensures
        r@ == quoted_text(s@),
{
    debug(s)
}

/// The entries of a list, with a comma and a blank between them.
pub open spec fn joined(parts: Seq<Seq<char>>) -> Seq<char>
    decreases parts.len(),
{
    if parts.len() == 0 {
        seq![]
    } else if parts.len() == 1 {
        parts[0]
    } else {
        joined(parts.drop_last()) + ", "@ + parts.last()
    }
}

/// A set of keys in braces, each key in quotes, in ascending order.
pub open spec fn key_set_text(keys: Set<Seq<char>>) -> Seq<char> {
    "{"@ + joined(text::sorted(keys).map_values(|k: Seq<char>| quoted_text(k))) + "}"@
}

/// A line that names a set of keys, or nothing where the set is empty.
pub open spec fn keys_line(label: Seq<char>, keys: Set<Seq<char>>) -> Seq<char> {
    if keys == Set::<Seq<char>>::empty() {
        seq![]
    } else {
        label + key_set_text(keys) + "\n"@
    }
}

/// What a report says of one finding.
pub open spec fn finding_text(finding: FindingModel) -> Seq<char> {
    match finding {
        FindingModel::SchemaError { step, method, kind, message } => "schema error in "@
            + kind.label() + " "@ + method + " (step="@ + step + "): "@ + message + "\n"@,
        FindingModel::UpstreamSchemaError { step, method, kind, message } => {
            "upstream-schema violation in "@ + kind.label() + " "@ + method + " (step="@ + step
                + "): "@ + message + "\n"@
        },
        FindingModel::UnexpectedError { step, method, code, message } => {
            "unexpected error response for "@ + method + " (step="@ + step + ", code="@
                + text::integer(code as int) + "): "@ + message + "\n"@
        },
        FindingModel::MissingResponse { step, method } => "missing response to "@ + method
            + " in step "@ + step + "\n"@,
        FindingModel::MissingNotification { step, method } => "missing notification "@ + method
            + " in step "@ + step + "\n"@,
        FindingModel::ExtraNotification { step, method } => "unexpected extra notification "@
            + method + " in step "@ + step + "\n"@,
        FindingModel::KeyDifference { step, method, kind, missing, extra } => {
            "key fingerprint diff for "@ + kind.label() + " "@ + method + " (step="@ + step
                + "):\n"@ + keys_line("      missing on target: "@, missing) + keys_line(
                "      extra on target:   "@,
                extra,
            )
        },
    }
}

/// The findings one after the other, each with its number.
pub open spec fn finding_lines(findings: Seq<FindingModel>) -> Seq<char>
    decreases findings.len(),
{
    if findings.len() == 0 {
        seq![]
    } else {
        finding_lines(findings.drop_last()) + "  #"@ + text::decimal((findings.len() - 1) as nat)
            + ": "@ + finding_text(findings.last())
    }
}

/// A whole report on a target of this name.
pub open spec fn report_text(target: Seq<char>, findings: Seq<FindingModel>) -> Seq<char> {
    "[conformance:"@ + target + "] "@ + text::decimal(findings.len()) + " finding(s)\n"@
        + finding_lines(findings)
}

fn append_keys(out: &mut String, label: &str, keys: &KeySet)
    ensures
        final(out)@ == old(out)@ + keys_line(label@, keys@),
{
    let ghost start = out@;
    if keys.is_empty() {
        assert(out@ =~= start + Seq::<char>::empty());
        return;
    }
    out.append(label);
    out.append("{");
    let ghost names = text::sorted(keys@).map_values(|k: Seq<char>| quoted_text(k));
    let ghost head = out@;
    let mut i: usize = 0;
    let n: usize = keys.len();
    assert(out@ =~= head + joined(names.take(0)));
    while i < n
        invariant
            n == names.len(),
            names == text::sorted(keys@).map_values(|k: Seq<char>| quoted_text(k)),
            i <= n,
            out@ == head + joined(names.take(i as int)),
        decreases n - i,
    {
        assert(names.take(i + 1).drop_last() =~= names.take(i as int));
        if i > 0 {
            out.append(", ");
        } else {
            assert(names.take(0) =~= Seq::empty());
        }
        out.append(quoted(keys.get(i).as_str()).as_str());
        assert(out@ =~= head + joined(names.take(i + 1)));
        i = i + 1;
    }
    assert(names.take(i as int) =~= names);
    out.append("}");
    out.append("\n");
    assert(out@ =~= start + keys_line(label@, keys@));
}

fn finding_line(finding: &Finding) -> (r: String)
    ensures
        r@ == finding_text(finding@),
{
    match finding {
        Finding::SchemaError { step, method, kind, message } => {
            let mut out = "schema error in ".to_string();
            out.append(kind.name());
            out.append(" ");
            out.append(method.as_str());
            out.append(" (step=");
            out.append(step.as_str());
            out.append("): ");
            out.append(message.as_str());
            out.append("\n");
            out
        },
        Finding::UpstreamSchemaError { step, method, kind, message } => {
            let mut out = "upstream-schema violation in ".to_string();
            out.append(kind.name());
            out.append(" ");
            out.append(method.as_str());
            out.append(" (step=");
            out.append(step.as_str());
            out.append("): ");
            out.append(message.as_str());
            out.append("\n");
            out
        },
        Finding::UnexpectedError { step, method, code, message } => {
            let mut out = "unexpected error response for ".to_string();
            out.append(method.as_str());
            out.append(" (step=");
            out.append(step.as_str());
            out.append(", code=");
            out.append(integer_text(*code).as_str());
            out.append("): ");
            out.append(message.as_str());
            out.append("\n");
            out
        },
        Finding::MissingResponse { step, method } => {
            let mut out = "missing response to ".to_string();
            out.append(method.as_str());
            out.append(" in step ");
            out.append(step.as_str());
            out.append("\n");
            out
        },
        Finding::MissingNotification { step, method } => {
            let mut out = "missing notification ".to_string();
            out.append(method.as_str());
            out.append(" in step ");
            out.append(step.as_str());
            out.append("\n");
            out
        },
        Finding::ExtraNotification { step, method } => {
            let mut out = "unexpected extra notification ".to_string();
            out.append(method.as_str());
            out.append(" in step ");
            out.append(step.as_str());
            out.append("\n");
            out
        },
        Finding::KeyDifference { step, method, kind, missing, extra } => {
            let mut out = "key fingerprint diff for ".to_string();
            out.append(kind.name());
            out.append(" ");
            out.append(method.as_str());
            out.append(" (step=");
            out.append(step.as_str());
            out.append("):\n");
            append_keys(&mut out, "      missing on target: ", missing);
            append_keys(&mut out, "      extra on target:   ", extra);
            out
        },
    }
}

impl ConformanceReport {
    /// The report as text, with its target under the name that `names` gives it.
    pub fn own_text(&self, names: &TargetNames) -> (r: String)
        ensures
            r@ == report_text(names.label(self.target), self@),
    {
        self.to_text(names.name(self.target))
    }

    /// The report as text, one finding after the other, with the target under the name that it
    /// goes by.
    pub fn to_text(&self, target: &str) -> (r: String)
        ensures
            r@ == report_text(target@, self@),
    {
        let ghost all = self@;
        let n: usize = self.findings.len();
        let mut out = "[conformance:".to_string();
        out.append(target);
        out.append("] ");
        out.append(decimal_text(n as u64).as_str());
        out.append(" finding(s)\n");
        let ghost head = out@;
        let mut i: usize = 0;
        assert(out@ =~= head + finding_lines(all.take(0)));
        while i < n
            invariant
                n == self.findings@.len(),
                all == diff::finding_models(self.findings@),
                i <= n,
                out@ == head + finding_lines(all.take(i as int)),
            decreases n - i,
        {
            out.append("  #");
            out.append(decimal_text(i as u64).as_str());
            out.append(": ");
            out.append(finding_line(&self.findings[i]).as_str());
            assert(all.take(i + 1).drop_last() =~= all.take(i as int));
            assert(out@ =~= head + finding_lines(all.take(i + 1)));
            i = i + 1;
        }
        assert(all.take(i as int) =~= all);
        out
    }
}

} // verus!
