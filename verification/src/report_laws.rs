//! What the text of a report says.
use vstd::prelude::*;

use crate::diff::FindingModel;
use crate::report;
use crate::text;
use crate::transcript::FrameKind;

verus! {

/// The label before the keys that are missing.
pub open spec fn missing_label() -> Seq<char> {
    "      missing on target: "@
}

/// The label before the keys that are extra.
pub open spec fn extra_label() -> Seq<char> {
    "      extra on target:   "@
}

proof fn lemma_flatten_push(parts: Seq<Seq<char>>, part: Seq<char>)
    ensures
        parts.push(part).flatten() == parts.flatten() + part,
    decreases parts.len(),
{
    if parts.len() == 0 {
        parts.push(part).lemma_flatten_one_element();
        assert(parts.flatten() + part =~= part);
    } else {
        lemma_flatten_push(parts.drop_first(), part);
        assert(parts.push(part).drop_first() =~= parts.drop_first().push(part));
        assert(parts.push(part).flatten() =~= parts.flatten() + part);
    }
}

/// A report begins with a line that names the target and says how many findings there are. Then
/// come all findings, in order, each with its number, and nothing else.
pub proof fn law_report_holds_every_finding(target: Seq<char>, findings: Seq<FindingModel>)
    ensures
        report::report_text(target, findings) == "[conformance:"@ + target + "] "@ + text::decimal(
            findings.len(),
        ) + " finding(s)\n"@ + Seq::new(
            findings.len(),
            |i: int|
                "  #"@ + text::decimal(i as nat) + ": "@ + report::finding_text(findings[i]),
        ).flatten(),
{
    lemma_entries(findings);
}

proof fn lemma_entries(findings: Seq<FindingModel>)
    ensures
        report::finding_lines(findings) == Seq::new(
            findings.len(),
            |i: int|
                "  #"@ + text::decimal(i as nat) + ": "@ + report::finding_text(findings[i]),
        ).flatten(),
    decreases findings.len(),
{
    let entries = Seq::new(
        findings.len(),
        |i: int| "  #"@ + text::decimal(i as nat) + ": "@ + report::finding_text(findings[i]),
    );
    if findings.len() > 0 {
        let rest = findings.drop_last();
        lemma_entries(rest);
        let earlier = Seq::new(
            rest.len(),
            |i: int| "  #"@ + text::decimal(i as nat) + ": "@ + report::finding_text(rest[i]),
        );
        let last = "  #"@ + text::decimal((findings.len() - 1) as nat) + ": "@
            + report::finding_text(findings.last());
        assert(entries =~= earlier.push(last));
        lemma_flatten_push(earlier, last);
        assert(report::finding_lines(findings) =~= earlier.flatten() + last);
    } else {
        assert(entries =~= Seq::<Seq<char>>::empty());
        assert(report::finding_lines(findings) =~= entries.flatten());
    }
}

/// The text of an error names its kind, its method, its step and its message, in full and in this
/// order; that of a missing or extra method names the method and the step.
pub proof fn law_findings_name_what_they_found(
    step: Seq<char>,
    method: Seq<char>,
    kind: FrameKind,
    code: i64,
    message: Seq<char>,
)
    ensures
        report::finding_text(FindingModel::SchemaError { step, method, kind, message }) == seq![
            "schema error in "@,
            kind.label(),
            " "@,
            method,
            " (step="@,
            step,
            "): "@,
            message,
            "\n"@,
        ].flatten(),
        report::finding_text(FindingModel::UpstreamSchemaError { step, method, kind, message })
            == seq![
            "upstream-schema violation in "@,
            kind.label(),
            " "@,
            method,
            " (step="@,
            step,
            "): "@,
            message,
            "\n"@,
        ].flatten(),
        report::finding_text(FindingModel::UnexpectedError { step, method, code, message })
            == seq![
            "unexpected error response for "@,
            method,
            " (step="@,
            step,
            ", code="@,
            text::integer(code as int),
            "): "@,
            message,
            "\n"@,
        ].flatten(),
        report::finding_text(FindingModel::MissingResponse { step, method }) == seq![
            "missing response to "@,
            method,
            " in step "@,
            step,
            "\n"@,
        ].flatten(),
        report::finding_text(FindingModel::MissingNotification { step, method }) == seq![
            "missing notification "@,
            method,
            " in step "@,
            step,
            "\n"@,
        ].flatten(),
        report::finding_text(FindingModel::ExtraNotification { step, method }) == seq![
            "unexpected extra notification "@,
            method,
            " in step "@,
            step,
            "\n"@,
        ].flatten(),
{
    lemma_nine("schema error in "@, kind.label(), " "@, method, " (step="@, step, "): "@, message);
    lemma_nine(
        "upstream-schema violation in "@,
        kind.label(),
        " "@,
        method,
        " (step="@,
        step,
        "): "@,
        message,
    );
    lemma_nine(
        "unexpected error response for "@,
        method,
        " (step="@,
        step,
        ", code="@,
        text::integer(code as int),
        "): "@,
        message,
    );
    lemma_five("missing response to "@, method, step);
    lemma_five("missing notification "@, method, step);
    lemma_five("unexpected extra notification "@, method, step);
}

proof fn lemma_nine(
    a: Seq<char>,
    b: Seq<char>,
    c: Seq<char>,
    d: Seq<char>,
    e: Seq<char>,
    f: Seq<char>,
    g: Seq<char>,
    h: Seq<char>,
)
    ensures
        seq![a, b, c, d, e, f, g, h, "\n"@].flatten() == a + b + c + d + e + f + g + h + "\n"@,
{
    let none = Seq::<Seq<char>>::empty();
    lemma_flatten_push(none, a);
    lemma_flatten_push(seq![a], b);
    lemma_flatten_push(seq![a, b], c);
    lemma_flatten_push(seq![a, b, c], d);
    lemma_flatten_push(seq![a, b, c, d], e);
    lemma_flatten_push(seq![a, b, c, d, e], f);
    lemma_flatten_push(seq![a, b, c, d, e, f], g);
    lemma_flatten_push(seq![a, b, c, d, e, f, g], h);
    lemma_flatten_push(seq![a, b, c, d, e, f, g, h], "\n"@);
    assert(none.flatten() + a =~= a);
    assert(none.push(a) =~= seq![a]);
    assert(seq![a].push(b) =~= seq![a, b]);
    assert(seq![a, b].push(c) =~= seq![a, b, c]);
    assert(seq![a, b, c].push(d) =~= seq![a, b, c, d]);
    assert(seq![a, b, c, d].push(e) =~= seq![a, b, c, d, e]);
    assert(seq![a, b, c, d, e].push(f) =~= seq![a, b, c, d, e, f]);
    assert(seq![a, b, c, d, e, f].push(g) =~= seq![a, b, c, d, e, f, g]);
    assert(seq![a, b, c, d, e, f, g].push(h) =~= seq![a, b, c, d, e, f, g, h]);
    assert(seq![a, b, c, d, e, f, g, h].push("\n"@) =~= seq![a, b, c, d, e, f, g, h, "\n"@]);
}

proof fn lemma_five(a: Seq<char>, method: Seq<char>, step: Seq<char>)
    ensures
        seq![a, method, " in step "@, step, "\n"@].flatten() == a + method + " in step "@ + step
            + "\n"@,
{
    let none = Seq::<Seq<char>>::empty();
    let c = " in step "@;
    lemma_flatten_push(none, a);
    lemma_flatten_push(seq![a], method);
    lemma_flatten_push(seq![a, method], c);
    lemma_flatten_push(seq![a, method, c], step);
    lemma_flatten_push(seq![a, method, c, step], "\n"@);
    assert(none.flatten() + a =~= a);
    assert(none.push(a) =~= seq![a]);
    assert(seq![a].push(method) =~= seq![a, method]);
    assert(seq![a, method].push(c) =~= seq![a, method, c]);
    assert(seq![a, method, c].push(step) =~= seq![a, method, c, step]);
    assert(seq![a, method, c, step].push("\n"@) =~= seq![a, method, c, step, "\n"@]);
}

/// How a set of keys, given in ascending order, is listed: each in quotes, with a comma and a blank
/// between them.
pub open spec fn listing(names: Seq<Seq<char>>) -> Seq<char> {
    Seq::new(
        names.len(),
        |i: int|
            (if i == 0 {
                ""@
            } else {
                ", "@
            }) + report::quoted_text(names[i]),
    ).flatten()
}

proof fn lemma_listing(names: Seq<Seq<char>>)
    ensures
        report::joined(names.map_values(|k: Seq<char>| report::quoted_text(k))) == listing(names),
    decreases names.len(),
{
    reveal_strlit("");
    let quote = |k: Seq<char>| report::quoted_text(k);
    let entries = Seq::new(
        names.len(),
        |i: int|
            (if i == 0 {
                ""@
            } else {
                ", "@
            }) + report::quoted_text(names[i]),
    );
    let all = names.map_values(quote);
    if names.len() == 0 {
        assert(entries =~= Seq::<Seq<char>>::empty());
        assert(report::joined(all) =~= entries.flatten());
    } else {
        let rest = names.drop_last();
        lemma_listing(rest);
        let earlier = Seq::new(
            rest.len(),
            |i: int|
                (if i == 0 {
                    ""@
                } else {
                    ", "@
                }) + report::quoted_text(rest[i]),
        );
        assert(entries =~= earlier.push(entries.last()));
        lemma_flatten_push(earlier, entries.last());
        assert(all.drop_last() =~= rest.map_values(quote));
        assert(all.last() == report::quoted_text(names.last()));
        if names.len() == 1 {
            assert(earlier =~= Seq::<Seq<char>>::empty());
            assert(earlier.flatten() =~= Seq::<char>::empty());
            assert(report::joined(all) =~= entries.flatten());
        } else {
            assert(report::joined(all) =~= entries.flatten());
        }
    }
}

/// A difference of keys names its kind, its method and its step on a line. After it comes a line
/// with all missing keys, in ascending order, exactly if there are any, and then, independently of
/// it, a line with all extra keys exactly if there are any.
pub proof fn law_key_difference_names_the_keys(
    step: Seq<char>,
    method: Seq<char>,
    kind: FrameKind,
    missing: Set<Seq<char>>,
    extra: Set<Seq<char>>,
    lost: Seq<Seq<char>>,
    added: Seq<Seq<char>>,
)
    requires
        text::ascending(lost),
        text::ascending(added),
        lost.to_set() == missing,
        added.to_set() == extra,
    ensures
        report::finding_text(FindingModel::KeyDifference { step, method, kind, missing, extra })
            == "key fingerprint diff for "@ + kind.label() + " "@ + method + " (step="@ + step
            + "):\n"@ + (if lost.len() > 0 {
            missing_label() + "{"@ + listing(lost) + "}"@ + "\n"@
        } else {
            seq![]
        }) + (if added.len() > 0 {
            extra_label() + "{"@ + listing(added) + "}"@ + "\n"@
        } else {
            seq![]
        }),
{
    text::lemma_sorted(lost);
    text::lemma_sorted(added);
    lemma_listing(lost);
    lemma_listing(added);
    lemma_no_members(lost);
    lemma_no_members(added);
    assert(report::keys_line(missing_label(), missing) =~= if lost.len() > 0 {
        missing_label() + "{"@ + listing(lost) + "}"@ + "\n"@
    } else {
        seq![]
    });
    assert(report::keys_line(extra_label(), extra) =~= if added.len() > 0 {
        extra_label() + "{"@ + listing(added) + "}"@ + "\n"@
    } else {
        seq![]
    });
}

proof fn lemma_no_members(names: Seq<Seq<char>>)
    ensures
        names.to_set() == Set::<Seq<char>>::empty() <==> names.len() == 0,
{
    if names.len() > 0 {
        assert(names.to_set().contains(names[0]));
    } else {
        assert(names.to_set() =~= Set::<Seq<char>>::empty());
    }
}

/// Whether a string is printable ASCII without quotes and backslashes.
pub open spec fn plain(s: Seq<char>) -> bool {
    forall|i: int|
        0 <= i < s.len() ==> ' ' <= #[trigger] s[i] <= '~' && s[i] != '"' && s[i] != '\'' && s[i]
            != '\\'
}

/// A plain string stands between quotes as it is.
pub proof fn law_plain_strings_stand_as_they_are(s: Seq<char>)
    requires
        plain(s),
    ensures
        report::quoted_text(s).len() == s.len() + 2,
        report::quoted_text(s)[0] == '"',
        report::quoted_text(s).last() == '"',
        forall|i: int| 0 <= i < s.len() ==> report::quoted_text(s)[i + 1] == #[trigger] s[i],
{
    reveal_strlit("\"");
    assert(report::unescaped(s)) by {
        assert forall|i: int| 0 <= i < s.len() implies {
            let c = #[trigger] s[i];
            ' ' <= c <= '~' && c != '"' && c != '\'' && c != '\\'
        } by {}
    }
}

/// Whether all strings of a list are plain.
pub open spec fn all_plain(names: Seq<Seq<char>>) -> bool {
    forall|i: int| 0 <= i < names.len() ==> plain(#[trigger] names[i])
}

/// How a list ends: with the last name in quotes, after a comma and a blank if there are more.
proof fn lemma_listing_end(names: Seq<Seq<char>>)
    requires
        names.len() > 0,
    ensures
        listing(names) == (if names.len() == 1 {
            seq![]
        } else {
            listing(names.drop_last()) + ", "@
        }) + report::quoted_text(names.last()),
{
    let quote = |k: Seq<char>| report::quoted_text(k);
    lemma_listing(names);
    lemma_listing(names.drop_last());
    let all = names.map_values(quote);
    assert(all.drop_last() =~= names.drop_last().map_values(quote));
    assert(all.last() == report::quoted_text(names.last()));
    assert(listing(names) =~= (if names.len() == 1 {
        seq![]
    } else {
        listing(names.drop_last()) + ", "@
    }) + report::quoted_text(names.last()));
}

/// A list of plain names can be told from its text.
proof fn lemma_listing_tells(a: Seq<Seq<char>>, b: Seq<Seq<char>>)
    requires
        all_plain(a),
        all_plain(b),
        listing(a) == listing(b),
    ensures
        a == b,
    decreases a.len(),
{
    reveal_strlit(", ");
    let empty = Seq::<Seq<char>>::empty();
    if a.len() == 0 || b.len() == 0 {
        lemma_listing(empty);
        assert(empty.map_values(|k: Seq<char>| report::quoted_text(k)) =~= Seq::<Seq<char>>::empty());
        assert(listing(empty).len() == 0);
        if a.len() > 0 {
            assert(b =~= empty);
            lemma_listing_end(a);
            assert(plain(a[a.len() - 1]));
            law_plain_strings_stand_as_they_are(a.last());
            assert(listing(a).len() >= 2);
        }
        if b.len() > 0 {
            assert(a =~= empty);
            lemma_listing_end(b);
            assert(plain(b[b.len() - 1]));
            law_plain_strings_stand_as_they_are(b.last());
            assert(listing(b).len() >= 2);
        }
        assert(a =~= b);
    } else {
        let (x, y) = (a.last(), b.last());
        let whole = listing(a);
        lemma_listing_end(a);
        lemma_listing_end(b);
        assert(plain(a[a.len() - 1]) && plain(b[b.len() - 1]));
        law_plain_strings_stand_as_they_are(x);
        law_plain_strings_stand_as_they_are(y);
        let head_a = if a.len() == 1 { seq![] } else { listing(a.drop_last()) + ", "@ };
        let head_b = if b.len() == 1 { seq![] } else { listing(b.drop_last()) + ", "@ };
        assert(whole == head_a + report::quoted_text(x));
        assert(whole == head_b + report::quoted_text(y));
        let n = whole.len();
        if x.len() < y.len() {
            let at = n - 2 - x.len();
            assert(whole[at] == '"');
            let k = at - head_b.len() - 1;
            assert(report::quoted_text(y)[k + 1] == y[k]);
            assert(whole[at] == y[k]);
            assert(false);
        }
        if y.len() < x.len() {
            let at = n - 2 - y.len();
            assert(whole[at] == '"');
            let k = at - head_a.len() - 1;
            assert(report::quoted_text(x)[k + 1] == x[k]);
            assert(whole[at] == x[k]);
            assert(false);
        }
        assert(head_a.len() == head_b.len());
        assert forall|i: int| 0 <= i < x.len() implies x[i] == y[i] by {
            assert(report::quoted_text(x)[i + 1] == x[i]);
            assert(report::quoted_text(y)[i + 1] == y[i]);
            assert(whole[head_a.len() + i + 1] == x[i]);
        }
        assert(x =~= y);
        assert(head_a =~= whole.take(head_a.len() as int));
        assert(head_b =~= whole.take(head_b.len() as int));
        let (p, q) = (a.drop_last(), b.drop_last());
        assert forall|i: int| 0 <= i < p.len() implies plain(#[trigger] p[i]) by {
            assert(plain(a[i]));
        }
        assert forall|i: int| 0 <= i < q.len() implies plain(#[trigger] q[i]) by {
            assert(plain(b[i]));
        }
        if a.len() == 1 || b.len() == 1 {
            assert(a.len() == 1 && b.len() == 1);
        } else {
            assert(listing(p) =~= head_a.take(head_a.len() - 2));
            assert(listing(q) =~= head_b.take(head_b.len() - 2));
            lemma_listing_tells(p, q);
        }
        assert(p =~= q);
        assert(a =~= p.push(x));
        assert(b =~= q.push(y));
    }
}

/// A list of plain names holds no line break.
proof fn lemma_listing_is_flat(names: Seq<Seq<char>>)
    requires
        all_plain(names),
    ensures
        forall|i: int| 0 <= i < listing(names).len() ==> #[trigger] listing(names)[i] != '\n',
    decreases names.len(),
{
    reveal_strlit(", ");
    if names.len() == 0 {
        lemma_listing(names);
        assert(names.map_values(|k: Seq<char>| report::quoted_text(k)) =~= Seq::<Seq<char>>::empty());
    } else {
        lemma_listing_end(names);
        let rest = names.drop_last();
        assert forall|i: int| 0 <= i < rest.len() implies plain(#[trigger] rest[i]) by {
            assert(plain(names[i]));
        }
        lemma_listing_is_flat(rest);
        let last = names.last();
        assert(plain(names[names.len() - 1]));
        law_plain_strings_stand_as_they_are(last);
        let quoted = report::quoted_text(last);
        assert forall|i: int| 0 <= i < quoted.len() implies #[trigger] quoted[i] != '\n' by {
            if 0 < i < quoted.len() - 1 {
                assert(quoted[i - 1 + 1] == last[i - 1]);
            }
        }
    }
}

/// Where two texts are the same up to a line break that neither has before it, they are the same
/// before it and after it.
proof fn lemma_same_lines(a: Seq<char>, x: Seq<char>, b: Seq<char>, y: Seq<char>)
    requires
        forall|i: int| 0 <= i < a.len() ==> #[trigger] a[i] != '\n',
        forall|i: int| 0 <= i < b.len() ==> #[trigger] b[i] != '\n',
        a + "\n"@ + x == b + "\n"@ + y,
    ensures
        a == b,
        x == y,
{
    reveal_strlit("\n");
    let whole = a + "\n"@ + x;
    assert(whole[a.len() as int] == '\n');
    assert(whole == b + "\n"@ + y);
    assert((b + "\n"@ + y)[b.len() as int] == '\n');
    if a.len() < b.len() {
        assert(whole[a.len() as int] == b[a.len() as int]);
    }
    if b.len() < a.len() {
        assert(whole[b.len() as int] == a[b.len() as int]);
    }
    assert(a =~= whole.take(a.len() as int));
    assert(b =~= whole.take(b.len() as int));
    assert(x =~= whole.skip((a.len() + 1) as int));
    assert(y =~= whole.skip((b.len() + 1) as int));
}

/// A line of keys, or nothing.
spec fn line(label: Seq<char>, names: Seq<Seq<char>>) -> Seq<char> {
    if names.len() > 0 {
        label + "{"@ + listing(names) + "}"@ + "\n"@
    } else {
        seq![]
    }
}

/// What follows a line of keys tells the keys and what follows them.
proof fn lemma_line_tells(
    label: Seq<char>,
    a: Seq<Seq<char>>,
    x: Seq<char>,
    b: Seq<Seq<char>>,
    y: Seq<char>,
)
    requires
        all_plain(a),
        all_plain(b),
        a.len() > 0,
        b.len() > 0,
        forall|i: int| 0 <= i < label.len() ==> #[trigger] label[i] != '\n',
        line(label, a) + x == line(label, b) + y,
    ensures
        a == b,
        x == y,
{
    reveal_strlit("{");
    reveal_strlit("}");
    lemma_listing_is_flat(a);
    lemma_listing_is_flat(b);
    let (p, q) = (label + "{"@ + listing(a) + "}"@, label + "{"@ + listing(b) + "}"@);
    assert forall|i: int| 0 <= i < p.len() implies #[trigger] p[i] != '\n' by {
        let k = i - label.len() - 1;
        if 0 <= k < listing(a).len() {
            assert(p[i] == listing(a)[k]);
        }
    }
    assert forall|i: int| 0 <= i < q.len() implies #[trigger] q[i] != '\n' by {
        let k = i - label.len() - 1;
        if 0 <= k < listing(b).len() {
            assert(q[i] == listing(b)[k]);
        }
    }
    lemma_same_lines(p, x, q, y);
    let n = label.len() + 1;
    assert(listing(a) =~= p.subrange(n as int, p.len() - 1));
    assert(listing(b) =~= q.subrange(n as int, q.len() - 1));
    lemma_listing_tells(a, b);
}

/// Two differences of plain keys of one method read the same only if they are the same: no key is
/// lost in the text.
pub proof fn law_different_keys_read_differently(
    step: Seq<char>,
    method: Seq<char>,
    kind: FrameKind,
    missing: Set<Seq<char>>,
    extra: Set<Seq<char>>,
    other_missing: Set<Seq<char>>,
    other_extra: Set<Seq<char>>,
)
    requires
        missing.finite(),
        extra.finite(),
        other_missing.finite(),
        other_extra.finite(),
        forall|k: Seq<char>| #[trigger] missing.contains(k) ==> plain(k),
        forall|k: Seq<char>| #[trigger] extra.contains(k) ==> plain(k),
        forall|k: Seq<char>| #[trigger] other_missing.contains(k) ==> plain(k),
        forall|k: Seq<char>| #[trigger] other_extra.contains(k) ==> plain(k),
        report::finding_text(FindingModel::KeyDifference { step, method, kind, missing, extra })
            == report::finding_text(
            FindingModel::KeyDifference {
                step,
                method,
                kind,
                missing: other_missing,
                extra: other_extra,
            },
        ),
    ensures
        missing == other_missing,
        extra == other_extra,
{
    text::lemma_sorted_lists(missing);
    text::lemma_sorted_lists(extra);
    text::lemma_sorted_lists(other_missing);
    text::lemma_sorted_lists(other_extra);
    let (m1, e1) = (text::sorted(missing), text::sorted(extra));
    let (m2, e2) = (text::sorted(other_missing), text::sorted(other_extra));
    lemma_members_plain(m1);
    lemma_members_plain(e1);
    lemma_members_plain(m2);
    lemma_members_plain(e2);
    law_key_difference_names_the_keys(step, method, kind, missing, extra, m1, e1);
    law_key_difference_names_the_keys(step, method, kind, other_missing, other_extra, m2, e2);
    let head = "key fingerprint diff for "@ + kind.label() + " "@ + method + " (step="@ + step
        + "):\n"@;
    lemma_tails(
        head,
        line(missing_label(), m1),
        line(extra_label(), e1),
        line(missing_label(), m2),
        line(extra_label(), e2),
    );
    lemma_lines_tell(m1, e1, m2, e2);
}

/// Two texts with the same beginning are the same after it.
proof fn lemma_tails(
    head: Seq<char>,
    a: Seq<char>,
    b: Seq<char>,
    c: Seq<char>,
    d: Seq<char>,
)
    requires
        head + a + b == head + c + d,
    ensures
        a + b == c + d,
{
    let all = head + a + b;
    assert(a + b =~= all.skip(head.len() as int));
    assert(c + d =~= (head + c + d).skip(head.len() as int));
}

/// The lines of missing and of extra keys tell the keys.
proof fn lemma_lines_tell(
    m1: Seq<Seq<char>>,
    e1: Seq<Seq<char>>,
    m2: Seq<Seq<char>>,
    e2: Seq<Seq<char>>,
)
    requires
        all_plain(m1),
        all_plain(e1),
        all_plain(m2),
        all_plain(e2),
        line(missing_label(), m1) + line(extra_label(), e1) == line(missing_label(), m2) + line(
            extra_label(),
            e2,
        ),
    ensures
        m1 == m2,
        e1 == e2,
{
    let (ml, el) = (missing_label(), extra_label());
    reveal_strlit("      missing on target: ");
    reveal_strlit("      extra on target:   ");
    let none = Seq::<char>::empty();
    let (s, t) = (line(ml, m1) + line(el, e1), line(ml, m2) + line(el, e2));
    if m1.len() > 0 && m2.len() > 0 {
        lemma_line_tells(ml, m1, line(el, e1), m2, line(el, e2));
    } else if m1.len() > 0 {
        assert(s[6] == 'm');
        assert(t =~= line(el, e2));
        assert(t.len() > 6 ==> t[6] == 'e');
        assert(false);
    } else if m2.len() > 0 {
        assert(t[6] == 'm');
        assert(s =~= line(el, e1));
        assert(s.len() > 6 ==> s[6] == 'e');
        assert(false);
    } else {
        assert(m1 =~= m2);
        assert(s =~= line(el, e1));
        assert(t =~= line(el, e2));
    }
    assert(line(el, e1) + none =~= line(el, e1));
    assert(line(el, e2) + none =~= line(el, e2));
    if e1.len() > 0 && e2.len() > 0 {
        lemma_line_tells(el, e1, none, e2, none);
    } else {
        assert(e1.len() == 0 && e2.len() == 0);
        assert(e1 =~= e2);
    }
}

proof fn lemma_members_plain(names: Seq<Seq<char>>)
    requires
        forall|k: Seq<char>| #[trigger] names.to_set().contains(k) ==> plain(k),
    ensures
        all_plain(names),
{
    assert forall|i: int| 0 <= i < names.len() implies plain(#[trigger] names[i]) by {
        assert(names.to_set().contains(names[i]));
    }
}

} // verus!
