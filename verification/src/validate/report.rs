//! The verdict on a validation run and the lines that report it.

use crate::diagnostics::{Diagnostics, Issues};
use crate::error::CanonError;
use crate::text::{decimal, push_decimal};
use vstd::prelude::*;
use vstd::string::*;

verus! {

/// Whether a document passed.
#[derive(Debug, Clone, Copy, PartialEq, Eq, Structural)]
pub enum Verdict {
    Pass,
    Fail,
}

/// The verdict on a run: any error fails it; warnings fail it in strict
/// mode only.
pub open spec fn verdict_of(issues: Issues, strict: bool) -> Verdict {
    if issues.errors.len() > 0 || (strict && issues.warnings.len() > 0) {
        Verdict::Fail
    } else {
        Verdict::Pass
    }
}

/// The text of the failure of a run: how many errors and warnings.
pub open spec fn failure_text(issues: Issues) -> Seq<char> {
    decimal(issues.errors.len()) + " errors, "@ + decimal(issues.warnings.len()) + " warnings"@
}

/// The heading of a list of findings: a mark, how many, and their kind.
pub open spec fn heading(mark: Seq<char>, count: nat, kind: Seq<char>) -> Seq<char> {
    mark + " "@ + decimal(count) + " "@ + kind + " found:"@
}

/// One finding in a list: indented, behind the mark of the list.
pub open spec fn listed(mark: Seq<char>, text: Seq<char>) -> Seq<char> {
    "  "@ + mark + " "@ + text
}

/// A list of findings: nothing where there is none; otherwise the
/// heading, one line for each finding in order, and an empty line.
pub open spec fn section(mark: Seq<char>, kind: Seq<char>, texts: Seq<Seq<char>>) -> Seq<Seq<char>> {
    if texts.len() == 0 {
        Seq::empty()
    } else {
        seq![heading(mark, texts.len(), kind)] + Seq::new(
            texts.len(),
            |i: int| listed(mark, texts[i]),
        ) + seq![Seq::<char>::empty()]
    }
}

/// The findings of a run as lines: the errors, then the warnings. The
/// mode of the run plays no part in them.
pub open spec fn findings_text(issues: Issues) -> Seq<Seq<char>> {
    section("✗"@, "errors"@, issues.errors) + section("⚠"@, "warnings"@, issues.warnings)
}

/// The last line of a report with findings.
pub open spec fn summary_text(issues: Issues, strict: bool) -> Seq<char> {
    if verdict_of(issues, strict) == Verdict::Fail {
        "✗ Validation failed"@
    } else {
        "⚠ Validation passed with warnings"@
    }
}

/// The report of a run on the document at `path`: for a run without
/// findings that the document is valid; otherwise the findings and the
/// summary.
pub open spec fn report_text(path: Seq<char>, issues: Issues, strict: bool) -> Seq<Seq<char>> {
    if issues.errors.len() + issues.warnings.len() == 0 {
        seq!["✓ Specification is valid"@, Seq::<char>::empty(), "  ✓ "@ + path]
    } else {
        findings_text(issues).push(summary_text(issues, strict))
    }
}

/// The verdict on a run.
pub fn verdict(found: &Diagnostics, strict: bool) -> (v: Verdict)
    ensures
        v == verdict_of(found@, strict),
{
    if found.errors.len() > 0 || (strict && found.warnings.len() > 0) {
        Verdict::Fail
    } else {
        Verdict::Pass
    }
}

/// Appends one line to `lines`.
pub fn push_line(lines: &mut Vec<String>, line: String)
    ensures
        final(lines).deep_view() == old(lines).deep_view().push(line@),
{
    lines.push(line);
    assert(lines.deep_view() =~= old(lines).deep_view().push(line@));
}

/// Appends a list of findings to `lines`.
pub fn push_section(lines: &mut Vec<String>, mark: &str, kind: &str, texts: &Vec<String>)
    ensures
        final(lines).deep_view() == old(lines).deep_view() + section(
            mark@,
            kind@,
            texts.deep_view(),
        ),
{
    if texts.len() == 0 {
        assert(texts.deep_view() =~= Seq::empty());
        assert(lines.deep_view() + Seq::<Seq<char>>::empty() =~= lines.deep_view());
        return ;
    }
    let ghost start = lines.deep_view();
    let ghost items = texts.deep_view();
    let mut head = String::from_str(mark);
    head.append(" ");
    push_decimal(&mut head, texts.len() as u64);
    head.append(" ");
    head.append(kind);
    head.append(" found:");
    push_line(lines, head);
    assert(lines.deep_view() =~= start + seq![heading(mark@, texts@.len() as nat, kind@)]
        + Seq::new(0, |k: int| listed(mark@, items[k])));
    let mut i: usize = 0;
    while i < texts.len()
        invariant
            i <= texts@.len(),
            items == texts.deep_view(),
            lines.deep_view() == start + seq![heading(mark@, texts@.len() as nat, kind@)]
                + Seq::new(i as nat, |k: int| listed(mark@, items[k])),
        decreases texts@.len() - i,
    {
        let mut line = String::from_str("  ");
        line.append(mark);
        line.append(" ");
        line.append(texts[i].as_str());
        assert(line@ == listed(mark@, items[i as int]));
        push_line(lines, line);
        assert(Seq::new((i + 1) as nat, |k: int| listed(mark@, items[k])) =~= Seq::new(
            i as nat,
            |k: int| listed(mark@, items[k]),
        ).push(listed(mark@, items[i as int])));
        assert(lines.deep_view() =~= start + seq![heading(mark@, texts@.len() as nat, kind@)]
            + Seq::new((i + 1) as nat, |k: int| listed(mark@, items[k])));
        i += 1;
    }
    push_line(lines, String::new());
    assert(lines.deep_view() =~= start + section(mark@, kind@, items));
}

/// The report of a run on the document at `path`, line by line.
pub fn report_lines(path: &str, found: &Diagnostics, strict: bool) -> (lines: Vec<String>)
    ensures
        lines.deep_view() == report_text(path@, found@, strict),
{
    let mut lines: Vec<String> = Vec::new();
    if found.errors.len() == 0 && found.warnings.len() == 0 {
        assert(lines.deep_view() =~= Seq::empty());
        push_line(&mut lines, String::from_str("✓ Specification is valid"));
        push_line(&mut lines, String::new());
        let mut last = String::from_str("  ✓ ");
        last.append(path);
        push_line(&mut lines, last);
        assert(lines.deep_view() =~= report_text(path@, found@, strict));
        return lines;
    }
    assert(lines.deep_view() =~= Seq::empty());
    push_section(&mut lines, "✗", "errors", &found.errors);
    push_section(&mut lines, "⚠", "warnings", &found.warnings);
    let summary = match verdict(found, strict) {
        Verdict::Fail => "✗ Validation failed",
        Verdict::Pass => "⚠ Validation passed with warnings",
    };
    push_line(&mut lines, String::from_str(summary));
    assert(lines.deep_view() =~= report_text(path@, found@, strict));
    lines
}

/// How a run ends: well where the verdict is `Pass`, and otherwise with a
/// validation error that says how many errors and warnings were found.
pub fn report_validation_results(found: &Diagnostics, strict: bool) -> (r: Result<(), CanonError>)
    ensures
        r is Ok <==> verdict_of(found@, strict) == Verdict::Pass,
        r matches Err(e) ==> e matches CanonError::ValidationError { message } && message@
            == failure_text(found@),
{
    match verdict(found, strict) {
        Verdict::Pass => Ok(()),
        Verdict::Fail => {
            let mut message = String::new();
            push_decimal(&mut message, found.errors.len() as u64);
            message.append(" errors, ");
            push_decimal(&mut message, found.warnings.len() as u64);
            message.append(" warnings");
            assert(message@ =~= failure_text(found@));
            Err(CanonError::ValidationError { message })
        },
    }
}

/// A run without errors and with a warning passes outside strict mode and
/// fails in strict mode, and the findings are reported line for line the
/// same in both modes.
pub proof fn lemma_strict_promotion(path: Seq<char>, issues: Issues)
    requires
        issues.errors.len() == 0,
        issues.warnings.len() > 0,
    ensures
        verdict_of(issues, false) == Verdict::Pass,
        verdict_of(issues, true) == Verdict::Fail,
        report_text(path, issues, true).drop_last() == report_text(path, issues, false).drop_last(),
        report_text(path, issues, true).drop_last() == findings_text(issues),
{
    assert(findings_text(issues).push(summary_text(issues, true)).drop_last() =~= findings_text(
        issues,
    ));
    assert(findings_text(issues).push(summary_text(issues, false)).drop_last() =~= findings_text(
        issues,
    ));
}

/// An error fails a run in either mode.
pub proof fn lemma_errors_fail(issues: Issues, strict: bool)
    requires
        issues.errors.len() > 0,
    ensures
        verdict_of(issues, strict) == Verdict::Fail,
{
}

/// A run without findings passes in either mode.
pub proof fn lemma_clean_run_passes(strict: bool)
    ensures
        verdict_of(Issues::none(), strict) == Verdict::Pass,
{
}

} // verus!
