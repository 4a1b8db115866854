//! Rendering a report for a human.
//!
//! The JSON form is the machine contract. This is the form a partner reads
//! before submitting, and the form that pastes usefully into an approval
//! ticket. Every section is specified as the text it consists of.
use vstd::prelude::*;

use crate::answers::{answered_views, AnsweredQuestion, AnsweredView};
use crate::evidence::{basis_label_text, evidence_views, Basis, Evidence, EvidenceView};
use crate::flags::{flag_views, Flag, FlagView};
use crate::listing::{field_views, value_display, ListingFieldView};
use crate::questionnaire::{answer_display, category_title, Category, ReviewSignal};
use crate::report::{percent_display, percent_text, ApprovalTemplate, Coverage};
use crate::text::{decimal, decimal_string, escape_pipes, escape_pipes_spec, owned};

verus! {

broadcast use vstd::string::group_string_axioms;

// ---------------------------------------------------------------------------
// The text of each part
// ---------------------------------------------------------------------------

/// One bullet per piece of evidence: `` - `pointer` = `value` ``.
pub open spec fn evidence_lines(ev: Seq<EvidenceView>) -> Seq<char>
    decreases ev.len(),
{
    if ev.len() == 0 {
        Seq::empty()
    } else {
        evidence_lines(ev.drop_last()) + "- `"@ + ev.last().pointer + "` = `"@ + ev.last().value
            + "`\n"@
    }
}

/// How a flag's severity is labelled.
pub open spec fn severity_text(s: ReviewSignal) -> Seq<char> {
    match s {
        ReviewSignal::Fail => "BLOCKING"@,
        ReviewSignal::Warning => "warning"@,
        ReviewSignal::Info => "info"@,
    }
}

/// A flag: its heading, its detail, and its evidence when it has any.
pub open spec fn flag_block(f: FlagView) -> Seq<char> {
    "### ["@ + severity_text(f.severity) + "] "@ + f.title + "\n\n"@ + f.detail + "\n\n"@ + if f.evidence.len()
        == 0 {
        Seq::empty()
    } else {
        "Evidence:\n\n"@ + evidence_lines(f.evidence) + "\n"@
    }
}

/// The flags, one after another.
pub open spec fn flag_blocks(flags: Seq<FlagView>) -> Seq<char>
    decreases flags.len(),
{
    if flags.len() == 0 {
        Seq::empty()
    } else {
        flag_blocks(flags.drop_last()) + flag_block(flags.last())
    }
}

/// The section listing what to fix before submitting.
pub open spec fn before_you_submit_text(flags: Seq<FlagView>) -> Seq<char> {
    "## Before you submit\n\n"@ + if flags.len() == 0 {
        "No pre-submission issues found in the manifest.\n\n"@
    } else {
        flag_blocks(flags)
    }
}

/// A row of the coverage table.
pub open spec fn count_row(label: Seq<char>, n: usize) -> Seq<char> {
    "| "@ + label + " | "@ + decimal(n as nat) + " |\n"@
}

/// The coverage section: the table of dispositions and the share resolved.
pub open spec fn coverage_text(c: Coverage) -> Seq<char> {
    "## Coverage\n\n"@ + "| Disposition | Prompts |\n"@ + "|---|---|\n"@ + count_row(
        "Read from the manifest"@,
        c.deterministic,
    ) + count_row("Inferred from the manifest"@, c.heuristic) + count_row(
        "Not applicable (ruled out by a parent answer)"@,
        c.not_applicable,
    ) + count_row("Needs code review"@, c.requires_code_review) + count_row(
        "Needs your input"@,
        c.requires_partner_input,
    ) + "| **Total prompts** | **"@ + decimal(c.total_prompts as nat) + "** |\n"@ + "\n**"@
        + percent_display(c.percent_resolved_tenths as nat) + "% resolved** ("@ + decimal(
        c.resolved as nat,
    ) + " of "@ + decimal(c.total_prompts as nat) + " prompts). "@ + decimal(
        c.blocking_signals_tripped as nat,
    ) + " blocking and "@ + decimal(c.warning_signals_tripped as nat)
        + " warning signal(s) tripped by the pre-filled answers.\n\n"@
}

/// The rows of the fields that carry a value.
pub open spec fn listing_rows(fields: Seq<ListingFieldView>) -> Seq<char>
    decreases fields.len(),
{
    if fields.len() == 0 {
        Seq::empty()
    } else {
        let f = fields.last();
        listing_rows(fields.drop_last()) + match f.value {
            Some(v) => "| "@ + f.name + " | "@ + escape_pipes_spec(value_display(v)) + " | "@
                + basis_label_text(f.basis) + " |\n"@,
            None => Seq::empty(),
        }
    }
}

/// The rows of the fields the partner must still supply.
pub open spec fn outstanding_rows(fields: Seq<ListingFieldView>) -> Seq<char>
    decreases fields.len(),
{
    if fields.len() == 0 {
        Seq::empty()
    } else {
        let f = fields.last();
        outstanding_rows(fields.drop_last()) + if f.value is None {
            "| "@ + f.name + " | "@ + escape_pipes_spec(
                match f.required_by {
                    Some(r) => r,
                    None => Seq::empty(),
                },
            ) + " |\n"@
        } else {
            Seq::empty()
        }
    }
}

/// Some field is still to be supplied by the partner.
pub open spec fn any_outstanding(fields: Seq<ListingFieldView>) -> bool {
    exists|i: int| 0 <= i < fields.len() && (#[trigger] fields[i]).value is None
}

/// The listing section: the fields that were filled in, then those still
/// needed.
pub open spec fn listing_text(fields: Seq<ListingFieldView>) -> Seq<char> {
    "## Listing details\n\n"@ + "| Field | Value | Source |\n"@ + "|---|---|---|\n"@ + listing_rows(
        fields,
    ) + if any_outstanding(fields) {
        "\n### Still needed from you\n\n"@ + "| Field | Required because |\n"@ + "|---|---|\n"@
            + outstanding_rows(fields) + "\n"@
    } else {
        Seq::empty()
    }
}

/// The answer cell: the answer, marked when the partner must confirm it.
pub open spec fn answer_cell_text(a: AnsweredView) -> Seq<char> {
    answer_display(a.answer) + if a.confirm_before_submitting && !(a.answer is Unknown) {
        " (confirm)"@
    } else {
        Seq::empty()
    }
}

/// The signal cell: the severity an answer trips, or a dash.
pub open spec fn signal_cell_text(a: AnsweredView) -> Seq<char> {
    if !a.trips_signal {
        "—"@
    } else {
        match a.signal {
            ReviewSignal::Fail => "BLOCKING"@,
            ReviewSignal::Warning => "warning"@,
            ReviewSignal::Info => "—"@,
        }
    }
}

/// The row of one question.
pub open spec fn question_row(a: AnsweredView) -> Seq<char> {
    "| "@ + a.id + " | "@ + escape_pipes_spec(a.prompt) + " | "@ + answer_cell_text(a) + " | "@
        + basis_label_text(a.basis) + " | "@ + signal_cell_text(a) + " |\n"@
}

/// The rows of the questions in category `c`.
pub open spec fn question_rows(qs: Seq<AnsweredView>, c: Category) -> Seq<char>
    decreases qs.len(),
{
    if qs.len() == 0 {
        Seq::empty()
    } else {
        question_rows(qs.drop_last(), c) + if qs.last().category == c {
            question_row(qs.last())
        } else {
            Seq::empty()
        }
    }
}

/// The evidence for one answer, with its rationale when it has one.
pub open spec fn evidence_block(a: AnsweredView) -> Seq<char> {
    "**Evidence for "@ + a.id + "**\n\n"@ + evidence_lines(a.evidence) + match a.rationale {
        Some(r) => "\n"@ + r + "\n"@,
        None => Seq::empty(),
    } + "\n"@
}

/// The evidence blocks of the answers in category `c` that cite any.
pub open spec fn evidence_blocks(qs: Seq<AnsweredView>, c: Category) -> Seq<char>
    decreases qs.len(),
{
    if qs.len() == 0 {
        Seq::empty()
    } else {
        evidence_blocks(qs.drop_last(), c) + if qs.last().category == c && qs.last().evidence.len()
            != 0 {
            evidence_block(qs.last())
        } else {
            Seq::empty()
        }
    }
}

/// Some question is in category `c`.
pub open spec fn in_category(qs: Seq<AnsweredView>, c: Category) -> bool {
    exists|i: int| 0 <= i < qs.len() && (#[trigger] qs[i]).category == c
}

/// A category's heading, table and evidence; nothing for an empty category.
pub open spec fn category_text(qs: Seq<AnsweredView>, c: Category) -> Seq<char> {
    if in_category(qs, c) {
        "### "@ + category_title(c) + "\n\n"@ + "| # | Question | Answer | Source | Signal |\n"@
            + "|---|---|---|---|---|\n"@ + question_rows(qs, c) + "\n"@ + evidence_blocks(qs, c)
    } else {
        Seq::empty()
    }
}

/// The categories in published order.
pub open spec fn category_order() -> Seq<Category> {
    seq![
        Category::AuthenticationAndAuthorization,
        Category::DataSecurity,
        Category::ApplicationSecurity,
        Category::SecretsManagement,
        Category::VulnerabilityManagement,
    ]
}

/// The categories' texts, one after another.
pub open spec fn categories_text(qs: Seq<AnsweredView>, cats: Seq<Category>) -> Seq<char>
    decreases cats.len(),
{
    if cats.len() == 0 {
        Seq::empty()
    } else {
        categories_text(qs, cats.drop_last()) + category_text(qs, cats.last())
    }
}

/// The questionnaire section, category by category in published order.
pub open spec fn questionnaire_text(qs: Seq<AnsweredView>) -> Seq<char> {
    "## Security questionnaire\n\n"@ + categories_text(qs, category_order())
}

/// The whole report as Markdown.
pub open spec fn markdown_text(t: ApprovalTemplate) -> Seq<char> {
    "# Marketplace app approval — pre-filled submission\n\n"@ + "Generated from `"@
        + t.manifest_path@ + "`. Questionnaire transcribed from "@ + t.questionnaire_source@
        + ".\n\n"@ + "> "@ + t.attestation@ + "\n\n"@ + before_you_submit_text(flag_views(t.flags@))
        + coverage_text(t.coverage) + listing_text(field_views(t.listing@)) + questionnaire_text(
        answered_views(t.questionnaire@),
    )
}

// ---------------------------------------------------------------------------
// Writing each part
// ---------------------------------------------------------------------------

/// Append one bullet per piece of evidence.
fn write_evidence(out: &mut String, evidence: &Vec<Evidence>)
    ensures
        final(out)@ == old(out)@ + evidence_lines(evidence_views(evidence@)),
{
    let ghost ev = evidence_views(evidence@);
    let mut i: usize = 0;
    while i < evidence.len()
        invariant
            i <= evidence.len(),
            ev == evidence_views(evidence@),
            out@ == old(out)@ + evidence_lines(ev.take(i as int)),
        decreases evidence.len() - i,
    {
        proof {
            assert(ev.take(i + 1).drop_last() =~= ev.take(i as int));
        }
        let ghost before = out@;
        out.append("- `");
        out.append(evidence[i].pointer.as_str());
        out.append("` = `");
        out.append(evidence[i].value.as_str());
        out.append("`\n");
        proof {
            assert(out@ =~= old(out)@ + evidence_lines(ev.take(i + 1)));
        }
        i = i + 1;
    }
    proof {
        assert(ev.take(evidence.len() as int) =~= ev);
    }
}

/// How a flag's severity is labelled.
fn severity_label(signal: ReviewSignal) -> (r: &'static str)
    ensures
        r@ == severity_text(signal),
{
    match signal {
        ReviewSignal::Fail => "BLOCKING",
        ReviewSignal::Warning => "warning",
        ReviewSignal::Info => "info",
    }
}

/// Append one flag.
fn write_flag(out: &mut String, flag: &Flag)
    ensures
        final(out)@ == old(out)@ + flag_block(flag@),
{
    out.append("### [");
    out.append(severity_label(flag.severity));
    out.append("] ");
    out.append(flag.title);
    out.append("\n\n");
    out.append(flag.detail.as_str());
    out.append("\n\n");
    let ghost head = out@;
    if flag.evidence.len() != 0 {
        out.append("Evidence:\n\n");
        write_evidence(out, &flag.evidence);
        out.append("\n");
    }
    proof {
        assert(out@ =~= old(out)@ + flag_block(flag@));
    }
}

/// Append the section listing what to fix before submitting.
fn before_you_submit(out: &mut String, template: &ApprovalTemplate)
    ensures
        final(out)@ == old(out)@ + before_you_submit_text(flag_views(template.flags@)),
{
    let ghost fs = flag_views(template.flags@);
    out.append("## Before you submit\n\n");
    if template.flags.len() == 0 {
        out.append("No pre-submission issues found in the manifest.\n\n");
        proof {
            assert(out@ =~= old(out)@ + before_you_submit_text(fs));
        }
        return;
    }
    let ghost start = out@;
    let mut i: usize = 0;
    while i < template.flags.len()
        invariant
            i <= template.flags.len(),
            fs == flag_views(template.flags@),
            out@ == start + flag_blocks(fs.take(i as int)),
        decreases template.flags.len() - i,
    {
        proof {
            assert(fs.take(i + 1).drop_last() =~= fs.take(i as int));
        }
        write_flag(out, &template.flags[i]);
        proof {
            assert(out@ =~= start + flag_blocks(fs.take(i + 1)));
        }
        i = i + 1;
    }
    proof {
        assert(fs.take(template.flags.len() as int) =~= fs);
        assert(out@ =~= old(out)@ + before_you_submit_text(fs));
    }
}

/// Append a row of the coverage table.
fn write_count_row(out: &mut String, label: &str, n: usize)
    ensures
        final(out)@ == old(out)@ + count_row(label@, n),
{
    out.append("| ");
    out.append(label);
    out.append(" | ");
    let digits = decimal_string(n);
    out.append(digits.as_str());
    out.append(" |\n");
    proof {
        assert(out@ =~= old(out)@ + count_row(label@, n));
    }
}

/// Append a number.
fn write_number(out: &mut String, n: usize)
    ensures
        final(out)@ == old(out)@ + decimal(n as nat),
{
    let digits = decimal_string(n);
    out.append(digits.as_str());
}

/// Append the coverage section.
#[verifier::spinoff_prover]
#[verifier::rlimit(40)]
fn coverage(out: &mut String, template: &ApprovalTemplate)
    ensures
        final(out)@ == old(out)@ + coverage_text(template.coverage),
{
    let c = template.coverage;
    out.append("## Coverage\n\n");
    out.append("| Disposition | Prompts |\n");
    out.append("|---|---|\n");
    write_count_row(out, "Read from the manifest", c.deterministic);
    write_count_row(out, "Inferred from the manifest", c.heuristic);
    write_count_row(out, "Not applicable (ruled out by a parent answer)", c.not_applicable);
    write_count_row(out, "Needs code review", c.requires_code_review);
    write_count_row(out, "Needs your input", c.requires_partner_input);
    out.append("| **Total prompts** | **");
    write_number(out, c.total_prompts);
    out.append("** |\n");
    out.append("\n**");
    let percent = percent_text(c.percent_resolved_tenths);
    out.append(percent.as_str());
    out.append("% resolved** (");
    write_number(out, c.resolved);
    out.append(" of ");
    write_number(out, c.total_prompts);
    out.append(" prompts). ");
    write_number(out, c.blocking_signals_tripped);
    out.append(" blocking and ");
    write_number(out, c.warning_signals_tripped);
    out.append(" warning signal(s) tripped by the pre-filled answers.\n\n");
    proof {
        assert(out@ =~= old(out)@ + coverage_text(template.coverage));
    }
}

/// Append the listing section.
fn listing(out: &mut String, template: &ApprovalTemplate)
    ensures
        final(out)@ == old(out)@ + listing_text(field_views(template.listing@)),
{
    let ghost fs = field_views(template.listing@);
    out.append("## Listing details\n\n");
    out.append("| Field | Value | Source |\n");
    out.append("|---|---|---|\n");
    let ghost start = out@;
    let mut any = false;
    let mut i: usize = 0;
    while i < template.listing.len()
        invariant
            i <= template.listing.len(),
            fs == field_views(template.listing@),
            out@ == start + listing_rows(fs.take(i as int)),
            any == any_outstanding(fs.take(i as int)),
        decreases template.listing.len() - i,
    {
        proof {
            assert(fs.take(i + 1).drop_last() =~= fs.take(i as int));
        }
        let field = &template.listing[i];
        match &field.value {
            Some(value) => {
                out.append("| ");
                out.append(field.name);
                out.append(" | ");
                let shown = value.as_display();
                let escaped = escape_pipes(shown.as_str());
                out.append(escaped.as_str());
                out.append(" | ");
                out.append(field.basis.label());
                out.append(" |\n");
            },
            None => {
                any = true;
            },
        }
        proof {
            assert(out@ =~= start + listing_rows(fs.take(i + 1)));
            let next = fs.take(i + 1);
            if any_outstanding(fs.take(i as int)) {
                let k = choose|k: int| 0 <= k < i && (#[trigger] fs.take(i as int)[k]).value is None;
                assert(next[k] == fs.take(i as int)[k]);
            }
            if fs[i as int].value is None {
                assert(next[i as int] == fs[i as int]);
            }
            if any_outstanding(next) {
                let k = choose|k: int| 0 <= k < i + 1 && (#[trigger] next[k]).value is None;
                if k < i {
                    assert(fs.take(i as int)[k] == next[k]);
                }
            }
        }
        i = i + 1;
    }
    proof {
        assert(fs.take(template.listing.len() as int) =~= fs);
    }
    let ghost middle = out@;
    if any {
        out.append("\n### Still needed from you\n\n");
        out.append("| Field | Required because |\n");
        out.append("|---|---|\n");
        let ghost rows_start = out@;
        let mut j: usize = 0;
        while j < template.listing.len()
            invariant
                j <= template.listing.len(),
                fs == field_views(template.listing@),
                out@ == rows_start + outstanding_rows(fs.take(j as int)),
            decreases template.listing.len() - j,
        {
            proof {
                assert(fs.take(j + 1).drop_last() =~= fs.take(j as int));
            }
            let field = &template.listing[j];
            if field.value.is_none() {
                out.append("| ");
                out.append(field.name);
                out.append(" | ");
                let required = match field.required_by {
                    Some(r) => r,
                    None => "",
                };
                proof {
                    if field.required_by is None {
                        reveal_strlit("");
                    }
                }
                let escaped = escape_pipes(required);
                out.append(escaped.as_str());
                out.append(" |\n");
            }
            proof {
                assert(out@ =~= rows_start + outstanding_rows(fs.take(j + 1)));
            }
            j = j + 1;
        }
        out.append("\n");
        proof {
            assert(fs.take(template.listing.len() as int) =~= fs);
        }
    }
    proof {
        assert(out@ =~= old(out)@ + listing_text(fs));
    }
}

/// The answer cell: the answer, marked when the partner must confirm it.
pub fn answer_cell(answer: &AnsweredQuestion) -> (r: String)
    ensures
        r@ == answer_cell_text(answer@),
{
    let value = answer.answer.as_display();
    if answer.confirm_before_submitting && answer.is_prefilled() {
        return crate::text::appended(owned(value), " (confirm)");
    }
    owned(value)
}

/// The signal cell: the severity an answer trips, or a dash.
pub fn signal_cell(answer: &AnsweredQuestion) -> (r: String)
    ensures
        r@ == signal_cell_text(answer@),
{
    if !answer.trips_signal {
        return owned("—");
    }
    match answer.signal {
        ReviewSignal::Fail => owned("BLOCKING"),
        ReviewSignal::Warning => owned("warning"),
        ReviewSignal::Info => owned("—"),
    }
}

/// Append the row of one question.
fn write_question_row(out: &mut String, answer: &AnsweredQuestion)
    ensures
        final(out)@ == old(out)@ + question_row(answer@),
{
    out.append("| ");
    out.append(answer.id);
    out.append(" | ");
    let prompt = escape_pipes(answer.prompt);
    out.append(prompt.as_str());
    out.append(" | ");
    let cell = answer_cell(answer);
    out.append(cell.as_str());
    out.append(" | ");
    out.append(answer.basis.label());
    out.append(" | ");
    let signal = signal_cell(answer);
    out.append(signal.as_str());
    out.append(" |\n");
    proof {
        assert(out@ =~= old(out)@ + question_row(answer@));
    }
}

/// Append the evidence for one answer, with its rationale.
fn write_evidence_block(out: &mut String, answer: &AnsweredQuestion)
    ensures
        final(out)@ == old(out)@ + evidence_block(answer@),
{
    out.append("**Evidence for ");
    out.append(answer.id);
    out.append("**\n\n");
    write_evidence(out, &answer.evidence);
    match &answer.rationale {
        Some(rationale) => {
            out.append("\n");
            out.append(rationale.as_str());
            out.append("\n");
        },
        None => {},
    }
    out.append("\n");
    proof {
        assert(out@ =~= old(out)@ + evidence_block(answer@));
    }
}

/// Append a category's heading, table and evidence, when it has questions.
fn write_category(out: &mut String, template: &ApprovalTemplate, category: Category)
    ensures
        final(out)@ == old(out)@ + category_text(answered_views(template.questionnaire@), category),
{
    let ghost qs = answered_views(template.questionnaire@);
    let n = template.questionnaire.len();
    let mut present = false;
    let mut i: usize = 0;
    while i < n
        invariant
            n == template.questionnaire@.len(),
            qs == answered_views(template.questionnaire@),
            i <= n,
            present == (exists|k: int| 0 <= k < i && (#[trigger] qs[k]).category == category),
        decreases n - i,
    {
        proof {
            assert(qs[i as int].category == template.questionnaire@[i as int].category);
        }
        if template.questionnaire[i].category == category {
            present = true;
        }
        i = i + 1;
    }
    if !present {
        proof {
            assert(!in_category(qs, category));
            assert(out@ =~= old(out)@ + category_text(qs, category));
        }
        return;
    }
    out.append("### ");
    out.append(category.title());
    out.append("\n\n");
    out.append("| # | Question | Answer | Source | Signal |\n");
    out.append("|---|---|---|---|---|\n");
    let ghost rows_start = out@;
    let mut i: usize = 0;
    while i < n
        invariant
            n == template.questionnaire@.len(),
            qs == answered_views(template.questionnaire@),
            i <= n,
            out@ == rows_start + question_rows(qs.take(i as int), category),
        decreases n - i,
    {
        proof {
            assert(qs.take(i + 1).drop_last() =~= qs.take(i as int));
        }
        if template.questionnaire[i].category == category {
            write_question_row(out, &template.questionnaire[i]);
        }
        proof {
            assert(out@ =~= rows_start + question_rows(qs.take(i + 1), category));
        }
        i = i + 1;
    }
    out.append("\n");
    let ghost blocks_start = out@;
    let mut i: usize = 0;
    while i < n
        invariant
            n == template.questionnaire@.len(),
            qs == answered_views(template.questionnaire@),
            i <= n,
            out@ == blocks_start + evidence_blocks(qs.take(i as int), category),
        decreases n - i,
    {
        proof {
            assert(qs.take(i + 1).drop_last() =~= qs.take(i as int));
        }
        let answer = &template.questionnaire[i];
        if answer.category == category && answer.evidence.len() != 0 {
            write_evidence_block(out, answer);
        }
        proof {
            assert(out@ =~= blocks_start + evidence_blocks(qs.take(i + 1), category));
        }
        i = i + 1;
    }
    proof {
        assert(qs.take(n as int) =~= qs);
        assert(out@ =~= old(out)@ + category_text(qs, category));
    }
}

/// Append the questionnaire section.
fn questionnaire(out: &mut String, template: &ApprovalTemplate)
    ensures
        final(out)@ == old(out)@ + questionnaire_text(answered_views(template.questionnaire@)),
{
    let ghost qs = answered_views(template.questionnaire@);
    out.append("## Security questionnaire\n\n");
    let order = [
        Category::AuthenticationAndAuthorization,
        Category::DataSecurity,
        Category::ApplicationSecurity,
        Category::SecretsManagement,
        Category::VulnerabilityManagement,
    ];
    proof {
        assert(order@ =~= category_order());
    }
    let ghost start = out@;
    let mut i: usize = 0;
    while i < 5
        invariant
            i <= 5,
            order@ == category_order(),
            qs == answered_views(template.questionnaire@),
            out@ == start + categories_text(qs, category_order().take(i as int)),
        decreases 5 - i,
    {
        proof {
            assert(category_order().take(i + 1).drop_last() =~= category_order().take(i as int));
        }
        write_category(out, template, order[i]);
        proof {
            assert(out@ =~= start + categories_text(qs, category_order().take(i + 1)));
        }
        i = i + 1;
    }
    proof {
        assert(category_order().take(5) =~= category_order());
        assert(out@ =~= old(out)@ + questionnaire_text(qs));
    }
}

/// Render a report as Markdown.
pub fn to_markdown(template: &ApprovalTemplate) -> (r: String)
    ensures
        r@ == markdown_text(*template),
{
    let mut out = String::new();
    out.append("# Marketplace app approval — pre-filled submission\n\n");
    out.append("Generated from `");
    out.append(template.manifest_path.as_str());
    out.append("`. Questionnaire transcribed from ");
    out.append(template.questionnaire_source);
    out.append(".\n\n");
    out.append("> ");
    out.append(template.attestation);
    out.append("\n\n");
    before_you_submit(&mut out, template);
    coverage(&mut out, template);
    listing(&mut out, template);
    questionnaire(&mut out, template);
    proof {
        assert(out@ =~= markdown_text(*template));
    }
    out
}

/// Basis labels, exposed for callers that render their own summaries.
pub fn basis_label(basis: Basis) -> (r: &'static str)
    ensures
        r@ == basis_label_text(basis),
{
    basis.label()
}

} // verus!
