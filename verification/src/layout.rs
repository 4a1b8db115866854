//! The layout of the rendered report: its headings, and exactly one table row
//! per question.
use vstd::prelude::*;

use crate::answers::{answered_views, AnsweredView};
use crate::evidence::{basis_label_text, EvidenceView};
use crate::flags::{flag_views, FlagView};
use crate::lines::{
    begins_with, ends_lines, lemma_hits_concat, lemma_hits_then, lemma_line_hits,
    lemma_no_hits_in_nothing, line_hits, single_line,
};
use crate::listing::{field_views, value_display, ListingFieldView};
use crate::questionnaire::{answer_display, category_title, AnswerValueView, Category, ReviewSignal};
use crate::render::{
    answer_cell_text, any_outstanding, before_you_submit_text, categories_text, category_order,
    category_text, count_row, coverage_text, evidence_block, evidence_blocks, evidence_lines,
    flag_block, flag_blocks, in_category, listing_rows, listing_text, markdown_text,
    outstanding_rows, question_row, question_rows, questionnaire_text, severity_text,
    signal_cell_text,
};
use crate::report::{percent_display, ApprovalTemplate, Coverage, ATTESTATION};
use crate::text::{decimal, digit_char, escape_pipes_spec, has_suffix};

verus! {

/// An ASCII digit.
pub open spec fn is_digit(c: char) -> bool {
    '0' <= c && c <= '9'
}

/// `s` holds no space.
pub open spec fn spaceless(s: Seq<char>) -> bool {
    forall|i: int| 0 <= i < s.len() ==> s[i] != ' '
}

/// A question id as the questionnaire spells them: a digit first, then no
/// space and no line break.
pub open spec fn plain_id(id: Seq<char>) -> bool {
    &&& id.len() > 0
    &&& is_digit(id[0])
    &&& spaceless(id)
    &&& single_line(id)
}

/// What a question's table row begins with: `| <id> | `.
pub open spec fn row_key(id: Seq<char>) -> Seq<char> {
    "| "@ + id + " | "@
}

/// `s` begins the way a question's row does: a bar, a space and a digit.
pub open spec fn begins_like_a_row(s: Seq<char>) -> bool {
    s.len() >= 3 && s[0] == '|' && s[1] == ' ' && is_digit(s[2])
}

/// An answer whose texts are each one line: its id is a plain id, and its
/// rationale, when it has one, does not itself begin like a row.
pub open spec fn plain_answer(a: AnsweredView) -> bool {
    &&& plain_id(a.id)
    &&& single_line(a.prompt)
    &&& (a.answer matches AnswerValueView::Text(t) ==> single_line(t))
    &&& forall|j: int|
        0 <= j < a.evidence.len() ==> single_line(#[trigger] a.evidence[j].pointer) && single_line(
            a.evidence[j].value,
        )
    &&& (a.rationale matches Some(r) ==> single_line(r) && !begins_like_a_row(r))
}

/// Answers that are each plain, with no id used twice.
pub open spec fn plain_answers(qs: Seq<AnsweredView>) -> bool {
    &&& forall|i: int| 0 <= i < qs.len() ==> plain_answer(#[trigger] qs[i])
    &&& forall|i: int, j: int| 0 <= i < j < qs.len() ==> #[trigger] qs[i].id != #[trigger] qs[j].id
}

/// What a row key looks like.
proof fn lemma_row_key(id: Seq<char>)
    requires
        plain_id(id),
    ensures
        single_line(row_key(id)),
        row_key(id).len() == id.len() + 5,
        begins_like_a_row(row_key(id)),
        forall|i: int| 0 <= i < id.len() ==> row_key(id)[i + 2] == id[i],
        row_key(id)[id.len() + 2int] == ' ',
{
    reveal_strlit("| ");
    reveal_strlit(" | ");
    let k = row_key(id);
    assert forall|i: int| 0 <= i < k.len() implies k[i] != '\n' by {
        if 2 <= i < id.len() + 2 {
            assert(k[i] == id[i - 2]);
        }
    }
}

/// Text in one line whose pieces are each in one line.
proof fn lemma_single_line_concat(a: Seq<char>, b: Seq<char>)
    requires
        single_line(a),
        single_line(b),
    ensures
        single_line(a + b),
{
    assert forall|i: int| 0 <= i < (a + b).len() implies (a + b)[i] != '\n' by {
        if i >= a.len() {
            assert((a + b)[i] == b[i - a.len()]);
        }
    }
}

/// Escaping pipes adds no line break.
proof fn lemma_escape_single_line(s: Seq<char>)
    requires
        single_line(s),
    ensures
        single_line(escape_pipes_spec(s)),
    decreases s.len(),
{
    if s.len() > 0 {
        lemma_escape_single_line(s.drop_last());
        let tail = if s.last() == '|' {
            seq!['\\', '|']
        } else {
            seq![s.last()]
        };
        assert(single_line(tail));
        lemma_single_line_concat(escape_pipes_spec(s.drop_last()), tail);
    }
}

/// A whole line that does not begin with `key` counts for nothing.
proof fn lemma_quiet_line(s: Seq<char>, key: Seq<char>)
    requires
        s.len() > 0,
        s.last() == '\n',
        single_line(s.drop_last()),
        single_line(key),
        key.len() > 0,
        !begins_with(s, key),
    ensures
        line_hits(s, key) == 0,
{
    let body = s.drop_last();
    assert(body.push('\n') =~= s);
    lemma_line_hits(body, key);
    if begins_with(body, key) {
        assert(body.subrange(0, key.len() as int) =~= s.subrange(0, key.len() as int));
    }
}

/// A line that begins with text in one line not like a row has no row key
/// at its start.
proof fn lemma_not_a_row(s: Seq<char>, id: Seq<char>)
    requires
        plain_id(id),
        s.len() > 0,
        s.last() == '\n',
        single_line(s.drop_last()),
        !begins_like_a_row(s.drop_last()),
    ensures
        line_hits(s, row_key(id)) == 0,
{
    lemma_row_key(id);
    let k = row_key(id);
    if begins_with(s, k) {
        assert(s[0] == k[0] && s[1] == k[1] && s[2] == k[2]) by {
            assert(s.subrange(0, k.len() as int)[0] == k[0]);
            assert(s.subrange(0, k.len() as int)[1] == k[1]);
            assert(s.subrange(0, k.len() as int)[2] == k[2]);
        }
        if s.len() - 1 < 3 {
            assert(s[s.len() - 1] == '\n');
        }
        assert(begins_like_a_row(s.drop_last()));
    }
    lemma_quiet_line(s, k);
}

/// The cells of a plain answer's row are each in one line.
#[verifier::spinoff_prover]
#[verifier::rlimit(40)]
proof fn lemma_cells_single_line(a: AnsweredView)
    requires
        plain_answer(a),
    ensures
        single_line(answer_cell_text(a)),
        single_line(basis_label_text(a.basis)),
        single_line(signal_cell_text(a)),
{
    reveal_strlit("Yes");
    reveal_strlit("No");
    reveal_strlit("Not Applicable");
    reveal_strlit("(unanswered)");
    reveal_strlit(" (confirm)");
    reveal_strlit("read from manifest");
    reveal_strlit("inferred from manifest");
    reveal_strlit("needs code review");
    reveal_strlit("needs partner input");
    reveal_strlit("—");
    reveal_strlit("BLOCKING");
    reveal_strlit("warning");
    let shown = answer_display(a.answer);
    assert(single_line(shown));
    assert(single_line(" (confirm)"@));
    lemma_single_line_concat(shown, " (confirm)"@);
    assert(single_line(Seq::<char>::empty()));
    assert(single_line(basis_label_text(a.basis)));
    assert(single_line(signal_cell_text(a)));
}

/// A plain answer's row, without its line break.
pub open spec fn row_body(a: AnsweredView) -> Seq<char> {
    row_key(a.id) + escape_pipes_spec(a.prompt) + " | "@ + answer_cell_text(a) + " | "@
        + basis_label_text(a.basis) + " | "@ + signal_cell_text(a) + " |"@
}

/// A row is its body and a line break, and the body is in one line.
#[verifier::spinoff_prover]
#[verifier::rlimit(40)]
proof fn lemma_row_body(a: AnsweredView)
    requires
        plain_answer(a),
    ensures
        question_row(a) == row_body(a).push('\n'),
        single_line(row_body(a)),
{
    reveal_strlit("| ");
    reveal_strlit(" | ");
    reveal_strlit(" |");
    reveal_strlit(" |\n");
    lemma_row_key(a.id);
    lemma_cells_single_line(a);
    lemma_escape_single_line(a.prompt);
    assert(question_row(a) =~= row_body(a).push('\n'));
    let k = row_key(a.id);
    let e = escape_pipes_spec(a.prompt);
    let c = answer_cell_text(a);
    let b = basis_label_text(a.basis);
    let g = signal_cell_text(a);
    assert(single_line(" | "@));
    assert(single_line(" |"@));
    lemma_single_line_concat(k, e);
    lemma_single_line_concat(k + e, " | "@);
    lemma_single_line_concat(k + e + " | "@, c);
    lemma_single_line_concat(k + e + " | "@ + c, " | "@);
    lemma_single_line_concat(k + e + " | "@ + c + " | "@, b);
    lemma_single_line_concat(k + e + " | "@ + c + " | "@ + b, " | "@);
    lemma_single_line_concat(k + e + " | "@ + c + " | "@ + b + " | "@, g);
    lemma_single_line_concat(k + e + " | "@ + c + " | "@ + b + " | "@ + g, " |"@);
}

/// A plain answer's row begins with the row key of exactly its own id.
#[verifier::spinoff_prover]
#[verifier::rlimit(40)]
proof fn lemma_row_hits(a: AnsweredView, x: Seq<char>)
    requires
        plain_answer(a),
        plain_id(x),
    ensures
        line_hits(question_row(a), row_key(x)) == if a.id == x {
            1nat
        } else {
            0nat
        },
{
    lemma_row_body(a);
    lemma_row_key(a.id);
    lemma_row_key(x);
    let body = row_body(a);
    let own = row_key(a.id);
    let key = row_key(x);
    let n = a.id.len() as int;
    let m = x.len() as int;
    assert(body == own + (body.subrange(own.len() as int, body.len() as int))) by {
        assert(body =~= own + (body.subrange(own.len() as int, body.len() as int)));
    }
    assert forall|i: int| 0 <= i < own.len() implies #[trigger] body[i] == own[i] by {
        assert(body[i] == (own + (body.subrange(own.len() as int, body.len() as int)))[i]);
    }
    lemma_line_hits(body, key);
    if begins_with(body, key) {
        assert forall|i: int| 0 <= i < key.len() implies #[trigger] body[i] == key[i] by {
            assert(body.subrange(0, key.len() as int)[i] == key[i]);
        }
        if m < n {
            assert(body[2 + m] == own[2 + m]);
            assert(own[2 + m] == a.id[m]);
            assert(key[2 + m] == ' ');
        } else if m > n {
            assert(body[2 + n] == own[2 + n]);
            assert(key[2 + n] == x[n]);
        } else {
            assert forall|i: int| 0 <= i < n implies a.id[i] == x[i] by {
                assert(body[i + 2] == own[i + 2]);
                assert(body[i + 2] == key[i + 2]);
            }
            assert(a.id =~= x);
        }
    }
    if a.id == x {
        assert(body.subrange(0, key.len() as int) =~= key);
    }
}

/// A line of text in one line, not beginning with a bar, is no question's
/// row.
proof fn lemma_plain_line(s: Seq<char>, x: Seq<char>)
    requires
        plain_id(x),
        single_line(s),
        s.len() > 0,
        s[0] != '|',
    ensures
        line_hits(s.push('\n'), row_key(x)) == 0,
        ends_lines(s.push('\n')),
{
    assert(s.push('\n').drop_last() =~= s);
    lemma_not_a_row(s.push('\n'), x);
}

/// The bullet citing one piece of evidence is one line.
proof fn lemma_evidence_line(e: EvidenceView)
    requires
        single_line(e.pointer),
        single_line(e.value),
    ensures
        "- `"@ + e.pointer + "` = `"@ + e.value + "`\n"@ == ("- `"@ + e.pointer + "` = `"@ + e.value
            + "`"@).push('\n'),
        single_line("- `"@ + e.pointer + "` = `"@ + e.value + "`"@),
        ("- `"@ + e.pointer + "` = `"@ + e.value + "`"@).len() > 0,
        ("- `"@ + e.pointer + "` = `"@ + e.value + "`"@)[0] == '-',
{
    reveal_strlit("- `");
    reveal_strlit("` = `");
    reveal_strlit("`");
    reveal_strlit("`\n");
    let b = "- `"@ + e.pointer + "` = `"@ + e.value;
    assert(b + "`\n"@ =~= (b + "`"@).push('\n'));
    assert(single_line("- `"@) && single_line("` = `"@) && single_line("`"@));
    lemma_single_line_concat("- `"@, e.pointer);
    lemma_single_line_concat("- `"@ + e.pointer, "` = `"@);
    lemma_single_line_concat("- `"@ + e.pointer + "` = `"@, e.value);
    lemma_single_line_concat(b, "`"@);
}

/// No evidence line is a question's row.
#[verifier::spinoff_prover]
#[verifier::rlimit(40)]
#[verifier::rlimit(30)]
proof fn lemma_evidence_lines(ev: Seq<EvidenceView>, x: Seq<char>)
    requires
        plain_id(x),
        forall|j: int|
            0 <= j < ev.len() ==> single_line(#[trigger] ev[j].pointer) && single_line(
                ev[j].value,
            ),
    ensures
        line_hits(evidence_lines(ev), row_key(x)) == 0,
        ends_lines(evidence_lines(ev)),
    decreases ev.len(),
{
    lemma_row_key(x);
    if ev.len() == 0 {
        lemma_no_hits_in_nothing(row_key(x));
    } else {
        let prev = ev.drop_last();
        assert forall|j: int| 0 <= j < prev.len() implies single_line(#[trigger] prev[j].pointer)
            && single_line(prev[j].value) by {
            assert(prev[j] == ev[j]);
        }
        lemma_evidence_lines(prev, x);
        let e = ev.last();
        assert(single_line(ev[ev.len() - 1].pointer));
        lemma_evidence_line(e);
        let body = "- `"@ + e.pointer + "` = `"@ + e.value + "`"@;
        lemma_plain_line(body, x);
        assert(evidence_lines(ev) =~= evidence_lines(prev) + body.push('\n'));
        lemma_hits_concat(evidence_lines(prev), body.push('\n'), row_key(x));
    }
}

/// An empty line is no question's row.
proof fn lemma_blank_line(x: Seq<char>)
    requires
        plain_id(x),
    ensures
        line_hits("\n"@, row_key(x)) == 0,
        ends_lines("\n"@),
{
    reveal_strlit("\n");
    assert("\n"@.drop_last() =~= Seq::<char>::empty());
    lemma_not_a_row("\n"@, x);
}

/// The heading of an answer's evidence: one line, then an empty one.
#[verifier::spinoff_prover]
#[verifier::rlimit(40)]
proof fn lemma_evidence_heading(id: Seq<char>)
    requires
        single_line(id),
    ensures
        "**Evidence for "@ + id + "**\n\n"@ == ("**Evidence for "@ + id + "**"@).push('\n') + "\n"@,
        single_line("**Evidence for "@ + id + "**"@),
        ("**Evidence for "@ + id + "**"@).len() > 0,
        ("**Evidence for "@ + id + "**"@)[0] == '*',
{
    reveal_strlit("**Evidence for ");
    reveal_strlit("**");
    reveal_strlit("**\n\n");
    reveal_strlit("\n");
    let h = "**Evidence for "@ + id;
    assert(h + "**\n\n"@ =~= (h + "**"@).push('\n') + "\n"@);
    assert(single_line("**Evidence for "@) && single_line("**"@));
    lemma_single_line_concat("**Evidence for "@, id);
    lemma_single_line_concat(h, "**"@);
}

/// What closes an answer's evidence: its rationale, when it has one, between
/// empty lines, then an empty line.
pub open spec fn rationale_tail(a: AnsweredView) -> Seq<char> {
    let r = match a.rationale {
        Some(r) => "\n"@ + r + "\n"@,
        None => Seq::empty(),
    };
    r + "\n"@
}

/// No line of the close of an answer's evidence is a question's row.
#[verifier::spinoff_prover]
#[verifier::rlimit(40)]
proof fn lemma_rationale_tail(a: AnsweredView, x: Seq<char>)
    requires
        a.rationale matches Some(r) ==> single_line(r) && !begins_like_a_row(r),
        plain_id(x),
    ensures
        line_hits(rationale_tail(a), row_key(x)) == 0,
        ends_lines(rationale_tail(a)),
        rationale_tail(a).len() > 0,
{
    lemma_row_key(x);
    let key = row_key(x);
    let nl = "\n"@;
    lemma_blank_line(x);
    reveal_strlit("\n");
    match a.rationale {
        Some(t) => {
            let line = t.push('\n');
            assert(line.drop_last() =~= t);
            lemma_not_a_row(line, x);
            assert(nl + t + nl =~= nl + line);
            assert(rationale_tail(a) =~= nl + (line + nl));
            lemma_hits_concat(line, nl, key);
            lemma_hits_concat(nl, line + nl, key);
        },
        None => {
            assert(rationale_tail(a) =~= nl);
        },
    }
}

/// No line of an answer's evidence block is a question's row.
#[verifier::spinoff_prover]
#[verifier::rlimit(40)]
proof fn lemma_evidence_block(a: AnsweredView, x: Seq<char>)
    requires
        plain_answer(a),
        plain_id(x),
    ensures
        line_hits(evidence_block(a), row_key(x)) == 0,
        ends_lines(evidence_block(a)),
{
    lemma_row_key(x);
    let key = row_key(x);
    let nl = "\n"@;
    lemma_blank_line(x);
    lemma_evidence_heading(a.id);
    let head = ("**Evidence for "@ + a.id + "**"@).push('\n');
    lemma_plain_line("**Evidence for "@ + a.id + "**"@, x);
    let e = evidence_lines(a.evidence);
    lemma_evidence_lines(a.evidence, x);
    let tail = rationale_tail(a);
    lemma_rationale_tail(a, x);
    assert(evidence_block(a) =~= head + (nl + (e + tail)));
    lemma_hits_concat(e, tail, key);
    lemma_hits_concat(nl, e + tail, key);
    lemma_hits_concat(head, nl + (e + tail), key);
    assert((head + (nl + (e + tail))).last() == tail.last()) by {
        assert(tail.len() > 0);
    }
}

/// How many answers of category `c` have the id `x`.
pub open spec fn id_count(qs: Seq<AnsweredView>, c: Category, x: Seq<char>) -> nat
    decreases qs.len(),
{
    if qs.len() == 0 {
        0
    } else {
        id_count(qs.drop_last(), c, x) + if qs.last().category == c && qs.last().id == x {
            1nat
        } else {
            0nat
        }
    }
}

/// Plain answers stay plain when the last is left off.
proof fn lemma_plain_prefix(qs: Seq<AnsweredView>)
    requires
        qs.len() > 0,
        forall|i: int| 0 <= i < qs.len() ==> plain_answer(#[trigger] qs[i]),
    ensures
        forall|i: int| 0 <= i < qs.len() - 1 ==> plain_answer(#[trigger] qs.drop_last()[i]),
        plain_answer(qs.last()),
{
    assert forall|i: int| 0 <= i < qs.len() - 1 implies plain_answer(#[trigger] qs.drop_last()[i]) by {
        assert(qs.drop_last()[i] == qs[i]);
    }
    assert(qs.last() == qs[qs.len() - 1]);
}

/// A category's rows hold one row with a given key per answer of that
/// category with that id.
proof fn lemma_question_rows(qs: Seq<AnsweredView>, c: Category, x: Seq<char>)
    requires
        plain_id(x),
        forall|i: int| 0 <= i < qs.len() ==> plain_answer(#[trigger] qs[i]),
    ensures
        line_hits(question_rows(qs, c), row_key(x)) == id_count(qs, c, x),
        ends_lines(question_rows(qs, c)),
    decreases qs.len(),
{
    lemma_row_key(x);
    if qs.len() == 0 {
        lemma_no_hits_in_nothing(row_key(x));
    } else {
        lemma_plain_prefix(qs);
        lemma_question_rows(qs.drop_last(), c, x);
        let a = qs.last();
        let more = if a.category == c {
            question_row(a)
        } else {
            Seq::empty()
        };
        if a.category == c {
            lemma_row_hits(a, x);
            lemma_row_body(a);
        } else {
            lemma_no_hits_in_nothing(row_key(x));
        }
        lemma_hits_concat(question_rows(qs.drop_last(), c), more, row_key(x));
        if more.len() > 0 {
            assert((question_rows(qs.drop_last(), c) + more).last() == more.last());
        } else {
            assert(question_rows(qs.drop_last(), c) + more =~= question_rows(qs.drop_last(), c));
        }
    }
}

/// No line of a category's evidence blocks is a question's row.
proof fn lemma_evidence_blocks(qs: Seq<AnsweredView>, c: Category, x: Seq<char>)
    requires
        plain_id(x),
        forall|i: int| 0 <= i < qs.len() ==> plain_answer(#[trigger] qs[i]),
    ensures
        line_hits(evidence_blocks(qs, c), row_key(x)) == 0,
        ends_lines(evidence_blocks(qs, c)),
    decreases qs.len(),
{
    lemma_row_key(x);
    if qs.len() == 0 {
        lemma_no_hits_in_nothing(row_key(x));
    } else {
        lemma_plain_prefix(qs);
        lemma_evidence_blocks(qs.drop_last(), c, x);
        let a = qs.last();
        let more = if a.category == c && a.evidence.len() != 0 {
            evidence_block(a)
        } else {
            Seq::empty()
        };
        if a.category == c && a.evidence.len() != 0 {
            lemma_evidence_block(a, x);
        } else {
            lemma_no_hits_in_nothing(row_key(x));
        }
        lemma_hits_concat(evidence_blocks(qs.drop_last(), c), more, row_key(x));
        if more.len() > 0 {
            assert((evidence_blocks(qs.drop_last(), c) + more).last() == more.last());
        } else {
            assert(evidence_blocks(qs.drop_last(), c) + more =~= evidence_blocks(qs.drop_last(), c));
        }
    }
}

/// Two lines written as a literal: one not beginning with a bar, then an
/// empty one, as a heading is written.
#[verifier::rlimit(40)]
proof fn lemma_heading_literal(h: Seq<char>, x: Seq<char>)
    requires
        plain_id(x),
        h.len() >= 2,
        h[0] != '|',
        h[h.len() - 2] == '\n',
        h[h.len() - 1] == '\n',
        single_line(h.subrange(0, h.len() - 2)),
    ensures
        line_hits(h, row_key(x)) == 0,
        ends_lines(h),
{
    lemma_row_key(x);
    let body = h.subrange(0, h.len() - 2);
    let line = h.subrange(0, h.len() - 1);
    let nl = h.subrange(h.len() - 1, h.len() as int);
    assert(line.drop_last() =~= body);
    assert(line.last() == '\n');
    assert(nl.drop_last() =~= Seq::<char>::empty());
    lemma_not_a_row(line, x);
    lemma_not_a_row(nl, x);
    assert(h =~= line + nl);
    lemma_hits_concat(line, nl, row_key(x));
}

/// A table line written as a literal, beginning with a bar but not with a
/// bar, a space and a digit.
#[verifier::spinoff_prover]
#[verifier::rlimit(60)]
proof fn lemma_table_literal(t: Seq<char>, x: Seq<char>)
    requires
        plain_id(x),
        t.len() >= 3,
        t[0] == '|',
        t[1] != ' ' || !is_digit(t[2]),
        t.last() == '\n',
        single_line(t.drop_last()),
    ensures
        line_hits(t, row_key(x)) == 0,
        ends_lines(t),
{
    if t.len() == 3 {
        assert(t[2] == '\n');
    } else {
        assert(t.drop_last()[1] == t[1] && t.drop_last()[2] == t[2]);
    }
    lemma_not_a_row(t, x);
}

/// A category's heading: one line beginning with `#`, then an empty line.
#[verifier::spinoff_prover]
#[verifier::rlimit(40)]
proof fn lemma_category_heading(c: Category, x: Seq<char>)
    requires
        plain_id(x),
    ensures
        line_hits("### "@ + category_title(c) + "\n\n"@, row_key(x)) == 0,
        ends_lines("### "@ + category_title(c) + "\n\n"@),
{
    reveal_strlit("### ");
    reveal_strlit("\n\n");
    reveal_strlit("Authentication & Authorization");
    reveal_strlit("Data Security");
    reveal_strlit("Application Security");
    reveal_strlit("Secrets Management");
    reveal_strlit("Vulnerability Management");
    let t = category_title(c);
    assert(single_line(t));
    let h = "### "@ + t + "\n\n"@;
    assert(h.subrange(0, h.len() - 2) =~= "### "@ + t);
    assert(single_line("### "@));
    lemma_single_line_concat("### "@, t);
    lemma_heading_literal(h, x);
}

/// The table head every category's rows sit under.
#[verifier::spinoff_prover]
#[verifier::rlimit(60)]
proof fn lemma_question_table_head(x: Seq<char>)
    requires
        plain_id(x),
    ensures
        line_hits("| # | Question | Answer | Source | Signal |\n"@, row_key(x)) == 0,
        line_hits("|---|---|---|---|---|\n"@, row_key(x)) == 0,
        ends_lines("| # | Question | Answer | Source | Signal |\n"@),
        ends_lines("|---|---|---|---|---|\n"@),
{
    reveal_strlit("| # | Question | Answer | Source | Signal |\n");
    reveal_strlit("|---|---|---|---|---|\n");
    lemma_table_literal("| # | Question | Answer | Source | Signal |\n"@, x);
    lemma_table_literal("|---|---|---|---|---|\n"@, x);
}

/// An empty category counts no answer.
proof fn lemma_empty_category(qs: Seq<AnsweredView>, c: Category, x: Seq<char>)
    requires
        !in_category(qs, c),
    ensures
        id_count(qs, c, x) == 0,
    decreases qs.len(),
{
    if qs.len() > 0 {
        assert(!in_category(qs.drop_last(), c)) by {
            if in_category(qs.drop_last(), c) {
                let i = choose|i: int| 0 <= i < qs.drop_last().len() && (#[trigger] qs.drop_last()[i]).category == c;
                assert(qs[i] == qs.drop_last()[i]);
            }
        }
        assert(qs[qs.len() - 1] == qs.last());
        lemma_empty_category(qs.drop_last(), c, x);
    }
}

/// A category's text holds one row with a given key per answer of that
/// category with that id.
#[verifier::spinoff_prover]
#[verifier::rlimit(40)]
proof fn lemma_category_text(qs: Seq<AnsweredView>, c: Category, x: Seq<char>)
    requires
        plain_id(x),
        forall|i: int| 0 <= i < qs.len() ==> plain_answer(#[trigger] qs[i]),
    ensures
        line_hits(category_text(qs, c), row_key(x)) == id_count(qs, c, x),
        ends_lines(category_text(qs, c)),
{
    lemma_row_key(x);
    let key = row_key(x);
    if in_category(qs, c) {
        let h = "### "@ + category_title(c) + "\n\n"@;
        let t1 = "| # | Question | Answer | Source | Signal |\n"@;
        let t2 = "|---|---|---|---|---|\n"@;
        let nl = "\n"@;
        let rows = question_rows(qs, c);
        let blocks = evidence_blocks(qs, c);
        lemma_category_heading(c, x);
        lemma_question_table_head(x);
        lemma_blank_line(x);
        lemma_question_rows(qs, c, x);
        lemma_evidence_blocks(qs, c, x);
        lemma_hits_then(h, t1, key);
        lemma_hits_then(h + t1, t2, key);
        lemma_hits_then(h + t1 + t2, rows, key);
        lemma_hits_then(h + t1 + t2 + rows, nl, key);
        lemma_hits_then(h + t1 + t2 + rows + nl, blocks, key);
        if blocks.len() == 0 {
            assert(h + t1 + t2 + rows + nl + blocks =~= h + t1 + t2 + rows + nl);
        }
    } else {
        lemma_empty_category(qs, c, x);
        lemma_no_hits_in_nothing(key);
    }
}

/// How many answers of the categories `cats` have the id `x`, category by
/// category.
pub open spec fn cats_count(qs: Seq<AnsweredView>, cats: Seq<Category>, x: Seq<char>) -> nat
    decreases cats.len(),
{
    if cats.len() == 0 {
        0
    } else {
        cats_count(qs, cats.drop_last(), x) + id_count(qs, cats.last(), x)
    }
}

/// How many answers have the id `x`.
pub open spec fn id_total(qs: Seq<AnsweredView>, x: Seq<char>) -> nat
    decreases qs.len(),
{
    if qs.len() == 0 {
        0
    } else {
        id_total(qs.drop_last(), x) + if qs.last().id == x {
            1nat
        } else {
            0nat
        }
    }
}

/// The categories' texts hold one row with a given key per answer of those
/// categories with that id.
proof fn lemma_categories_text(qs: Seq<AnsweredView>, cats: Seq<Category>, x: Seq<char>)
    requires
        plain_id(x),
        forall|i: int| 0 <= i < qs.len() ==> plain_answer(#[trigger] qs[i]),
    ensures
        line_hits(categories_text(qs, cats), row_key(x)) == cats_count(qs, cats, x),
        ends_lines(categories_text(qs, cats)),
    decreases cats.len(),
{
    lemma_row_key(x);
    if cats.len() == 0 {
        lemma_no_hits_in_nothing(row_key(x));
    } else {
        lemma_categories_text(qs, cats.drop_last(), x);
        lemma_category_text(qs, cats.last(), x);
        lemma_hits_then(categories_text(qs, cats.drop_last()), category_text(qs, cats.last()), row_key(x));
    }
}

/// Counting category by category, in published order, counts every answer
/// once.
proof fn lemma_every_category_counted(qs: Seq<AnsweredView>, x: Seq<char>)
    ensures
        cats_count(qs, category_order(), x) == id_total(qs, x),
    decreases qs.len(),
{
    let o = category_order();
    assert(o.drop_last().drop_last().drop_last().drop_last().drop_last() =~= Seq::<Category>::empty());
    reveal_with_fuel(cats_count, 6);
    assert(cats_count(qs, o, x) == id_count(qs, Category::AuthenticationAndAuthorization, x)
        + id_count(qs, Category::DataSecurity, x) + id_count(qs, Category::ApplicationSecurity, x)
        + id_count(qs, Category::SecretsManagement, x) + id_count(
        qs,
        Category::VulnerabilityManagement,
        x,
    ));
    if qs.len() > 0 {
        lemma_every_category_counted(qs.drop_last(), x);
        assert(cats_count(qs.drop_last(), o, x) == id_count(
            qs.drop_last(),
            Category::AuthenticationAndAuthorization,
            x,
        ) + id_count(qs.drop_last(), Category::DataSecurity, x) + id_count(
            qs.drop_last(),
            Category::ApplicationSecurity,
            x,
        ) + id_count(qs.drop_last(), Category::SecretsManagement, x) + id_count(
            qs.drop_last(),
            Category::VulnerabilityManagement,
            x,
        ));
    }
}

/// With no id used twice, an id is used at most once, and exactly once when
/// some answer has it.
proof fn lemma_id_total(qs: Seq<AnsweredView>, x: Seq<char>)
    requires
        forall|i: int, j: int| 0 <= i < j < qs.len() ==> #[trigger] qs[i].id != #[trigger] qs[j].id,
    ensures
        id_total(qs, x) <= 1,
        id_total(qs, x) == 1 <==> exists|k: int| 0 <= k < qs.len() && (#[trigger] qs[k]).id == x,
    decreases qs.len(),
{
    if qs.len() > 0 {
        let init = qs.drop_last();
        assert forall|i: int, j: int| 0 <= i < j < init.len() implies #[trigger] init[i].id
            != #[trigger] init[j].id by {
            assert(init[i] == qs[i] && init[j] == qs[j]);
        }
        lemma_id_total(init, x);
        let last = qs.len() - 1;
        assert(qs.last() == qs[last]);
        if qs.last().id == x {
            if id_total(init, x) == 1 {
                let k = choose|k: int| 0 <= k < init.len() && (#[trigger] init[k]).id == x;
                assert(qs[k] == init[k]);
                assert(qs[k].id != qs[last].id);
            }
        }
        if exists|k: int| 0 <= k < qs.len() && (#[trigger] qs[k]).id == x {
            let k = choose|k: int| 0 <= k < qs.len() && (#[trigger] qs[k]).id == x;
            if k < last {
                assert(init[k] == qs[k]);
            }
        }
        if exists|k: int| 0 <= k < init.len() && (#[trigger] init[k]).id == x {
            let k = choose|k: int| 0 <= k < init.len() && (#[trigger] init[k]).id == x;
            assert(qs[k] == init[k]);
        }
    }
}

/// The questionnaire section's heading holds no question's row.
#[verifier::spinoff_prover]
#[verifier::rlimit(60)]
proof fn lemma_questionnaire_heading(x: Seq<char>)
    requires
        plain_id(x),
    ensures
        line_hits("## Security questionnaire\n\n"@, row_key(x)) == 0,
        ends_lines("## Security questionnaire\n\n"@),
{
    let h = "## Security questionnaire\n\n"@;
    reveal_strlit("## Security questionnaire\n\n");
    assert(single_line(h.subrange(0, h.len() - 2)));
    lemma_heading_literal(h, x);
}

/// The questionnaire section, as rendered, has exactly one table row per
/// question: for a question id `x` (a digit, then no space and no line
/// break), the lines beginning `| x | ` number one when some answer has that
/// id and none otherwise, provided no id is used twice and the answers' texts
/// each fit on one line.
pub proof fn lemma_one_row_per_question(qs: Seq<AnsweredView>, x: Seq<char>)
    requires
        plain_answers(qs),
        plain_id(x),
    ensures
        line_hits(questionnaire_text(qs), row_key(x)) == if exists|k: int|
            0 <= k < qs.len() && (#[trigger] qs[k]).id == x {
            1nat
        } else {
            0nat
        },
{
    lemma_row_key(x);
    let key = row_key(x);
    let h = "## Security questionnaire\n\n"@;
    lemma_questionnaire_heading(x);
    lemma_categories_text(qs, category_order(), x);
    lemma_hits_then(h, categories_text(qs, category_order()), key);
    lemma_every_category_counted(qs, x);
    lemma_id_total(qs, x);
}

// ---------------------------------------------------------------------------
// Signals
// ---------------------------------------------------------------------------

/// A question's row ends with how the answer's signal is shown: `BLOCKING` for
/// an answer that trips a blocking signal, `warning` for one that trips a
/// warning, and a dash otherwise; so a blocking answer never reads like a
/// warning, nor like an answer that trips nothing.
#[verifier::spinoff_prover]
#[verifier::rlimit(40)]
pub proof fn lemma_signals_are_shown_by_severity(a: AnsweredView, b: AnsweredView)
    ensures
        a.trips_signal && a.signal == ReviewSignal::Fail ==> has_suffix(
            question_row(a),
            " | BLOCKING |\n"@,
        ),
        a.trips_signal && a.signal == ReviewSignal::Warning ==> has_suffix(
            question_row(a),
            " | warning |\n"@,
        ),
        !a.trips_signal ==> has_suffix(question_row(a), " | — |\n"@),
        a.trips_signal && a.signal == ReviewSignal::Fail && !(b.trips_signal && b.signal
            == ReviewSignal::Fail) ==> signal_cell_text(a) != signal_cell_text(b),
{
    reveal_strlit(" | BLOCKING |\n");
    reveal_strlit(" | warning |\n");
    reveal_strlit(" | — |\n");
    reveal_strlit(" | ");
    reveal_strlit(" |\n");
    reveal_strlit("BLOCKING");
    reveal_strlit("warning");
    reveal_strlit("—");
    let head = "| "@ + a.id + " | "@ + escape_pipes_spec(a.prompt) + " | "@ + answer_cell_text(a)
        + " | "@ + basis_label_text(a.basis);
    let tail = " | "@ + signal_cell_text(a) + " |\n"@;
    assert(question_row(a) =~= head + tail);
    assert((head + tail).subrange(head.len() as int, (head + tail).len() as int) =~= tail);
    if a.trips_signal && a.signal == ReviewSignal::Fail {
        assert(tail =~= " | BLOCKING |\n"@);
    }
    if a.trips_signal && a.signal == ReviewSignal::Warning {
        assert(tail =~= " | warning |\n"@);
    }
    if !a.trips_signal {
        assert(tail =~= " | — |\n"@);
    }
    assert("BLOCKING"@.len() != "warning"@.len());
    assert("BLOCKING"@.len() != "—"@.len());
}

// ---------------------------------------------------------------------------
// The other sections
// ---------------------------------------------------------------------------

/// A flag whose texts each fit on one line, and whose detail does not itself
/// begin like a row.
pub open spec fn plain_flag(f: FlagView) -> bool {
    &&& single_line(f.title)
    &&& single_line(f.detail)
    &&& !begins_like_a_row(f.detail)
    &&& forall|j: int|
        0 <= j < f.evidence.len() ==> single_line(#[trigger] f.evidence[j].pointer) && single_line(
            f.evidence[j].value,
        )
}

/// A listing field whose texts each fit on one line, and whose name does
/// not begin with a digit.
pub open spec fn plain_field(f: ListingFieldView) -> bool {
    &&& single_line(f.name)
    &&& (f.name.len() > 0 ==> !is_digit(f.name[0]))
    &&& (f.value matches Some(v) ==> single_line(value_display(v)))
    &&& (f.required_by matches Some(r) ==> single_line(r))
}

/// A report whose texts each fit on one line: the manifest's path, the
/// questionnaire's source, the caveat, every flag, every listing field and
/// every answer.
pub open spec fn plain_report(t: ApprovalTemplate) -> bool {
    &&& single_line(t.manifest_path@)
    &&& single_line(t.questionnaire_source@)
    &&& single_line(t.attestation@)
    &&& forall|i: int| 0 <= i < t.flags@.len() ==> plain_flag(#[trigger] flag_views(t.flags@)[i])
    &&& forall|i: int| 0 <= i < t.listing@.len() ==> plain_field(#[trigger] field_views(t.listing@)[i])
    &&& plain_answers(answered_views(t.questionnaire@))
}

/// A line in one line that does not begin like a row counts for nothing.
proof fn lemma_quiet_body(body: Seq<char>, x: Seq<char>)
    requires
        plain_id(x),
        single_line(body),
        !begins_like_a_row(body),
    ensures
        line_hits(body.push('\n'), row_key(x)) == 0,
        ends_lines(body.push('\n')),
{
    assert(body.push('\n').drop_last() =~= body);
    lemma_not_a_row(body.push('\n'), x);
}

/// The decimal spelling of a number is one line of digits.
proof fn lemma_decimal_single_line(n: nat)
    ensures
        single_line(decimal(n)),
        decimal(n).len() > 0,
    decreases n,
{
    if n < 10 {
        assert(digit_char(n) != '\n');
    } else {
        lemma_decimal_single_line(n / 10);
        assert(digit_char(n % 10) != '\n');
        assert forall|i: int| 0 <= i < decimal(n).len() implies decimal(n)[i] != '\n' by {
            if i < decimal(n / 10).len() {
                assert(decimal(n)[i] == decimal(n / 10)[i]);
            }
        }
    }
}

/// A flag's block: its heading line, an empty line, its detail, an empty
/// line, and its evidence when it has any.
#[verifier::spinoff_prover]
#[verifier::rlimit(40)]
proof fn lemma_flag_block_parts(f: FlagView)
    requires
        single_line(f.title),
    ensures
        flag_block(f) == ("### ["@ + severity_text(f.severity) + "] "@ + f.title).push('\n')
            + "\n"@ + f.detail.push('\n') + "\n"@ + flag_evidence(f),
        single_line("### ["@ + severity_text(f.severity) + "] "@ + f.title),
        ("### ["@ + severity_text(f.severity) + "] "@ + f.title).len() > 0,
        ("### ["@ + severity_text(f.severity) + "] "@ + f.title)[0] == '#',
{
    reveal_strlit("### [");
    reveal_strlit("] ");
    reveal_strlit("\n\n");
    reveal_strlit("\n");
    reveal_strlit("BLOCKING");
    reveal_strlit("warning");
    reveal_strlit("info");
    let h = "### ["@ + severity_text(f.severity) + "] "@ + f.title;
    assert(flag_block(f) =~= h.push('\n') + "\n"@ + f.detail.push('\n') + "\n"@ + flag_evidence(f));
    assert(single_line("### ["@) && single_line("] "@) && single_line(severity_text(f.severity)));
    lemma_single_line_concat("### ["@, severity_text(f.severity));
    lemma_single_line_concat("### ["@ + severity_text(f.severity), "] "@);
    lemma_single_line_concat("### ["@ + severity_text(f.severity) + "] "@, f.title);
}

/// A flag's evidence, when it has any: a line naming it, an empty line, the
/// evidence, and an empty line.
pub open spec fn flag_evidence(f: FlagView) -> Seq<char> {
    if f.evidence.len() == 0 {
        Seq::empty()
    } else {
        "Evidence:\n\n"@ + evidence_lines(f.evidence) + "\n"@
    }
}

/// No line of a flag's evidence is a question's row.
#[verifier::spinoff_prover]
#[verifier::rlimit(40)]
proof fn lemma_flag_evidence(f: FlagView, x: Seq<char>)
    requires
        plain_flag(f),
        plain_id(x),
    ensures
        line_hits(flag_evidence(f), row_key(x)) == 0,
        ends_lines(flag_evidence(f)),
{
    lemma_row_key(x);
    let key = row_key(x);
    if f.evidence.len() == 0 {
        lemma_no_hits_in_nothing(key);
    } else {
        let h = "Evidence:\n\n"@;
        reveal_strlit("Evidence:\n\n");
        assert(single_line(h.subrange(0, h.len() - 2)));
        lemma_heading_literal(h, x);
        lemma_evidence_lines(f.evidence, x);
        lemma_blank_line(x);
        lemma_hits_then(h, evidence_lines(f.evidence), key);
        lemma_hits_then(h + evidence_lines(f.evidence), "\n"@, key);
    }
}

/// No line of a flag's block is a question's row.
#[verifier::spinoff_prover]
#[verifier::rlimit(40)]
proof fn lemma_flag_block(f: FlagView, x: Seq<char>)
    requires
        plain_flag(f),
        plain_id(x),
    ensures
        line_hits(flag_block(f), row_key(x)) == 0,
        ends_lines(flag_block(f)),
{
    lemma_row_key(x);
    let key = row_key(x);
    lemma_flag_block_parts(f);
    let h = ("### ["@ + severity_text(f.severity) + "] "@ + f.title).push('\n');
    let nl = "\n"@;
    let d = f.detail.push('\n');
    lemma_plain_line("### ["@ + severity_text(f.severity) + "] "@ + f.title, x);
    lemma_blank_line(x);
    lemma_quiet_body(f.detail, x);
    lemma_flag_evidence(f, x);
    lemma_hits_then(h, nl, key);
    lemma_hits_then(h + nl, d, key);
    lemma_hits_then(h + nl + d, nl, key);
    lemma_hits_then(h + nl + d + nl, flag_evidence(f), key);
    if flag_evidence(f).len() == 0 {
        assert(h + nl + d + nl + flag_evidence(f) =~= h + nl + d + nl);
    }
}

/// No line of the flags' blocks is a question's row.
proof fn lemma_flag_blocks(flags: Seq<FlagView>, x: Seq<char>)
    requires
        forall|i: int| 0 <= i < flags.len() ==> plain_flag(#[trigger] flags[i]),
        plain_id(x),
    ensures
        line_hits(flag_blocks(flags), row_key(x)) == 0,
        ends_lines(flag_blocks(flags)),
    decreases flags.len(),
{
    lemma_row_key(x);
    if flags.len() == 0 {
        lemma_no_hits_in_nothing(row_key(x));
    } else {
        assert forall|i: int| 0 <= i < flags.len() - 1 implies plain_flag(#[trigger] flags.drop_last()[i]) by {
            assert(flags.drop_last()[i] == flags[i]);
        }
        assert(plain_flag(flags[flags.len() - 1]));
        lemma_flag_blocks(flags.drop_last(), x);
        lemma_flag_block(flags.last(), x);
        lemma_hits_then(flag_blocks(flags.drop_last()), flag_block(flags.last()), row_key(x));
    }
}

/// No line of the pre-submission section is a question's row.
#[verifier::spinoff_prover]
#[verifier::rlimit(40)]
proof fn lemma_before_you_submit(flags: Seq<FlagView>, x: Seq<char>)
    requires
        forall|i: int| 0 <= i < flags.len() ==> plain_flag(#[trigger] flags[i]),
        plain_id(x),
    ensures
        line_hits(before_you_submit_text(flags), row_key(x)) == 0,
        ends_lines(before_you_submit_text(flags)),
{
    lemma_row_key(x);
    let key = row_key(x);
    let h = "## Before you submit\n\n"@;
    reveal_strlit("## Before you submit\n\n");
    assert(single_line(h.subrange(0, h.len() - 2)));
    lemma_heading_literal(h, x);
    if flags.len() == 0 {
        let n = "No pre-submission issues found in the manifest.\n\n"@;
        reveal_strlit("No pre-submission issues found in the manifest.\n\n");
        assert(single_line(n.subrange(0, n.len() - 2)));
        lemma_heading_literal(n, x);
        lemma_hits_then(h, n, key);
    } else {
        lemma_flag_blocks(flags, x);
        lemma_hits_then(h, flag_blocks(flags), key);
    }
}

/// A row of the coverage table, for a label in one line that does not begin
/// with a digit.
proof fn lemma_count_row(label: Seq<char>, n: usize, x: Seq<char>)
    requires
        plain_id(x),
        single_line(label),
        label.len() > 0,
        !is_digit(label[0]),
    ensures
        line_hits(count_row(label, n), row_key(x)) == 0,
        ends_lines(count_row(label, n)),
{
    reveal_strlit("| ");
    reveal_strlit(" | ");
    reveal_strlit(" |");
    reveal_strlit(" |\n");
    let d = decimal(n as nat);
    lemma_decimal_single_line(n as nat);
    let body = "| "@ + label + " | "@ + d + " |"@;
    assert(count_row(label, n) =~= body.push('\n'));
    assert(single_line("| "@) && single_line(" | "@) && single_line(" |"@));
    lemma_single_line_concat("| "@, label);
    lemma_single_line_concat("| "@ + label, " | "@);
    lemma_single_line_concat("| "@ + label + " | "@, d);
    lemma_single_line_concat("| "@ + label + " | "@ + d, " |"@);
    assert(body[2] == label[0]);
    lemma_quiet_body(body, x);
}

/// The coverage section, line by line.
#[verifier::spinoff_prover]
#[verifier::rlimit(60)]
proof fn lemma_coverage_parts(c: Coverage)
    ensures
        coverage_text(c) == "## Coverage\n\n"@ + "| Disposition | Prompts |\n"@ + "|---|---|\n"@
            + count_row("Read from the manifest"@, c.deterministic) + count_row(
            "Inferred from the manifest"@,
            c.heuristic,
        ) + count_row("Not applicable (ruled out by a parent answer)"@, c.not_applicable)
            + count_row("Needs code review"@, c.requires_code_review) + count_row(
            "Needs your input"@,
            c.requires_partner_input,
        ) + total_line(c).push('\n') + "\n"@ + summary_line(c).push('\n') + "\n"@,
{
    reveal_strlit("| **Total prompts** | **");
    reveal_strlit("** |\n");
    reveal_strlit("** |");
    reveal_strlit("\n**");
    reveal_strlit("**");
    reveal_strlit("\n");
    reveal_strlit(" warning signal(s) tripped by the pre-filled answers.\n\n");
    reveal_strlit(" warning signal(s) tripped by the pre-filled answers.");
    assert(coverage_text(c) =~= "## Coverage\n\n"@ + "| Disposition | Prompts |\n"@ + "|---|---|\n"@
        + count_row("Read from the manifest"@, c.deterministic) + count_row(
        "Inferred from the manifest"@,
        c.heuristic,
    ) + count_row("Not applicable (ruled out by a parent answer)"@, c.not_applicable)
        + count_row("Needs code review"@, c.requires_code_review) + count_row(
        "Needs your input"@,
        c.requires_partner_input,
    ) + total_line(c).push('\n') + "\n"@ + summary_line(c).push('\n') + "\n"@);
}

/// The coverage table's total row, without its line break.
pub open spec fn total_line(c: Coverage) -> Seq<char> {
    "| **Total prompts** | **"@ + decimal(c.total_prompts as nat) + "** |"@
}

/// The coverage summary, without its line break.
pub open spec fn summary_line(c: Coverage) -> Seq<char> {
    "**"@ + percent_display(c.percent_resolved_tenths as nat) + "% resolved** ("@ + decimal(
        c.resolved as nat,
    ) + " of "@ + decimal(c.total_prompts as nat) + " prompts). "@ + decimal(
        c.blocking_signals_tripped as nat,
    ) + " blocking and "@ + decimal(c.warning_signals_tripped as nat)
        + " warning signal(s) tripped by the pre-filled answers."@
}

/// The coverage summary and total row are each one line.
#[verifier::spinoff_prover]
#[verifier::rlimit(60)]
proof fn lemma_coverage_lines_single(c: Coverage)
    ensures
        single_line(total_line(c)),
        single_line(summary_line(c)),
        total_line(c).len() >= 3 && total_line(c)[2] == '*',
        summary_line(c).len() > 0 && summary_line(c)[0] == '*',
{
    reveal_strlit("| **Total prompts** | **");
    reveal_strlit("** |");
    reveal_strlit("**");
    reveal_strlit("% resolved** (");
    reveal_strlit(" of ");
    reveal_strlit(" prompts). ");
    reveal_strlit(" blocking and ");
    reveal_strlit(" warning signal(s) tripped by the pre-filled answers.");
    reveal_strlit(".");
    let p = c.percent_resolved_tenths as nat;
    lemma_decimal_single_line(c.total_prompts as nat);
    lemma_decimal_single_line(c.resolved as nat);
    lemma_decimal_single_line(c.blocking_signals_tripped as nat);
    lemma_decimal_single_line(c.warning_signals_tripped as nat);
    lemma_decimal_single_line(p / 10);
    lemma_decimal_single_line(p % 10);
    assert(single_line("."@));
    lemma_single_line_concat(decimal(p / 10), "."@);
    lemma_single_line_concat(decimal(p / 10) + "."@, decimal(p % 10));
    assert(single_line(percent_display(p)));
    let t0 = "| **Total prompts** | **"@;
    assert(single_line(t0) && single_line("** |"@));
    lemma_single_line_concat(t0, decimal(c.total_prompts as nat));
    lemma_single_line_concat(t0 + decimal(c.total_prompts as nat), "** |"@);
    assert(single_line("**"@) && single_line("% resolved** ("@) && single_line(" of "@)
        && single_line(" prompts). "@) && single_line(" blocking and "@) && single_line(
        " warning signal(s) tripped by the pre-filled answers."@,
    ));
    let s1 = "**"@ + percent_display(p);
    lemma_single_line_concat("**"@, percent_display(p));
    let s2 = s1 + "% resolved** ("@;
    lemma_single_line_concat(s1, "% resolved** ("@);
    let s3 = s2 + decimal(c.resolved as nat);
    lemma_single_line_concat(s2, decimal(c.resolved as nat));
    let s4 = s3 + " of "@;
    lemma_single_line_concat(s3, " of "@);
    let s5 = s4 + decimal(c.total_prompts as nat);
    lemma_single_line_concat(s4, decimal(c.total_prompts as nat));
    let s6 = s5 + " prompts). "@;
    lemma_single_line_concat(s5, " prompts). "@);
    let s7 = s6 + decimal(c.blocking_signals_tripped as nat);
    lemma_single_line_concat(s6, decimal(c.blocking_signals_tripped as nat));
    let s8 = s7 + " blocking and "@;
    lemma_single_line_concat(s7, " blocking and "@);
    let s9 = s8 + decimal(c.warning_signals_tripped as nat);
    lemma_single_line_concat(s8, decimal(c.warning_signals_tripped as nat));
    lemma_single_line_concat(s9, " warning signal(s) tripped by the pre-filled answers."@);
}

/// No line of the coverage section is a question's row.
#[verifier::spinoff_prover]
#[verifier::rlimit(60)]
proof fn lemma_coverage_section(c: Coverage, x: Seq<char>)
    requires
        plain_id(x),
    ensures
        line_hits(coverage_text(c), row_key(x)) == 0,
        ends_lines(coverage_text(c)),
{
    lemma_row_key(x);
    let key = row_key(x);
    lemma_coverage_parts(c);
    lemma_coverage_lines_single(c);
    let h = "## Coverage\n\n"@;
    let t1 = "| Disposition | Prompts |\n"@;
    let t2 = "|---|---|\n"@;
    reveal_strlit("## Coverage\n\n");
    reveal_strlit("| Disposition | Prompts |\n");
    reveal_strlit("|---|---|\n");
    reveal_strlit("Read from the manifest");
    reveal_strlit("Inferred from the manifest");
    reveal_strlit("Not applicable (ruled out by a parent answer)");
    reveal_strlit("Needs code review");
    reveal_strlit("Needs your input");
    assert(single_line(h.subrange(0, h.len() - 2)));
    lemma_heading_literal(h, x);
    lemma_table_literal(t1, x);
    lemma_table_literal(t2, x);
    let r1 = count_row("Read from the manifest"@, c.deterministic);
    let r2 = count_row("Inferred from the manifest"@, c.heuristic);
    let r3 = count_row("Not applicable (ruled out by a parent answer)"@, c.not_applicable);
    let r4 = count_row("Needs code review"@, c.requires_code_review);
    let r5 = count_row("Needs your input"@, c.requires_partner_input);
    lemma_count_row("Read from the manifest"@, c.deterministic, x);
    lemma_count_row("Inferred from the manifest"@, c.heuristic, x);
    lemma_count_row("Not applicable (ruled out by a parent answer)"@, c.not_applicable, x);
    lemma_count_row("Needs code review"@, c.requires_code_review, x);
    lemma_count_row("Needs your input"@, c.requires_partner_input, x);
    let tr = total_line(c).push('\n');
    let nl = "\n"@;
    let sm = summary_line(c).push('\n');
    lemma_quiet_body(total_line(c), x);
    lemma_plain_line(summary_line(c), x);
    lemma_blank_line(x);
    lemma_hits_then(h, t1, key);
    lemma_hits_then(h + t1, t2, key);
    lemma_hits_then(h + t1 + t2, r1, key);
    lemma_hits_then(h + t1 + t2 + r1, r2, key);
    lemma_hits_then(h + t1 + t2 + r1 + r2, r3, key);
    lemma_hits_then(h + t1 + t2 + r1 + r2 + r3, r4, key);
    lemma_hits_then(h + t1 + t2 + r1 + r2 + r3 + r4, r5, key);
    lemma_hits_then(h + t1 + t2 + r1 + r2 + r3 + r4 + r5, tr, key);
    lemma_hits_then(h + t1 + t2 + r1 + r2 + r3 + r4 + r5 + tr, nl, key);
    lemma_hits_then(h + t1 + t2 + r1 + r2 + r3 + r4 + r5 + tr + nl, sm, key);
    lemma_hits_then(h + t1 + t2 + r1 + r2 + r3 + r4 + r5 + tr + nl + sm, nl, key);
}

/// A table row that begins with a field's name: one line, and not a
/// question's row, since the name does not begin with a digit.
#[verifier::spinoff_prover]
#[verifier::rlimit(40)]
proof fn lemma_field_row(name: Seq<char>, rest: Seq<char>, x: Seq<char>)
    requires
        plain_id(x),
        single_line(name),
        name.len() > 0 ==> !is_digit(name[0]),
        single_line(rest),
    ensures
        line_hits(("| "@ + name + " | "@ + rest).push('\n'), row_key(x)) == 0,
        ends_lines(("| "@ + name + " | "@ + rest).push('\n')),
{
    reveal_strlit("| ");
    reveal_strlit(" | ");
    let body = "| "@ + name + " | "@ + rest;
    assert(single_line("| "@) && single_line(" | "@));
    lemma_single_line_concat("| "@, name);
    lemma_single_line_concat("| "@ + name, " | "@);
    lemma_single_line_concat("| "@ + name + " | "@, rest);
    if name.len() > 0 {
        assert(body[2] == name[0]);
    } else {
        assert(body[2] == ' ');
    }
    lemma_quiet_body(body, x);
}

/// The listing row of a field that carries a value.
#[verifier::spinoff_prover]
#[verifier::rlimit(40)]
proof fn lemma_listing_row(f: ListingFieldView, x: Seq<char>)
    requires
        plain_field(f),
        plain_id(x),
        f.value is Some,
    ensures
        line_hits(
            "| "@ + f.name + " | "@ + escape_pipes_spec(value_display(f.value->0)) + " | "@
                + basis_label_text(f.basis) + " |\n"@,
            row_key(x),
        ) == 0,
        ends_lines(
            "| "@ + f.name + " | "@ + escape_pipes_spec(value_display(f.value->0)) + " | "@
                + basis_label_text(f.basis) + " |\n"@,
        ),
{
    reveal_strlit(" | ");
    reveal_strlit(" |");
    reveal_strlit(" |\n");
    reveal_strlit("read from manifest");
    reveal_strlit("inferred from manifest");
    reveal_strlit("needs code review");
    reveal_strlit("needs partner input");
    let v = escape_pipes_spec(value_display(f.value->0));
    let b = basis_label_text(f.basis);
    lemma_escape_single_line(value_display(f.value->0));
    assert(single_line(b));
    let rest = v + " | "@ + b + " |"@;
    assert(single_line(" | "@) && single_line(" |"@));
    lemma_single_line_concat(v, " | "@);
    lemma_single_line_concat(v + " | "@, b);
    lemma_single_line_concat(v + " | "@ + b, " |"@);
    assert("| "@ + f.name + " | "@ + v + " | "@ + b + " |\n"@ =~= ("| "@ + f.name + " | "@
        + rest).push('\n'));
    lemma_field_row(f.name, rest, x);
}

/// The listing row of a field still to be supplied.
#[verifier::spinoff_prover]
#[verifier::rlimit(40)]
proof fn lemma_outstanding_row(f: ListingFieldView, x: Seq<char>)
    requires
        plain_field(f),
        plain_id(x),
    ensures
        line_hits(
            "| "@ + f.name + " | "@ + escape_pipes_spec(
                match f.required_by {
                    Some(r) => r,
                    None => Seq::empty(),
                },
            ) + " |\n"@,
            row_key(x),
        ) == 0,
        ends_lines(
            "| "@ + f.name + " | "@ + escape_pipes_spec(
                match f.required_by {
                    Some(r) => r,
                    None => Seq::empty(),
                },
            ) + " |\n"@,
        ),
{
    reveal_strlit(" |");
    reveal_strlit(" |\n");
    let why = match f.required_by {
        Some(r) => r,
        None => Seq::empty(),
    };
    lemma_escape_single_line(why);
    let v = escape_pipes_spec(why);
    let rest = v + " |"@;
    assert(single_line(" |"@));
    lemma_single_line_concat(v, " |"@);
    assert("| "@ + f.name + " | "@ + v + " |\n"@ =~= ("| "@ + f.name + " | "@ + rest).push('\n'));
    lemma_field_row(f.name, rest, x);
}

/// No row of the filled-in fields is a question's row.
proof fn lemma_listing_rows(fields: Seq<ListingFieldView>, x: Seq<char>)
    requires
        forall|i: int| 0 <= i < fields.len() ==> plain_field(#[trigger] fields[i]),
        plain_id(x),
    ensures
        line_hits(listing_rows(fields), row_key(x)) == 0,
        line_hits(outstanding_rows(fields), row_key(x)) == 0,
        ends_lines(listing_rows(fields)),
        ends_lines(outstanding_rows(fields)),
    decreases fields.len(),
{
    lemma_row_key(x);
    let key = row_key(x);
    if fields.len() == 0 {
        lemma_no_hits_in_nothing(key);
    } else {
        assert forall|i: int| 0 <= i < fields.len() - 1 implies plain_field(#[trigger] fields.drop_last()[i]) by {
            assert(fields.drop_last()[i] == fields[i]);
        }
        let f = fields.last();
        assert(plain_field(fields[fields.len() - 1]));
        lemma_listing_rows(fields.drop_last(), x);
        let row = match f.value {
            Some(v) => "| "@ + f.name + " | "@ + escape_pipes_spec(value_display(v)) + " | "@
                + basis_label_text(f.basis) + " |\n"@,
            None => Seq::empty(),
        };
        if f.value is Some {
            lemma_listing_row(f, x);
        } else {
            lemma_no_hits_in_nothing(key);
        }
        lemma_hits_then(listing_rows(fields.drop_last()), row, key);
        if row.len() == 0 {
            assert(listing_rows(fields.drop_last()) + row =~= listing_rows(fields.drop_last()));
        }
        let out = if f.value is None {
            "| "@ + f.name + " | "@ + escape_pipes_spec(
                match f.required_by {
                    Some(r) => r,
                    None => Seq::empty(),
                },
            ) + " |\n"@
        } else {
            Seq::empty()
        };
        if f.value is None {
            lemma_outstanding_row(f, x);
        }
        lemma_hits_then(outstanding_rows(fields.drop_last()), out, key);
        if out.len() == 0 {
            assert(outstanding_rows(fields.drop_last()) + out =~= outstanding_rows(fields.drop_last()));
        }
    }
}

/// No line of the listing section is a question's row.
#[verifier::spinoff_prover]
#[verifier::rlimit(60)]
proof fn lemma_listing_section(fields: Seq<ListingFieldView>, x: Seq<char>)
    requires
        forall|i: int| 0 <= i < fields.len() ==> plain_field(#[trigger] fields[i]),
        plain_id(x),
    ensures
        line_hits(listing_text(fields), row_key(x)) == 0,
        ends_lines(listing_text(fields)),
{
    lemma_row_key(x);
    let key = row_key(x);
    let h = "## Listing details\n\n"@;
    let t1 = "| Field | Value | Source |\n"@;
    let t2 = "|---|---|---|\n"@;
    reveal_strlit("## Listing details\n\n");
    reveal_strlit("| Field | Value | Source |\n");
    reveal_strlit("|---|---|---|\n");
    assert(single_line(h.subrange(0, h.len() - 2)));
    lemma_heading_literal(h, x);
    lemma_table_literal(t1, x);
    lemma_table_literal(t2, x);
    lemma_listing_rows(fields, x);
    let rows = listing_rows(fields);
    lemma_hits_then(h, t1, key);
    lemma_hits_then(h + t1, t2, key);
    lemma_hits_then(h + t1 + t2, rows, key);
    let more = if any_outstanding(fields) {
        "\n### Still needed from you\n\n"@ + "| Field | Required because |\n"@ + "|---|---|\n"@
            + outstanding_rows(fields) + "\n"@
    } else {
        Seq::empty()
    };
    if any_outstanding(fields) {
        let s = "\n### Still needed from you\n\n"@;
        let u1 = "| Field | Required because |\n"@;
        let u2 = "|---|---|\n"@;
        reveal_strlit("\n### Still needed from you\n\n");
        reveal_strlit("| Field | Required because |\n");
        reveal_strlit("|---|---|\n");
        reveal_strlit("\n");
        let sh = s.subrange(1, s.len() as int);
        assert(s =~= "\n"@ + sh);
        assert(single_line(sh.subrange(0, sh.len() - 2)));
        lemma_heading_literal(sh, x);
        lemma_blank_line(x);
        lemma_hits_then("\n"@, sh, key);
        lemma_table_literal(u1, x);
        lemma_table_literal(u2, x);
        let o = outstanding_rows(fields);
        lemma_hits_then(s, u1, key);
        lemma_hits_then(s + u1, u2, key);
        lemma_hits_then(s + u1 + u2, o, key);
        lemma_hits_then(s + u1 + u2 + o, "\n"@, key);
    } else {
        lemma_no_hits_in_nothing(key);
    }
    lemma_hits_then(h + t1 + t2 + rows, more, key);
    if more.len() == 0 {
        assert(h + t1 + t2 + rows + more =~= h + t1 + t2 + rows);
    }
}

/// The line naming the manifest and the questionnaire's source, without its
/// line break.
pub open spec fn source_line(t: ApprovalTemplate) -> Seq<char> {
    "Generated from `"@ + t.manifest_path@ + "`. Questionnaire transcribed from "@
        + t.questionnaire_source@ + "."@
}

/// The report, part by part.
#[verifier::spinoff_prover]
#[verifier::rlimit(60)]
proof fn lemma_markdown_parts(t: ApprovalTemplate)
    ensures
        markdown_text(t) == "# Marketplace app approval — pre-filled submission\n\n"@ + source_line(
            t,
        ).push('\n') + "\n"@ + ("> "@ + t.attestation@).push('\n') + "\n"@ + before_you_submit_text(
            flag_views(t.flags@),
        ) + coverage_text(t.coverage) + listing_text(field_views(t.listing@)) + questionnaire_text(
            answered_views(t.questionnaire@),
        ),
{
    reveal_strlit(".\n\n");
    reveal_strlit(".");
    reveal_strlit("\n\n");
    reveal_strlit("\n");
    assert(markdown_text(t) =~= "# Marketplace app approval — pre-filled submission\n\n"@
        + source_line(t).push('\n') + "\n"@ + ("> "@ + t.attestation@).push('\n') + "\n"@
        + before_you_submit_text(flag_views(t.flags@)) + coverage_text(t.coverage) + listing_text(
        field_views(t.listing@),
    ) + questionnaire_text(answered_views(t.questionnaire@)));
}

/// No line before the report's sections is a question's row.
#[verifier::spinoff_prover]
#[verifier::rlimit(60)]
proof fn lemma_preamble(t: ApprovalTemplate, x: Seq<char>)
    requires
        plain_id(x),
        single_line(t.manifest_path@),
        single_line(t.questionnaire_source@),
        single_line(t.attestation@),
    ensures
        line_hits("# Marketplace app approval — pre-filled submission\n\n"@, row_key(x)) == 0,
        ends_lines("# Marketplace app approval — pre-filled submission\n\n"@),
        line_hits(source_line(t).push('\n'), row_key(x)) == 0,
        ends_lines(source_line(t).push('\n')),
        line_hits(("> "@ + t.attestation@).push('\n'), row_key(x)) == 0,
        ends_lines(("> "@ + t.attestation@).push('\n')),
{
    let h = "# Marketplace app approval — pre-filled submission\n\n"@;
    reveal_strlit("# Marketplace app approval — pre-filled submission\n\n");
    reveal_strlit("Generated from `");
    reveal_strlit("`. Questionnaire transcribed from ");
    reveal_strlit(".");
    reveal_strlit("> ");
    assert(single_line(h.subrange(0, h.len() - 2)));
    lemma_heading_literal(h, x);
    let g0 = "Generated from `"@;
    let g1 = "`. Questionnaire transcribed from "@;
    assert(single_line(g0) && single_line(g1) && single_line("."@) && single_line("> "@));
    lemma_single_line_concat(g0, t.manifest_path@);
    lemma_single_line_concat(g0 + t.manifest_path@, g1);
    lemma_single_line_concat(g0 + t.manifest_path@ + g1, t.questionnaire_source@);
    lemma_single_line_concat(g0 + t.manifest_path@ + g1 + t.questionnaire_source@, "."@);
    assert(source_line(t)[0] == 'G');
    lemma_plain_line(source_line(t), x);
    lemma_single_line_concat("> "@, t.attestation@);
    assert(("> "@ + t.attestation@)[0] == '>');
    lemma_plain_line("> "@ + t.attestation@, x);
}

/// The whole report, as rendered, has exactly one line beginning `| x | `
/// for a question id `x` (a digit, then no space and no line break) when some
/// answer has that id, and none otherwise: one table row per question and no
/// other line like one. This holds of a report whose texts each fit on one
/// line, whose answers use no id twice, and in which no flag's detail, no
/// rationale and no listing field's name could itself be taken for a row.
pub proof fn lemma_one_row_per_question_in_report(t: ApprovalTemplate, x: Seq<char>)
    requires
        plain_report(t),
        plain_id(x),
    ensures
        line_hits(markdown_text(t), row_key(x)) == if exists|k: int|
            0 <= k < t.questionnaire@.len() && (#[trigger] answered_views(t.questionnaire@)[k]).id
                == x {
            1nat
        } else {
            0nat
        },
{
    lemma_row_key(x);
    let key = row_key(x);
    let title = "# Marketplace app approval — pre-filled submission\n\n"@;
    let src = source_line(t).push('\n');
    let nl = "\n"@;
    let quote = ("> "@ + t.attestation@).push('\n');
    let flags = flag_views(t.flags@);
    let fields = field_views(t.listing@);
    let qs = answered_views(t.questionnaire@);
    let before = before_you_submit_text(flags);
    let cov = coverage_text(t.coverage);
    let list = listing_text(fields);
    let quest = questionnaire_text(qs);
    lemma_markdown_parts(t);
    lemma_preamble(t, x);
    lemma_blank_line(x);
    assert forall|i: int| 0 <= i < flags.len() implies plain_flag(#[trigger] flags[i]) by {
        assert(plain_flag(flag_views(t.flags@)[i]));
    }
    assert forall|i: int| 0 <= i < fields.len() implies plain_field(#[trigger] fields[i]) by {
        assert(plain_field(field_views(t.listing@)[i]));
    }
    lemma_before_you_submit(flags, x);
    lemma_coverage_section(t.coverage, x);
    lemma_listing_section(fields, x);
    lemma_one_row_per_question(qs, x);
    lemma_hits_then(title, src, key);
    lemma_hits_then(title + src, nl, key);
    lemma_hits_then(title + src + nl, quote, key);
    lemma_hits_then(title + src + nl + quote, nl, key);
    lemma_hits_then(title + src + nl + quote + nl, before, key);
    lemma_hits_then(title + src + nl + quote + nl + before, cov, key);
    lemma_hits_then(title + src + nl + quote + nl + before + cov, list, key);
    lemma_hits_then(title + src + nl + quote + nl + before + cov + list, quest, key);
}

// ---------------------------------------------------------------------------
// Headings
// ---------------------------------------------------------------------------

/// `x` occurs in `s` at position `i`.
pub open spec fn text_at(s: Seq<char>, x: Seq<char>, i: int) -> bool {
    0 <= i && i + x.len() <= s.len() && s.subrange(i, i + x.len()) == x
}

/// `x` occurs somewhere in `s`.
pub open spec fn contains_text(s: Seq<char>, x: Seq<char>) -> bool {
    exists|i: int| #[trigger] text_at(s, x, i)
}

/// Text found in a part is found when more follows.
proof fn lemma_contains_then(s: Seq<char>, b: Seq<char>, x: Seq<char>)
    requires
        contains_text(s, x),
    ensures
        contains_text(s + b, x),
{
    let i = choose|i: int| #[trigger] text_at(s, x, i);
    assert((s + b).subrange(i, i + x.len()) =~= s.subrange(i, i + x.len()));
    assert(text_at(s + b, x, i));
}

/// Text a part begins with is found when the part follows other text.
proof fn lemma_begins_after(a: Seq<char>, y: Seq<char>, x: Seq<char>)
    requires
        begins_with(y, x),
    ensures
        contains_text(a + y, x),
{
    let j = a.len() as int;
    assert((a + y).subrange(j, j + x.len()) =~= y.subrange(0, x.len() as int));
    assert(text_at(a + y, x, j));
}

/// The report's title line begins with its title.
#[verifier::spinoff_prover]
#[verifier::rlimit(60)]
proof fn lemma_title()
    ensures
        begins_with("# Marketplace app approval — pre-filled submission\n\n"@, "# Marketplace app approval"@),
{
    reveal_strlit("# Marketplace app approval — pre-filled submission\n\n");
    reveal_strlit("# Marketplace app approval");
    assert("# Marketplace app approval — pre-filled submission\n\n"@.subrange(0, 26) =~= "# Marketplace app approval"@);
}

/// Each section begins with its heading.
#[verifier::spinoff_prover]
#[verifier::rlimit(60)]
proof fn lemma_section_headings(t: ApprovalTemplate)
    ensures
        begins_with(before_you_submit_text(flag_views(t.flags@)), "## Before you submit"@),
        begins_with(coverage_text(t.coverage), "## Coverage"@),
        begins_with(listing_text(field_views(t.listing@)), "## Listing details"@),
        begins_with(questionnaire_text(answered_views(t.questionnaire@)), "## Security questionnaire"@),
{
    reveal_strlit("## Before you submit\n\n");
    reveal_strlit("## Before you submit");
    reveal_strlit("## Coverage\n\n");
    reveal_strlit("## Coverage");
    reveal_strlit("## Listing details\n\n");
    reveal_strlit("## Listing details");
    reveal_strlit("## Security questionnaire\n\n");
    reveal_strlit("## Security questionnaire");
    let before = before_you_submit_text(flag_views(t.flags@));
    let cov = coverage_text(t.coverage);
    let list = listing_text(field_views(t.listing@));
    let quest = questionnaire_text(answered_views(t.questionnaire@));
    assert(before.subrange(0, 20) =~= "## Before you submit"@);
    assert(cov.subrange(0, 11) =~= "## Coverage"@);
    assert(list.subrange(0, 18) =~= "## Listing details"@);
    assert(quest.subrange(0, 25) =~= "## Security questionnaire"@);
}

/// The report carries its title, the heading of each section, and the
/// standing caveat in full.
#[verifier::spinoff_prover]
#[verifier::rlimit(60)]
pub proof fn lemma_report_headings(t: ApprovalTemplate)
    ensures
        contains_text(markdown_text(t), "# Marketplace app approval"@),
        contains_text(markdown_text(t), "## Before you submit"@),
        contains_text(markdown_text(t), "## Coverage"@),
        contains_text(markdown_text(t), "## Listing details"@),
        contains_text(markdown_text(t), "## Security questionnaire"@),
        contains_text(markdown_text(t), t.attestation@),
{
    let title = "# Marketplace app approval — pre-filled submission\n\n"@;
    let a0 = title + "Generated from `"@ + t.manifest_path@ + "`. Questionnaire transcribed from "@
        + t.questionnaire_source@ + ".\n\n"@;
    let a1 = a0 + "> "@ + t.attestation@;
    let a2 = a1 + "\n\n"@;
    let before = before_you_submit_text(flag_views(t.flags@));
    let cov = coverage_text(t.coverage);
    let list = listing_text(field_views(t.listing@));
    let quest = questionnaire_text(answered_views(t.questionnaire@));
    let md = markdown_text(t);
    assert(md == a2 + before + cov + list + quest);
    lemma_section_headings(t);
    lemma_title();
    // The title.
    let x = "# Marketplace app approval"@;
    assert(title.subrange(0, x.len() as int) == x);
    assert(text_at(title, x, 0));
    lemma_contains_then(title, "Generated from `"@ + t.manifest_path@
        + "`. Questionnaire transcribed from "@ + t.questionnaire_source@ + ".\n\n"@ + "> "@
        + t.attestation@ + "\n\n"@ + before + cov + list + quest, x);
    assert(title + ("Generated from `"@ + t.manifest_path@ + "`. Questionnaire transcribed from "@
        + t.questionnaire_source@ + ".\n\n"@ + "> "@ + t.attestation@ + "\n\n"@ + before + cov
        + list + quest) =~= md);
    // The caveat.
    let att = t.attestation@;
    assert(a1.subrange((a0 + "> "@).len() as int, ((a0 + "> "@).len() + att.len()) as int) =~= att);
    assert(text_at(a1, att, (a0 + "> "@).len() as int));
    lemma_contains_then(a1, "\n\n"@, att);
    lemma_contains_then(a2, before, att);
    lemma_contains_then(a2 + before, cov, att);
    lemma_contains_then(a2 + before + cov, list, att);
    lemma_contains_then(a2 + before + cov + list, quest, att);
    // The sections.
    lemma_begins_after(a2, before, "## Before you submit"@);
    lemma_contains_then(a2 + before, cov, "## Before you submit"@);
    lemma_contains_then(a2 + before + cov, list, "## Before you submit"@);
    lemma_contains_then(a2 + before + cov + list, quest, "## Before you submit"@);
    lemma_begins_after(a2 + before, cov, "## Coverage"@);
    lemma_contains_then(a2 + before + cov, list, "## Coverage"@);
    lemma_contains_then(a2 + before + cov + list, quest, "## Coverage"@);
    lemma_begins_after(a2 + before + cov, list, "## Listing details"@);
    lemma_contains_then(a2 + before + cov + list, quest, "## Listing details"@);
    lemma_begins_after(a2 + before + cov + list, quest, "## Security questionnaire"@);
}

/// The standing caveat says the report is a draft, not an attestation.
#[verifier::spinoff_prover]
#[verifier::rlimit(60)]
pub proof fn lemma_caveat_is_a_draft()
    ensures
        contains_text(ATTESTATION@, "draft, not an attestation"@),
{
    reveal_strlit("This submission was pre-filled from the app manifest. It is a draft, not an attestation. Every answer marked `confirm_before_submitting` must be checked by the partner before submission, and the partner remains responsible for the accuracy of all answers. Answers marked `requires_code_review` or `requires_partner_input` have not been answered at all and must be completed.");
    reveal_strlit("draft, not an attestation");
    assert(ATTESTATION@.subrange(62, 87) =~= "draft, not an attestation"@);
    assert(text_at(ATTESTATION@, "draft, not an attestation"@, 62));
}

} // verus!
