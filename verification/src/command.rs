//! The decisions of the `approval-template` command: which output it writes,
//! what a scan of the app's source is taken to have covered, and whether a
//! blocking check fails the run.
use vstd::prelude::*;

use crate::code_analysis::{
    checker_views, checkers_ascending, finding_of, finding_views, Checker, CheckerView, CodeAnalysis,
};
use crate::facts::ManifestFacts;
use crate::text::{around_number, decimal};

verus! {

broadcast use vstd::string::group_string_axioms;

/// The output format.
#[derive(Debug, Clone, Copy, PartialEq, Eq, Structural)]
pub enum Format {
    /// Human-readable summary.
    Markdown,
    /// Canonical machine-readable form.
    Json,
    /// Machine-readable form, matching the manifest's own syntax.
    Yaml,
}

/// How a format is named when the output is written to a file.
pub open spec fn format_description(f: Format) -> Seq<char> {
    match f {
        Format::Markdown => "Markdown summary"@,
        Format::Json => "JSON template"@,
        Format::Yaml => "YAML template"@,
    }
}

impl Format {
    /// How this format is named when the output is written to a file.
    pub fn describe(self) -> (r: &'static str)
        ensures
            r@ == format_description(self),
    {
        match self {
            Format::Markdown => "Markdown summary",
            Format::Json => "JSON template",
            Format::Yaml => "YAML template",
        }
    }
}

/// The checkers a scan of the app's source is taken to have run, in the order
/// `derive(Ord)` gives [`Checker`].
///
/// A clean result only means something for a checker that ran, and a scan does
/// not report which did, so this is inferred from the manifest and kept
/// conservative: the secret and credential checkers run over every function;
/// the authentication checker counts only when a web trigger is declared, and
/// the authorization checker only when a module can surface a user interface;
/// the permission checker never counts, though its findings are honoured.
pub open spec fn inferred_checkers_spec(facts: ManifestFacts) -> Seq<CheckerView> {
    (if facts.user_facing_module_types@.len() != 0 {
        seq![CheckerView::Authorization]
    } else {
        Seq::empty()
    }) + (if facts.webtriggers@.len() != 0 {
        seq![CheckerView::Authentication]
    } else {
        Seq::empty()
    }) + seq![CheckerView::HardcodedSecret, CheckerView::AtlassianCredential]
}

/// The checkers a scan of the app's source is taken to have run; see
/// [`inferred_checkers_spec`].
pub fn inferred_checkers(facts: &ManifestFacts) -> (r: Vec<Checker>)
    ensures
        checker_views(r@) == inferred_checkers_spec(*facts),
{
    let mut out: Vec<Checker> = Vec::new();
    if facts.user_facing_module_types.len() != 0 {
        out.push(Checker::Authorization);
    }
    if facts.webtriggers.len() != 0 {
        out.push(Checker::Authentication);
    }
    out.push(Checker::HardcodedSecret);
    out.push(Checker::AtlassianCredential);
    proof {
        assert(checker_views(out@) =~= inferred_checkers_spec(*facts));
    }
    out
}

/// The scan's findings, as `(check_name, description)` pairs, in the shape
/// the report consumes, with the checkers it is taken to have run.
pub fn analysis_from_scan(facts: &ManifestFacts, findings: Vec<(String, String)>) -> (r:
    CodeAnalysis)
    ensures
        r.wf(),
        forall|c: CheckerView|
            checker_views(r.checkers_run@).contains(c) <==> inferred_checkers_spec(*facts).contains(c),
        finding_views(r.findings@) == findings@.map_values(
            |p: (String, String)| finding_of(p.0@, p.1@),
        ),
{
    CodeAnalysis::from_findings(inferred_checkers(facts), findings)
}

/// What a run says, and whether it fails, when checks would block listing.
#[derive(Debug, Clone, PartialEq, Eq)]
pub struct BlockingOutcome {
    /// The notice written to standard error, when a check would block.
    pub notice: Option<String>,
    /// The error the run ends with, when blocking checks fail it.
    pub failure: Option<String>,
}

/// The notice for `n` blocking checks.
pub open spec fn blocking_notice(n: nat) -> Seq<char> {
    "\n"@ + decimal(n) + " check(s) would block listing. Resolve them before submitting."@
}

/// The error for `n` blocking checks.
pub open spec fn blocking_failure(n: nat) -> Seq<char> {
    decimal(n) + " blocking check(s) found"@
}

/// The notice and error a run ends with, given how many checks would block
/// listing and whether the caller asked for blocking checks to fail the run.
pub fn blocking_outcome(blocking: usize, fail_on_blocking: bool) -> (r: BlockingOutcome)
    ensures
        blocking == 0 ==> r.notice is None && r.failure is None,
        blocking > 0 ==> (r.notice matches Some(n) && n@ == blocking_notice(blocking as nat)),
        blocking > 0 && fail_on_blocking ==> (r.failure matches Some(f) && f@ == blocking_failure(
            blocking as nat,
        )),
        !fail_on_blocking ==> r.failure is None,
{
    if blocking == 0 {
        return BlockingOutcome { notice: None, failure: None };
    }
    let notice = around_number(
        "\n",
        blocking,
        " check(s) would block listing. Resolve them before submitting.",
    );
    let failure = if fail_on_blocking {
        Some(around_number("", blocking, " blocking check(s) found"))
    } else {
        None
    };
    proof {
        reveal_strlit("");
        if failure is Some {
            assert(failure->0@ =~= blocking_failure(blocking as nat));
        }
    }
    BlockingOutcome { notice: Some(notice), failure }
}

} // verus!
